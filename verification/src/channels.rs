//! Which channel each sample of an interleaved audio stream belongs to:
//! samples arrive as frames of `channels` samples, channel 0 first, and the
//! per-channel effects (balance, equalizer) follow them with this cursor.

use vstd::prelude::*;

verus! {

/// Tracks the channel of the next sample in an interleaved stream.
pub struct ChannelCursor {
    channels: usize,
    index: usize,
}

impl ChannelCursor {
    /// The cursor's invariant: at least one channel, and the next sample's
    /// channel is one of them.
    #[verifier::type_invariant]
    spec fn inv(self) -> bool {
        1 <= self.channels && self.index < self.channels
    }

    /// The number of channels per frame.
    pub closed spec fn spec_channels(self) -> nat {
        self.channels as nat
    }

    /// The channel of the next sample.
    pub closed spec fn spec_index(self) -> nat {
        self.index as nat
    }

    /// A cursor at the start of a frame of `channels` channels; a stream
    /// that claims no channels is treated as mono.
    pub fn new(channels: usize) -> (r: Self)
        ensures
            r.spec_channels() == if channels == 0 {
                1
            } else {
                channels as nat
            },
            r.spec_index() == 0,
    {
        let channels: usize = if channels == 0 {
            1
        } else {
            channels
        };
        ChannelCursor { channels, index: 0 }
    }

    /// The number of channels per frame.
    pub fn channels(&self) -> (r: usize)
        ensures
            r == self.spec_channels(),
            r >= 1,
    {
        proof {
            use_type_invariant(self);
        }
        self.channels
    }

    /// Returns the channel of the sample at hand and moves on to the next
    /// one, wrapping to channel 0 after the last channel of a frame.
    pub fn advance(&mut self) -> (channel: usize)
        ensures
            channel == old(self).spec_index(),
            channel < old(self).spec_channels(),
            final(self).spec_channels() == old(self).spec_channels(),
            final(self).spec_index() == (old(self).spec_index() + 1) % old(self).spec_channels(),
    {
        proof {
            use_type_invariant(&*self);
        }
        let channel: usize = self.index;
        let next: usize = if self.index + 1 == self.channels {
            0
        } else {
            self.index + 1
        };
        self.index = next;
        proof {
            let n: nat = old(self).spec_channels();
            let i: nat = old(self).spec_index();
            if i + 1 == n {
                vstd::arithmetic::div_mod::lemma_mod_self_0(n as int);
            } else {
                vstd::arithmetic::div_mod::lemma_small_mod((i + 1) as nat, n);
            }
        }
        channel
    }
}

} // verus!
