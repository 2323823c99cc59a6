//! The window of recent samples that the spectrum analyzer reads: every
//! new sample goes in at the back and the oldest ones fall out, so it holds
//! at most a fixed number of the latest samples.

use std::collections::VecDeque;

use vstd::prelude::*;

verus! {

/// The last `capacity` items of `s` (all of `s` when it is no longer).
pub open spec fn keep_last<T>(s: Seq<T>, capacity: nat) -> Seq<T> {
    if s.len() > capacity {
        s.skip(s.len() - capacity)
    } else {
        s
    }
}

/// Appends `value` and drops the oldest items beyond `capacity`, so the
/// buffer holds the latest `capacity` of everything pushed.
pub fn push_recent<T>(buffer: &mut VecDeque<T>, value: T, capacity: usize)
    ensures
        final(buffer)@ == keep_last(old(buffer)@.push(value), capacity as nat),
{
    let ghost full = old(buffer)@.push(value);
    buffer.push_back(value);
    proof {
        assert(full.skip(0) =~= full);
    }
    while buffer.len() > capacity
        invariant
            buffer@ == full.skip(full.len() - buffer@.len()),
            buffer@.len() <= full.len(),
            buffer@.len() >= capacity || buffer@.len() == full.len(),
        decreases buffer@.len(),
    {
        buffer.pop_front();
        proof {
            assert(buffer@ =~= full.skip(full.len() - buffer@.len()));
        }
    }
    proof {
        if full.len() <= capacity {
            assert(full.skip(0) =~= full);
        }
    }
}

} // verus!
