//! The decisions behind the player's controls: what Prev/Next, a finished
//! track and dropped files do to the queue and to playback, and the text
//! the LCD and the window show. The UI performs the playback actions these
//! functions return.

use vstd::prelude::*;

use crate::playlist::{current_after_remove, entry_view, EntryView, Playlist};
use crate::text::{
    decimal, decimal_pad2, digit_char, digit_value, digits_value, lemma_decimal_reads_back,
    push_decimal_pad2,
};
use crate::track::{file_name_or_path, title_or_file_name, TrackFile};

verus! {

/// Which neighbour of the current track a Prev/Next press moves to.
#[derive(Clone, Copy)]
pub enum Direction {
    Prev,
    Next,
}

/// What a Prev/Next press plays.
pub enum Step {
    /// Load and play the track at this path.
    Play(String),
    /// Nothing to move to: restart the track that is loaded.
    Restart,
}

/// What the player does when the loaded track has played to its end.
pub enum TrackEnd {
    /// Repeat is on: play the same track again from the start.
    Replay,
    /// Load and play the next queued track, at this path.
    Advance(String),
    /// Nothing follows: pause and stop counting as playing.
    Halt,
}

/// `mm:ss` for a number of seconds: the minutes (two digits at least, more
/// when needed), a colon, and the seconds within the minute in two digits.
pub open spec fn mmss(total_secs: nat) -> Seq<char> {
    decimal_pad2(total_secs / 60) + seq![':'] + decimal_pad2(total_secs % 60)
}

/// The `mm:ss` text reads back as the number of seconds it was made from:
/// the digits before the colon are the minutes, the two after it the
/// seconds within the minute.
pub proof fn lemma_mmss_reads_back(total_secs: nat)
    ensures
        mmss(total_secs).len() >= 5,
        mmss(total_secs)[mmss(total_secs).len() - 3] == ':',
        digits_value(mmss(total_secs).take(mmss(total_secs).len() - 3)) == total_secs / 60,
        digits_value(mmss(total_secs).skip(mmss(total_secs).len() - 2)) == total_secs % 60,
        digits_value(mmss(total_secs).skip(mmss(total_secs).len() - 2)) < 60,
{
    let m = decimal_pad2(total_secs / 60);
    let s = decimal_pad2(total_secs % 60);
    lemma_pad2_reads_back(total_secs / 60);
    lemma_pad2_reads_back(total_secs % 60);
    let t = mmss(total_secs);
    assert(s.len() == 2) by {
        assert(total_secs % 60 < 60);
        lemma_decimal_reads_back(total_secs % 60);
        if total_secs % 60 >= 10 {
            assert(decimal(total_secs % 60) == decimal(total_secs % 60 / 10).push(digit_char(
                total_secs % 60 % 10,
            )));
            assert(total_secs % 60 / 10 < 10);
        }
    }
    assert(t.take(t.len() - 3) =~= m);
    assert(t.skip(t.len() - 2) =~= s);
}

/// Zero-padding to two digits keeps the value.
proof fn lemma_pad2_reads_back(n: nat)
    ensures
        digits_value(decimal_pad2(n)) == n,
        decimal_pad2(n).len() >= 2,
{
    lemma_decimal_reads_back(n);
    if n < 10 {
        let p = seq!['0', digit_char(n)];
        assert(p.drop_last() =~= seq!['0']);
        assert(seq!['0'].drop_last() =~= Seq::<char>::empty());
        assert(digits_value(seq!['0']) == digits_value(Seq::<char>::empty()) * 10 + digit_value('0'));
        assert(digit_value(digit_char(n)) == n);
    } else {
        assert(decimal(n) == decimal(n / 10).push(digit_char(n % 10)));
        lemma_decimal_reads_back(n / 10);
    }
}

/// Formats whole seconds as `mm:ss` (minutes are not wrapped into hours).
pub fn format_duration(total_secs: u64) -> (r: String)
    ensures
        r@ == mmss(total_secs as nat),
{
    let mut out = String::new();
    push_decimal_pad2(&mut out, total_secs / 60);
    out.push(':');
    push_decimal_pad2(&mut out, total_secs % 60);
    proof {
        assert(out@ =~= mmss(total_secs as nat));
    }
    out
}

/// The LCD's time readout: `--:--` with no song loaded, else `mm:ss`.
pub fn lcd_time_text(has_song: bool, shown_secs: u64) -> (r: String)
    ensures
        has_song ==> r@ == mmss(shown_secs as nat),
        !has_song ==> r@ == seq!['-', '-', ':', '-', '-'],
{
    if has_song {
        format_duration(shown_secs)
    } else {
        let mut out = String::new();
        out.push('-');
        out.push('-');
        out.push(':');
        out.push('-');
        out.push('-');
        proof {
            assert(out@ =~= seq!['-', '-', ':', '-', '-']);
        }
        out
    }
}

/// The window title: the loaded track's name, or `WhenAmp` with none.
pub fn window_title(track_name: Option<String>) -> (r: String)
    ensures
        match track_name {
            Some(n) => r@ == n@,
            None => r@ == seq!['W', 'h', 'e', 'n', 'A', 'm', 'p'],
        },
{
    match track_name {
        Some(n) => n,
        None => {
            let mut out = String::new();
            out.push('W');
            out.push('h');
            out.push('e');
            out.push('n');
            out.push('A');
            out.push('m');
            out.push('p');
            proof {
                assert(out@ =~= seq!['W', 'h', 'e', 'n', 'A', 'm', 'p']);
            }
            out
        },
    }
}

/// The status line after loading the file at `path`: `Loaded: ` and its
/// file name (or the whole path when it has none).
pub fn loaded_status(path: &str) -> (r: String)
    ensures
        r@ == seq!['L', 'o', 'a', 'd', 'e', 'd', ':', ' '] + file_name_or_path(path@),
{
    let mut out = String::new();
    out.push('L');
    out.push('o');
    out.push('a');
    out.push('d');
    out.push('e');
    out.push('d');
    out.push(':');
    out.push(' ');
    let name = title_or_file_name(None, path);
    out.append(name.as_str());
    proof {
        assert(out@ =~= seq!['L', 'o', 'a', 'd', 'e', 'd', ':', ' '] + file_name_or_path(path@));
    }
    out
}

/// The highlighted playlist row after row `removed` is taken out: cleared
/// if it was that row, one up if it was below it, unchanged otherwise.
pub fn selection_after_remove(selected: Option<usize>, removed: usize) -> (r: Option<usize>)
    ensures
        r == current_after_remove(selected, removed as int),
{
    match selected {
        Some(s) => if s == removed {
            None
        } else if s > removed {
            Some(s - 1)
        } else {
            Some(s)
        },
        None => None,
    }
}

/// Prev/Next: walks the playlist if it has a neighbour to move to,
/// otherwise falls back to restarting the current track (there's nothing
/// to skip to without a queue).
pub fn adjacent_track(playlist: &mut Playlist, direction: Direction) -> (r: Step)
    requires
        direction is Next ==> (old(playlist).current matches Some(c) ==> c < usize::MAX),
        direction is Prev ==> (old(playlist).current matches Some(c) ==> c
            <= old(playlist).entries@.len()),
    ensures
        final(playlist).entries == old(playlist).entries,
        match (
            match direction {
                Direction::Next => old(playlist).next_index(),
                Direction::Prev => old(playlist).prev_index(),
            }
        ) {
            Some(i) => final(playlist).current == Some(i as usize) && (r matches Step::Play(p)
                && p@ == old(playlist).path_at(i)),
            None => final(playlist).current == old(playlist).current && r is Restart,
        },
        old(playlist).wf() ==> final(playlist).wf(),
{
    let moved = match direction {
        Direction::Prev => playlist.prev(),
        Direction::Next => playlist.next(),
    };
    match moved {
        Some(path) => Step::Play(path),
        None => Step::Restart,
    }
}

/// A finished track: repeat it (if Repeat is on) or auto-advance to the
/// next queued track, else halt.
pub fn on_track_finished(playlist: &mut Playlist, repeat_on: bool) -> (r: TrackEnd)
    requires
        !repeat_on ==> (old(playlist).current matches Some(c) ==> c < usize::MAX),
    ensures
        final(playlist).entries == old(playlist).entries,
        repeat_on ==> r is Replay && final(playlist).current == old(playlist).current,
        !repeat_on ==> match old(playlist).next_index() {
            Some(i) => final(playlist).current == Some(i as usize) && (r matches TrackEnd::Advance(
                p,
            ) && p@ == old(playlist).path_at(i)),
            None => final(playlist).current == old(playlist).current && r is Halt,
        },
        old(playlist).wf() ==> final(playlist).wf(),
{
    if repeat_on {
        return TrackEnd::Replay;
    }
    match playlist.next() {
        Some(path) => TrackEnd::Advance(path),
        None => TrackEnd::Halt,
    }
}

/// The entries that a list of track files becomes.
pub open spec fn track_views(tracks: Seq<TrackFile>) -> Seq<EntryView> {
    tracks.map_values(|t: TrackFile| entry_view(t.path@, t.tag))
}

/// Where `insert_next` puts a track in a queue of `len` entries.
pub open spec fn insert_position(len: nat, current: Option<usize>) -> int {
    let i: int = match current {
        Some(c) => c + 1,
        None => 0,
    };
    if i < len {
        i
    } else {
        len as int
    }
}

/// The entries after inserting each of `news`, in turn, where `insert_next`
/// puts it (right after the current track, which stays where it is).
pub open spec fn inserted_each(
    tracks: Seq<EntryView>,
    current: Option<usize>,
    news: Seq<EntryView>,
) -> Seq<EntryView>
    decreases news.len(),
{
    if news.len() == 0 {
        tracks
    } else {
        let prev = inserted_each(tracks, current, news.drop_last());
        prev.insert(insert_position(prev.len(), current), news.last())
    }
}

/// When `current` indexes an entry (or is unset), inserting each track right
/// after it leaves them there in reverse order: each lands in front of the
/// ones queued before it.
pub proof fn lemma_inserted_each_reversed(
    tracks: Seq<EntryView>,
    current: Option<usize>,
    news: Seq<EntryView>,
)
    requires
        current matches Some(c) ==> c < tracks.len(),
    ensures
        inserted_each(tracks, current, news) == tracks.take(insert_position(tracks.len(), current))
            + news.reverse() + tracks.skip(insert_position(tracks.len(), current)),
        inserted_each(tracks, current, news).len() == tracks.len() + news.len(),
    decreases news.len(),
{
    let i0 = insert_position(tracks.len(), current);
    if news.len() == 0 {
        assert(news.reverse() =~= Seq::<EntryView>::empty());
        assert(tracks.take(i0) + news.reverse() + tracks.skip(i0) =~= tracks);
    } else {
        let n0 = news.drop_last();
        lemma_inserted_each_reversed(tracks, current, n0);
        let prev = inserted_each(tracks, current, n0);
        assert(insert_position(prev.len(), current) == i0);
        assert(n0.reverse().len() == n0.len());
        assert(news.reverse() =~= seq![news.last()] + n0.reverse());
        assert(prev.insert(i0, news.last()) =~= tracks.take(i0) + news.reverse() + tracks.skip(
            i0,
        ));
    }
}

/// Queues each track right after the current one, without changing
/// playback — used for files dropped onto the playlist and for ADD.
pub fn queue_tracks(playlist: &mut Playlist, tracks: Vec<TrackFile>)
    requires
        tracks@.len() > 0 ==> (old(playlist).current matches Some(c) ==> c < usize::MAX),
    ensures
        final(playlist).tracks() == inserted_each(
            old(playlist).tracks(),
            old(playlist).current,
            track_views(tracks@),
        ),
        final(playlist).current == old(playlist).current,
        old(playlist).wf() ==> final(playlist).wf(),
        old(playlist).wf() ==> final(playlist).tracks() == old(playlist).tracks().take(
            old(playlist).insert_index(),
        ) + track_views(tracks@).reverse() + old(playlist).tracks().skip(
            old(playlist).insert_index(),
        ),
{
    let ghost news = track_views(tracks@);
    let ghost start = old(playlist).tracks();
    let ghost cur = old(playlist).current;
    let n: usize = tracks.len();
    for t in it: tracks
        invariant
            n == news.len(),
            it.seq() == tracks@,
            news == track_views(it.seq()),
            playlist.current == cur,
            n > 0 ==> (cur matches Some(c) ==> c < usize::MAX),
            playlist.tracks() == inserted_each(start, cur, news.take(it.index())),
            (cur matches Some(c) ==> c < start.len()) ==> playlist.wf(),
    {
        let ghost idx: int = it.index();
        let ghost p = t.path@;
        let ghost tag = t.tag;
        playlist.insert_next(t.path, t.tag);
        proof {
            let taken = news.take(idx + 1);
            assert(taken.drop_last() =~= news.take(idx));
            assert(taken.last() == news[idx]);
            assert(news[idx] == entry_view(p, tag));
        }
    }
    proof {
        assert(news.take(n as int) =~= news);
        if old(playlist).wf() {
            lemma_inserted_each_reversed(start, cur, news);
        }
    }
}

/// Queues the tracks right after the current one, in the order given, makes
/// the first of them current and returns its path to load and play — used
/// for files dropped onto the player window. With no tracks nothing changes.
pub fn queue_and_select_first(playlist: &mut Playlist, tracks: Vec<TrackFile>) -> (r: Option<
    String,
>)
    requires
        tracks@.len() > 0 ==> (old(playlist).current matches Some(c) ==> c < usize::MAX),
    ensures
        final(playlist).tracks() == old(playlist).tracks().take(old(playlist).insert_index())
            + track_views(tracks@) + old(playlist).tracks().skip(old(playlist).insert_index()),
        tracks@.len() > 0 ==> {
            &&& final(playlist).current == Some(old(playlist).insert_index() as usize)
            &&& r matches Some(p) && p@ == tracks@[0].path@
        },
        tracks@.len() == 0 ==> final(playlist).current == old(playlist).current && r is None,
        old(playlist).wf() ==> final(playlist).wf(),
{
    let ghost news = track_views(tracks@);
    let ghost start = old(playlist).tracks();
    if tracks.len() == 0 {
        proof {
            assert(start.take(old(playlist).insert_index()) + news + start.skip(
                old(playlist).insert_index(),
            ) =~= start);
        }
        return None;
    }
    let wanted: usize = match playlist.current {
        Some(c) => c + 1,
        None => 0,
    };
    let first: usize = if wanted < playlist.entries.len() {
        wanted
    } else {
        playlist.entries.len()
    };
    let n: usize = tracks.len();
    let mut at: usize = first;
    for t in it: tracks
        invariant
            n == news.len(),
            it.seq() == tracks@,
            news == track_views(it.seq()),
            first == old(playlist).insert_index(),
            first <= start.len(),
            at == first + it.index(),
            playlist.entries@.len() == start.len() + it.index(),
            start.len() == old(playlist).entries@.len(),
            playlist.current == old(playlist).current,
            playlist.tracks() == start.take(first as int) + news.take(it.index()) + start.skip(
                first as int,
            ),
    {
        let ghost before = playlist.tracks();
        let ghost idx: int = it.index();
        let e = Playlist::make_entry(t.path, t.tag);
        let ghost ev = e@;
        playlist.entries.insert(at, e);
        assert(at < playlist.entries.len());
        proof {
            assert(ev == news[idx]);
            assert(news.take(idx + 1) =~= news.take(idx).push(news[idx]));
            assert(playlist.tracks() =~= before.insert(at as int, ev));
            assert(playlist.tracks() =~= start.take(first as int) + news.take(idx + 1)
                + start.skip(first as int));
        }
        at = at + 1;
    }
    proof {
        assert(news.take(n as int) =~= news);
    }
    proof {
        assert(playlist.tracks()[first as int] == news[0]);
        assert(playlist.path_at(first as int) == playlist.tracks()[first as int].path);
    }
    playlist.set_current(first)
}

} // verus!
