//! The play queue: an ordered list of tracks and which of them, if any,
//! is the one playing.

use vstd::prelude::*;

use crate::track::{display_name_text, track_display_name, TitleTag};

verus! {

/// One queued track: where it is and the name it is listed under.
pub struct PlaylistEntry {
    pub path: String,
    pub display_name: String,
}

/// The abstract content of a queue entry.
pub struct EntryView {
    pub path: Seq<char>,
    pub name: Seq<char>,
}

impl View for PlaylistEntry {
    type V = EntryView;

    open spec fn view(&self) -> EntryView {
        EntryView { path: self.path@, name: self.display_name@ }
    }
}

/// The entry that a track at `path` with metadata `tag` becomes.
pub open spec fn entry_view(path: Seq<char>, tag: Option<TitleTag>) -> EntryView {
    EntryView { path, name: display_name_text(path, tag) }
}

/// The play queue. `current` is the index of the track that is playing, if
/// any.
pub struct Playlist {
    pub entries: Vec<PlaylistEntry>,
    pub current: Option<usize>,
}

/// Where `current` points after the entry at `removed` is taken out: one
/// lower if the removed entry came before it, nowhere if it was the current
/// one, unchanged otherwise.
pub open spec fn current_after_remove(current: Option<usize>, removed: int) -> Option<usize> {
    match current {
        Some(c) => if removed < c {
            Some((c - 1) as usize)
        } else if removed == c {
            None
        } else {
            Some(c)
        },
        None => None,
    }
}

impl Playlist {
    /// The entries, as abstract values.
    pub open spec fn tracks(&self) -> Seq<EntryView> {
        self.entries@.map_values(|e: PlaylistEntry| e@)
    }

    /// The queue's invariant: `current`, when set, indexes an entry.
    pub open spec fn wf(&self) -> bool {
        self.current matches Some(c) ==> c < self.entries@.len()
    }

    /// The path of the entry at `i`.
    pub open spec fn path_at(&self, i: int) -> Seq<char> {
        self.entries@[i].path@
    }

    /// Where `insert_next` puts a track: right after the current one, or at
    /// the front when nothing is current — but never past the end.
    pub open spec fn insert_index(&self) -> int {
        let i: int = match self.current {
            Some(c) => c + 1,
            None => 0,
        };
        if i < self.entries@.len() {
            i
        } else {
            self.entries@.len() as int
        }
    }

    /// The entry that `next` moves to: the one after the current one, or
    /// the first when nothing is current; none at the end of the queue.
    pub open spec fn next_index(&self) -> Option<int> {
        match self.current {
            Some(c) => if c + 1 < self.entries@.len() {
                Some(c + 1)
            } else {
                None
            },
            None => if self.entries@.len() > 0 {
                Some(0)
            } else {
                None
            },
        }
    }

    /// The entry that `prev` moves to: the one before the current one;
    /// none at the start or when nothing is current.
    pub open spec fn prev_index(&self) -> Option<int> {
        match self.current {
            Some(c) => if c > 0 {
                Some(c - 1)
            } else {
                None
            },
            None => None,
        }
    }

    /// An empty queue with nothing current.
    pub fn new() -> (r: Self)
        ensures
            r.entries@.len() == 0,
            r.current is None,
            r.wf(),
    {
        Playlist { entries: Vec::new(), current: None }
    }

    /// The entry for a track at `path` whose metadata tag is `tag`.
    pub(crate) fn make_entry(path: String, tag: Option<TitleTag>) -> (e: PlaylistEntry)
        ensures
            e@ == entry_view(path@, tag),
    {
        let display_name = track_display_name(path.as_str(), tag);
        PlaylistEntry { path, display_name }
    }

    /// Appends to the end of the queue.
    pub fn push(&mut self, path: String, tag: Option<TitleTag>)
        ensures
            final(self).tracks() == old(self).tracks().push(entry_view(path@, tag)),
            final(self).entries@.len() == old(self).entries@.len() + 1,
            final(self).current == old(self).current,
            old(self).wf() ==> final(self).wf(),
    {
        let ghost p = path@;
        let e = Self::make_entry(path, tag);
        self.entries.push(e);
        proof {
            assert(self.tracks() =~= old(self).tracks().push(entry_view(p, tag)));
        }
    }

    /// Inserts right after the currently playing track (or at the start if
    /// nothing is current), returning the index it landed at.
    pub fn insert_next(&mut self, path: String, tag: Option<TitleTag>) -> (index: usize)
        requires
            old(self).current matches Some(c) ==> c < usize::MAX,
        ensures
            index == old(self).insert_index(),
            final(self).tracks() == old(self).tracks().insert(index as int, entry_view(path@, tag)),
            final(self).entries@.len() == old(self).entries@.len() + 1,
            final(self).current == old(self).current,
            old(self).wf() ==> final(self).wf(),
            old(self).wf() ==> (final(self).current matches Some(c) ==> final(self).tracks()[c as int]
                == old(self).tracks()[c as int]),
    {
        let ghost p = path@;
        let wanted: usize = match self.current {
            Some(c) => c + 1,
            None => 0,
        };
        let index: usize = if wanted < self.entries.len() {
            wanted
        } else {
            self.entries.len()
        };
        let e = Self::make_entry(path, tag);
        self.entries.insert(index, e);
        proof {
            assert(self.tracks() =~= old(self).tracks().insert(index as int, entry_view(p, tag)));
        }
        index
    }

    /// Takes out the entry at `index` (nothing happens if there is none),
    /// keeping `current` on the same track when that track stays.
    pub fn remove(&mut self, index: usize)
        ensures
            index < old(self).entries@.len() ==> {
                &&& final(self).tracks() == old(self).tracks().remove(index as int)
                &&& final(self).entries@.len() == old(self).entries@.len() - 1
                &&& final(self).current == current_after_remove(old(self).current, index as int)
            },
            index >= old(self).entries@.len() ==> {
                &&& final(self).tracks() == old(self).tracks()
                &&& final(self).current == old(self).current
            },
            old(self).wf() ==> final(self).wf(),
            old(self).wf() ==> (final(self).current matches Some(c) ==> final(self).tracks()[c as int]
                == old(self).tracks()[old(self).current->0 as int]),
    {
        if index >= self.entries.len() {
            return;
        }
        self.entries.remove(index);
        self.current = match self.current {
            Some(c) => if index < c {
                Some(c - 1)
            } else if index == c {
                None
            } else {
                Some(c)
            },
            None => None,
        };
        proof {
            assert(self.tracks() =~= old(self).tracks().remove(index as int));
        }
    }

    /// Empties the queue.
    pub fn clear(&mut self)
        ensures
            final(self).entries@.len() == 0,
            final(self).current is None,
            final(self).wf(),
    {
        self.entries.clear();
        self.current = None;
    }

    /// Marks `index` as the current track and returns its path, if valid.
    pub fn set_current(&mut self, index: usize) -> (r: Option<String>)
        ensures
            final(self).entries == old(self).entries,
            index < old(self).entries@.len() ==> {
                &&& final(self).current == Some(index)
                &&& r matches Some(p) && p@ == old(self).path_at(index as int)
            },
            index >= old(self).entries@.len() ==> {
                &&& final(self).current == old(self).current
                &&& r is None
            },
            old(self).wf() ==> final(self).wf(),
    {
        if index >= self.entries.len() {
            return None;
        }
        self.current = Some(index);
        Some(self.entries[index].path.clone())
    }

    /// Advances to the next track and returns its path, or `None` at the end
    /// of the queue (or if the queue is empty).
    pub fn next(&mut self) -> (r: Option<String>)
        requires
            old(self).current matches Some(c) ==> c < usize::MAX,
        ensures
            final(self).entries == old(self).entries,
            match old(self).next_index() {
                Some(i) => final(self).current == Some(i as usize) && (r matches Some(p) && p@
                    == old(self).path_at(i)),
                None => final(self).current == old(self).current && r is None,
            },
            old(self).wf() ==> final(self).wf(),
    {
        let next_index: usize = match self.current {
            Some(c) => if c + 1 < self.entries.len() {
                c + 1
            } else {
                return None;
            },
            None => if self.entries.len() > 0 {
                0
            } else {
                return None;
            },
        };
        self.current = Some(next_index);
        Some(self.entries[next_index].path.clone())
    }

    /// Moves to the previous track and returns its path, or `None` if
    /// already at (or before) the start.
    pub fn prev(&mut self) -> (r: Option<String>)
        requires
            old(self).current matches Some(c) ==> c <= old(self).entries@.len(),
        ensures
            final(self).entries == old(self).entries,
            match old(self).prev_index() {
                Some(i) => final(self).current == Some(i as usize) && (r matches Some(p) && p@
                    == old(self).path_at(i)),
                None => final(self).current == old(self).current && r is None,
            },
            old(self).wf() ==> final(self).wf(),
    {
        let prev_index: usize = match self.current {
            Some(c) => if c > 0 {
                c - 1
            } else {
                return None;
            },
            None => return None,
        };
        self.current = Some(prev_index);
        Some(self.entries[prev_index].path.clone())
    }
}

/// Inserting a track with `insert_next` and then removing the index it
/// returned gives back the queue as it was, `current` included.
pub proof fn lemma_insert_next_then_remove_restores(pl: Playlist, e: EntryView)
    requires
        pl.wf(),
    ensures
        pl.tracks().insert(pl.insert_index(), e).remove(pl.insert_index()) == pl.tracks(),
        current_after_remove(pl.current, pl.insert_index()) == pl.current,
{
    let i: int = pl.insert_index();
    assert(pl.tracks().insert(i, e).remove(i) =~= pl.tracks());
}

/// Moving to the next track and then back to the previous one returns to
/// the track that was current.
pub proof fn lemma_next_then_prev_returns(pl: Playlist)
    requires
        pl.current is Some,
        pl.next_index() is Some,
    ensures
        (Playlist { entries: pl.entries, current: Some(pl.next_index()->0 as usize) }).prev_index()
            == Some(pl.current->0 as int),
{
    assert(pl.entries@.len() == pl.entries.len());
}

/// Moving to the previous track and then to the next one returns to the
/// track that was current.
pub proof fn lemma_prev_then_next_returns(pl: Playlist)
    requires
        pl.wf(),
        pl.prev_index() is Some,
    ensures
        (Playlist { entries: pl.entries, current: Some(pl.prev_index()->0 as usize) }).next_index()
            == Some(pl.current->0 as int),
{
}

/// Next walks the queue one entry at a time: with nothing current it starts
/// at the first entry of a non-empty queue, otherwise it moves to the entry
/// right after the current one; it finds nothing only in an empty queue or
/// when the current entry is the last one (or beyond it).
pub proof fn lemma_next_walks_forward(pl: Playlist)
    ensures
        pl.current is None && pl.entries@.len() > 0 ==> pl.next_index() == Some(0int),
        pl.current is Some && pl.current->0 + 1 < pl.entries@.len() ==> pl.next_index() == Some(
            pl.current->0 + 1,
        ),
        pl.next_index() is None <==> (pl.entries@.len() == 0 || (pl.current matches Some(c) && c
            + 1 >= pl.entries@.len())),
        pl.next_index() matches Some(i) ==> 0 <= i < pl.entries@.len(),
{
}

/// Prev steps back one entry from the current one; it finds nothing when
/// nothing is current or the first entry is current.
pub proof fn lemma_prev_walks_backward(pl: Playlist)
    ensures
        pl.current is Some && pl.current->0 > 0 ==> pl.prev_index() == Some(pl.current->0 - 1),
        pl.prev_index() is None <==> (pl.current is None || pl.current == Some(0usize)),
        pl.wf() ==> (pl.prev_index() matches Some(i) ==> 0 <= i < pl.entries@.len()),
{
}

/// Removing an entry keeps the current track whenever it is not the one
/// removed: an earlier removal shifts its index down by one, a later one
/// leaves it; only removing the current entry itself clears it.
pub proof fn lemma_remove_keeps_current_track(current: Option<usize>, removed: usize)
    ensures
        current_after_remove(current, removed as int) is None <==> (current is None || current
            == Some(removed)),
        current is Some && removed < current->0 ==> current_after_remove(current, removed as int) == Some(
            (current->0 - 1) as usize,
        ),
        current is Some && removed > current->0 ==> current_after_remove(current, removed as int)
            == current,
{
}

impl Default for Playlist {
    fn default() -> (r: Self)
        ensures
            r.entries@.len() == 0,
            r.current is None,
    {
        Playlist::new()
    }
}

} // verus!
