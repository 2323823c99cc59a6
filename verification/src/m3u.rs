//! The M3U8 form of the play queue: writing it (`#EXTM3U`, then an
//! `#EXTINF` display-name hint and the path of each entry, one per line)
//! and reading the track paths back, with relative paths resolved against
//! the playlist file's own directory.

use vstd::prelude::*;

use crate::playlist::{EntryView, Playlist, PlaylistEntry};
use crate::text::{chars_of, is_whitespace};
use crate::track::opt_text;

verus! {

/// The target platform's rule for `std::path::Path::is_absolute` (on Unix,
/// "starts with `/`"; on Windows, "has a drive or UNC prefix and a root").
pub uninterp spec fn path_has_absolute_form(path: Seq<char>) -> bool;

/// Whether `std::path::Path::is_absolute` holds of `path`. An absolute path
/// starts with its root (`/`) or, on Windows, with a drive letter or a `\\`
/// prefix, so on every platform it is non-empty and does not start with `#`.
pub open spec fn path_is_absolute(path: Seq<char>) -> bool {
    &&& path.len() > 0
    &&& path[0] != '#'
    &&& path_has_absolute_form(path)
}

/// What `std::path::Path::parent` gives for `path`: the path without its
/// final component, or none for a root or an empty path.
pub uninterp spec fn path_parent(path: Seq<char>) -> Option<Seq<char>>;

/// What `std::path::Path::join` gives: `rel` adjoined to `base`.
pub uninterp spec fn path_join(base: Seq<char>, rel: Seq<char>) -> Seq<char>;

/// Calls `Path::is_absolute`; the result is `path_is_absolute(path)`, a
/// function of the path's text alone on a given platform, and true only of
/// a non-empty path that does not start with `#`.
#[verifier::external_body]
fn is_absolute(path: &str) -> (r: bool)
    ensures
        r == (path@.len() > 0 && path@[0] != '#' && path_has_absolute_form(path@)),
{
    std::path::Path::new(path).is_absolute()
}

/// Calls `Path::parent` and turns the result into a `String`; the result is
/// `path_parent(path)`.
#[verifier::external_body]
fn parent(path: &str) -> (r: Option<String>)
    ensures
        opt_text(r) == path_parent(path@),
{
    match std::path::Path::new(path).parent() {
        Some(p) => Some(p.to_string_lossy().into_owned()),
        None => None,
    }
}

/// Calls `Path::join` and turns the result into a `String`; the result is
/// `path_join(base, rel)`.
#[verifier::external_body]
fn join(base: &str, rel: &str) -> (r: String)
    ensures
        r@ == path_join(base@, rel@),
{
    std::path::Path::new(base).join(rel).to_string_lossy().into_owned()
}

/// `s` without its leading whitespace.
pub open spec fn trim_start(s: Seq<char>) -> Seq<char>
    decreases s.len(),
{
    if s.len() > 0 && is_whitespace(s[0]) {
        trim_start(s.drop_first())
    } else {
        s
    }
}

/// `s` without its trailing whitespace.
pub open spec fn trim_end(s: Seq<char>) -> Seq<char>
    decreases s.len(),
{
    if s.len() > 0 && is_whitespace(s.last()) {
        trim_end(s.drop_last())
    } else {
        s
    }
}

/// `s` without leading and trailing whitespace.
pub open spec fn trim(s: Seq<char>) -> Seq<char> {
    trim_end(trim_start(s))
}

/// Calls `str::trim`, which removes leading and trailing characters with
/// Unicode's `White_Space` property.
#[verifier::external_body]
fn trim_str(s: &str) -> (r: &str)
    ensures
        r@ == trim(s@),
{
    s.trim()
}

/// The pieces of `s` between line feeds (one more than there are line
/// feeds; a final line feed leaves an empty last piece).
pub open spec fn split_lines(s: Seq<char>) -> Seq<Seq<char>>
    decreases s.len(),
{
    if s.len() == 0 {
        seq![Seq::<char>::empty()]
    } else {
        let rest = split_lines(s.drop_last());
        if s.last() == '\n' {
            rest.push(Seq::<char>::empty())
        } else {
            rest.update(rest.len() - 1, rest.last().push(s.last()))
        }
    }
}

/// Whether a trimmed line names a track: it is neither empty nor a `#`
/// directive or comment.
pub open spec fn names_track(line: Seq<char>) -> bool {
    line.len() > 0 && line[0] != '#'
}

/// A listed path as the player opens it: absolute paths as they are,
/// relative ones joined to the playlist's directory when it has one.
pub open spec fn resolve(path: Seq<char>, base: Option<Seq<char>>) -> Seq<char> {
    if path_is_absolute(path) {
        path
    } else {
        match base {
            Some(b) => path_join(b, path),
            None => path,
        }
    }
}

/// Resolution leaves absolute paths alone and joins every other path to the
/// playlist's directory when it has one (and leaves it as written when the
/// playlist has no directory).
pub proof fn lemma_resolve_joins_relative(path: Seq<char>, base: Option<Seq<char>>)
    ensures
        path_is_absolute(path) ==> resolve(path, base) == path,
        !path_is_absolute(path) && base is Some ==> resolve(path, base) == path_join(
            base->0,
            path,
        ),
        !path_is_absolute(path) && base is None ==> resolve(path, base) == path,
{
}

/// A line lists a track exactly when, trimmed, it is non-empty and does not
/// start with `#`; it then lists that trimmed text, resolved.
pub proof fn lemma_line_lists_trimmed_track(line: Seq<char>, base: Option<Seq<char>>)
    ensures
        line_paths(line, base).len() == (if trim(line).len() > 0 && trim(line)[0] != '#' {
            1int
        } else {
            0int
        }),
        line_paths(line, base).len() == 1 ==> line_paths(line, base)[0] == resolve(
            trim(line),
            base,
        ),
{
}

/// The track path that one line contributes: none, or the resolved path.
pub open spec fn line_paths(line: Seq<char>, base: Option<Seq<char>>) -> Seq<Seq<char>> {
    if names_track(trim(line)) {
        seq![resolve(trim(line), base)]
    } else {
        Seq::<Seq<char>>::empty()
    }
}

/// The track paths that a sequence of lines lists, in order.
pub open spec fn lines_paths(lines: Seq<Seq<char>>, base: Option<Seq<char>>) -> Seq<Seq<char>>
    decreases lines.len(),
{
    if lines.len() == 0 {
        Seq::<Seq<char>>::empty()
    } else {
        lines_paths(lines.drop_last(), base) + line_paths(lines.last(), base)
    }
}

/// The track paths that an M3U file at `playlist_path` with text `content`
/// lists.
pub open spec fn m3u_paths(content: Seq<char>, playlist_path: Seq<char>) -> Seq<Seq<char>> {
    lines_paths(split_lines(content), path_parent(playlist_path))
}

/// The texts of a sequence of strings.
pub open spec fn texts(v: Seq<String>) -> Seq<Seq<char>> {
    v.map_values(|s: String| s@)
}

/// `#EXTM3U` and a line feed.
pub open spec fn m3u_header() -> Seq<char> {
    seq!['#', 'E', 'X', 'T', 'M', '3', 'U', '\n']
}

/// `#EXTINF:-1,` — an entry's hint with unknown duration.
pub open spec fn extinf_prefix() -> Seq<char> {
    seq!['#', 'E', 'X', 'T', 'I', 'N', 'F', ':', '-', '1', ',']
}

/// The two lines written for one entry: the `#EXTINF` hint with its display
/// name, then its path.
pub open spec fn entry_text(e: EntryView) -> Seq<char> {
    extinf_prefix() + e.name + seq!['\n'] + e.path + seq!['\n']
}

/// The lines written for a sequence of entries, in order.
pub open spec fn entries_text(ts: Seq<EntryView>) -> Seq<char>
    decreases ts.len(),
{
    if ts.len() == 0 {
        Seq::<char>::empty()
    } else {
        entries_text(ts.drop_last()) + entry_text(ts.last())
    }
}

/// The M3U8 text of a queue with entries `ts`.
pub open spec fn m3u_text(ts: Seq<EntryView>) -> Seq<char> {
    m3u_header() + entries_text(ts)
}

/// Appends the track path that `line` lists, if any, to `out`.
fn push_line_path(line: &str, base: &Option<String>, out: &mut Vec<String>)
    ensures
        texts(final(out)@) == texts(old(out)@) + line_paths(line@, opt_text(*base)),
{
    let t = trim_str(line);
    if t.is_empty() {
        return;
    }
    if t.get_char(0) == '#' {
        return;
    }
    let resolved = if is_absolute(t) {
        String::from_str(t)
    } else {
        match base {
            Some(b) => join(b.as_str(), t),
            None => String::from_str(t),
        }
    };
    let ghost old_out = out@;
    out.push(resolved);
    proof {
        assert(texts(out@) =~= texts(old_out) + line_paths(line@, opt_text(*base)));
    }
}

/// Appends the `#EXTM3U` header line.
fn push_header(out: &mut String)
    ensures
        final(out)@ == old(out)@ + m3u_header(),
{
    out.push('#');
    out.push('E');
    out.push('X');
    out.push('T');
    out.push('M');
    out.push('3');
    out.push('U');
    out.push('\n');
    proof {
        assert(out@ =~= old(out)@ + m3u_header());
    }
}

/// Appends `#EXTINF:-1,`.
fn push_extinf_prefix(out: &mut String)
    ensures
        final(out)@ == old(out)@ + extinf_prefix(),
{
    out.push('#');
    out.push('E');
    out.push('X');
    out.push('T');
    out.push('I');
    out.push('N');
    out.push('F');
    out.push(':');
    out.push('-');
    out.push('1');
    out.push(',');
    proof {
        assert(out@ =~= old(out)@ + extinf_prefix());
    }
}

/// Appends the two lines written for entry `e`.
fn push_entry_text(out: &mut String, e: &PlaylistEntry)
    ensures
        final(out)@ == old(out)@ + entry_text(e@),
{
    push_extinf_prefix(out);
    out.append(e.display_name.as_str());
    out.push('\n');
    out.append(e.path.as_str());
    out.push('\n');
    proof {
        assert(out@ =~= old(out)@ + entry_text(e@));
    }
}

/// Splitting one more character off the end: `split_lines` of a prefix one
/// longer.
proof fn lemma_split_lines_step(s: Seq<char>, i: int)
    requires
        0 <= i < s.len(),
    ensures
        split_lines(s.take(i)).len() >= 1,
        s[i] == '\n' ==> split_lines(s.take(i + 1)) == split_lines(s.take(i)).push(
            Seq::<char>::empty(),
        ),
        s[i] != '\n' ==> split_lines(s.take(i + 1)) == split_lines(s.take(i)).update(
            split_lines(s.take(i)).len() - 1,
            split_lines(s.take(i)).last().push(s[i]),
        ),
{
    lemma_split_lines_nonempty(s.take(i));
    assert(s.take(i + 1).drop_last() =~= s.take(i));
    assert(s.take(i + 1).last() == s[i]);
}

/// `split_lines` always yields at least one piece.
pub proof fn lemma_split_lines_nonempty(s: Seq<char>)
    ensures
        split_lines(s).len() >= 1,
    decreases s.len(),
{
    if s.len() > 0 {
        lemma_split_lines_nonempty(s.drop_last());
    }
}

/// `split_lines` of text that follows a line feed starts afresh: the pieces
/// of `a + b` are those of `a` up to its last line feed, then those of `b`.
proof fn lemma_split_lines_concat(a: Seq<char>, b: Seq<char>)
    requires
        a.len() > 0,
        a.last() == '\n',
    ensures
        split_lines(a + b) == split_lines(a).drop_last() + split_lines(b),
    decreases b.len(),
{
    if b.len() == 0 {
        assert(a + b =~= a);
        assert(a.drop_last().len() < a.len());
        lemma_split_lines_nonempty(a.drop_last());
        assert(split_lines(a).drop_last() =~= split_lines(a.drop_last()));
        assert(split_lines(a) =~= split_lines(a).drop_last() + split_lines(b));
    } else {
        let b0 = b.drop_last();
        lemma_split_lines_concat(a, b0);
        lemma_split_lines_nonempty(b0);
        assert((a + b).drop_last() =~= a + b0);
        assert((a + b).last() == b.last());
        let d = split_lines(a).drop_last();
        let r0 = split_lines(b0);
        if b.last() == '\n' {
            assert((d + r0).push(Seq::<char>::empty()) =~= d + r0.push(Seq::<char>::empty()));
        } else {
            assert((d + r0).update((d + r0).len() - 1, (d + r0).last().push(b.last())) =~= d
                + r0.update(r0.len() - 1, r0.last().push(b.last())));
        }
    }
}

/// Text without a line feed is a single piece.
proof fn lemma_split_lines_single(l: Seq<char>)
    requires
        !l.contains('\n'),
    ensures
        split_lines(l) == seq![l],
    decreases l.len(),
{
    if l.len() == 0 {
        assert(l =~= Seq::<char>::empty());
        assert(split_lines(l) =~= seq![l]);
    } else {
        let l0 = l.drop_last();
        assert(!l0.contains('\n')) by {
            if l0.contains('\n') {
                let k = choose|k: int| 0 <= k < l0.len() && l0[k] == '\n';
                assert(l[k] == '\n');
            }
        }
        lemma_split_lines_single(l0);
        assert(l.last() != '\n') by {
            assert(l[l.len() - 1] == l.last());
        }
        assert(l0.push(l.last()) =~= l);
        assert(seq![l0].update(0, l0.push(l.last())) =~= seq![l]);
    }
}

/// A line without a line feed, followed by one, splits into the line and an
/// empty piece.
proof fn lemma_split_lines_line(l: Seq<char>)
    requires
        !l.contains('\n'),
    ensures
        split_lines(l + seq!['\n']) == seq![l, Seq::<char>::empty()],
{
    let t = l + seq!['\n'];
    assert(t.drop_last() =~= l);
    lemma_split_lines_single(l);
    assert(seq![l].push(Seq::<char>::empty()) =~= seq![l, Seq::<char>::empty()]);
}

/// The paths that lines list distribute over concatenation.
proof fn lemma_lines_paths_concat(a: Seq<Seq<char>>, b: Seq<Seq<char>>, base: Option<Seq<char>>)
    ensures
        lines_paths(a + b, base) == lines_paths(a, base) + lines_paths(b, base),
    decreases b.len(),
{
    if b.len() == 0 {
        assert(a + b =~= a);
        assert(lines_paths(a, base) + lines_paths(b, base) =~= lines_paths(a, base));
    } else {
        let b0 = b.drop_last();
        lemma_lines_paths_concat(a, b0, base);
        assert((a + b).drop_last() =~= a + b0);
        assert((a + b).last() == b.last());
        assert(lines_paths(a, base) + lines_paths(b0, base) + line_paths(b.last(), base)
            =~= lines_paths(a, base) + (lines_paths(b0, base) + line_paths(b.last(), base)));
    }
}

/// `trim_end` keeps a prefix, and keeps a first character that is not
/// whitespace.
proof fn lemma_trim_end_prefix(s: Seq<char>)
    ensures
        trim_end(s).len() <= s.len(),
        forall|i: int| 0 <= i < trim_end(s).len() ==> trim_end(s)[i] == s[i],
        s.len() > 0 && !is_whitespace(s[0]) ==> trim_end(s).len() >= 1,
    decreases s.len(),
{
    if s.len() > 0 && is_whitespace(s.last()) {
        lemma_trim_end_prefix(s.drop_last());
        assert forall|i: int| 0 <= i < trim_end(s).len() implies trim_end(s)[i] == s[i] by {
            assert(s.drop_last()[i] == s[i]);
        }
        if s.len() == 1 {
            assert(s.last() == s[0]);
        }
    }
}

/// A line that starts with `#` names no track.
proof fn lemma_directive_line(s: Seq<char>, base: Option<Seq<char>>)
    requires
        s.len() > 0,
        s[0] == '#',
    ensures
        line_paths(s, base) == Seq::<Seq<char>>::empty(),
{
    assert(!is_whitespace('#'));
    assert(trim_start(s) == s);
    lemma_trim_end_prefix(s);
}

/// The lines of the entries' text, without the final line feed's empty
/// piece: each entry's hint line, then its path.
pub open spec fn entry_lines(ts: Seq<EntryView>) -> Seq<Seq<char>>
    decreases ts.len(),
{
    if ts.len() == 0 {
        Seq::<Seq<char>>::empty()
    } else {
        entry_lines(ts.drop_last()) + seq![extinf_prefix() + ts.last().name, ts.last().path]
    }
}

/// `#EXTM3U` without its line feed.
pub open spec fn header_line() -> Seq<char> {
    seq!['#', 'E', 'X', 'T', 'M', '3', 'U']
}

/// An entry whose name and path contain no line feed.
pub open spec fn single_line_entry(e: EntryView) -> bool {
    !e.name.contains('\n') && !e.path.contains('\n')
}

/// How the written text splits into lines.
proof fn lemma_m3u_text_lines(ts: Seq<EntryView>)
    requires
        forall|i: int| 0 <= i < ts.len() ==> single_line_entry(#[trigger] ts[i]),
    ensures
        split_lines(m3u_text(ts)) == seq![header_line()] + entry_lines(ts) + seq![
            Seq::<char>::empty(),
        ],
    decreases ts.len(),
{
    if ts.len() == 0 {
        assert(!header_line().contains('\n')) by {
            if header_line().contains('\n') {
                let k = choose|k: int| 0 <= k < header_line().len() && header_line()[k] == '\n';
            }
        }
        assert(m3u_text(ts) =~= header_line() + seq!['\n']);
        lemma_split_lines_line(header_line());
        assert(seq![header_line()] + entry_lines(ts) + seq![Seq::<char>::empty()] =~= seq![
            header_line(),
            Seq::<char>::empty(),
        ]);
    } else {
        let t0 = ts.drop_last();
        let e = ts.last();
        assert forall|i: int| 0 <= i < t0.len() implies single_line_entry(#[trigger] t0[i]) by {
            assert(t0[i] == ts[i]);
        }
        lemma_m3u_text_lines(t0);
        assert(single_line_entry(e)) by {
            assert(e == ts[ts.len() - 1]);
        }
        let l1 = extinf_prefix() + e.name;
        let l2 = e.path;
        assert(!l1.contains('\n')) by {
            if l1.contains('\n') {
                let k = choose|k: int| 0 <= k < l1.len() && l1[k] == '\n';
                if k < extinf_prefix().len() {
                    assert(extinf_prefix()[k] != '\n');
                } else {
                    assert(e.name[k - extinf_prefix().len()] == '\n');
                }
            }
        }
        let a = m3u_text(t0);
        assert(m3u_text(ts) =~= a + (l1 + seq!['\n'] + (l2 + seq!['\n'])));
        assert(a.len() > 0 && a.last() == '\n') by {
            if t0.len() == 0 {
                assert(a =~= m3u_header());
            } else {
                assert(entries_text(t0) == entries_text(t0.drop_last()) + entry_text(t0.last()));
                assert(a.last() == entry_text(t0.last()).last());
            }
        }
        lemma_split_lines_concat(a, l1 + seq!['\n'] + (l2 + seq!['\n']));
        let a2 = l1 + seq!['\n'];
        assert(a2.last() == '\n');
        lemma_split_lines_concat(a2, l2 + seq!['\n']);
        lemma_split_lines_line(l1);
        lemma_split_lines_line(l2);
        let prev = seq![header_line()] + entry_lines(t0) + seq![Seq::<char>::empty()];
        assert(prev.drop_last() =~= seq![header_line()] + entry_lines(t0));
        assert(seq![l1, Seq::<char>::empty()].drop_last() =~= seq![l1]);
        assert(split_lines(m3u_text(ts)) =~= seq![header_line()] + entry_lines(ts) + seq![
            Seq::<char>::empty(),
        ]);
    }
}

/// A path that the written text gives back as it is: non-empty, not a `#`
/// line, free of line feeds and of surrounding whitespace.
pub open spec fn m3u_safe_path(path: Seq<char>) -> bool {
    &&& names_track(path)
    &&& !path.contains('\n')
    &&& trim(path) == path
}

/// The listed paths of the entry lines are the entries' paths, resolved.
proof fn lemma_entry_lines_paths(ts: Seq<EntryView>, base: Option<Seq<char>>)
    requires
        forall|i: int| 0 <= i < ts.len() ==> m3u_safe_path(#[trigger] ts[i].path),
    ensures
        lines_paths(entry_lines(ts), base) == ts.map_values(|e: EntryView| resolve(e.path, base)),
    decreases ts.len(),
{
    if ts.len() == 0 {
        assert(lines_paths(entry_lines(ts), base) =~= ts.map_values(
            |e: EntryView| resolve(e.path, base),
        ));
    } else {
        let t0 = ts.drop_last();
        let e = ts.last();
        assert forall|i: int| 0 <= i < t0.len() implies m3u_safe_path(#[trigger] t0[i].path) by {
            assert(t0[i] == ts[i]);
        }
        lemma_entry_lines_paths(t0, base);
        assert(m3u_safe_path(e.path)) by {
            assert(e == ts[ts.len() - 1]);
        }
        let l1 = extinf_prefix() + e.name;
        let pair = seq![l1, e.path];
        lemma_lines_paths_concat(entry_lines(t0), pair, base);
        assert(l1[0] == '#');
        lemma_directive_line(l1, base);
        assert(pair.drop_last() =~= seq![l1]);
        assert(seq![l1].drop_last() =~= Seq::<Seq<char>>::empty());
        assert(lines_paths(seq![l1], base) =~= Seq::<Seq<char>>::empty()) by {
            assert(lines_paths(seq![l1], base) == lines_paths(
                Seq::<Seq<char>>::empty(),
                base,
            ) + line_paths(l1, base));
        }
        assert(lines_paths(pair, base) == lines_paths(seq![l1], base) + line_paths(e.path, base));
        assert(line_paths(e.path, base) == seq![resolve(e.path, base)]);
        assert(lines_paths(entry_lines(ts), base) =~= ts.map_values(
            |e: EntryView| resolve(e.path, base),
        ));
    }
}

/// Reading back what `to_m3u` wrote gives every entry's path, in order,
/// resolved against the playlist's directory — for entries whose names and
/// paths are single lines and whose paths are non-empty, start with no `#`
/// and carry no surrounding whitespace.
pub proof fn lemma_m3u_round_trip(ts: Seq<EntryView>, playlist_path: Seq<char>)
    requires
        forall|i: int|
            0 <= i < ts.len() ==> single_line_entry(#[trigger] ts[i]) && m3u_safe_path(
                ts[i].path,
            ),
    ensures
        m3u_paths(m3u_text(ts), playlist_path) == ts.map_values(
            |e: EntryView| resolve(e.path, path_parent(playlist_path)),
        ),
{
    let base = path_parent(playlist_path);
    lemma_m3u_text_lines(ts);
    lemma_entry_lines_paths(ts, base);
    let h = seq![header_line()];
    let z = seq![Seq::<char>::empty()];
    lemma_lines_paths_concat(h + entry_lines(ts), z, base);
    lemma_lines_paths_concat(h, entry_lines(ts), base);
    assert(header_line()[0] == '#');
    lemma_directive_line(header_line(), base);
    assert(h.drop_last() =~= Seq::<Seq<char>>::empty());
    assert(lines_paths(h, base) =~= Seq::<Seq<char>>::empty()) by {
        assert(lines_paths(h, base) == lines_paths(Seq::<Seq<char>>::empty(), base)
            + line_paths(header_line(), base));
    }
    assert(z.drop_last() =~= Seq::<Seq<char>>::empty());
    assert(trim_start(Seq::<char>::empty()) == Seq::<char>::empty());
    assert(lines_paths(z, base) =~= Seq::<Seq<char>>::empty()) by {
        assert(lines_paths(z, base) == lines_paths(Seq::<Seq<char>>::empty(), base)
            + line_paths(Seq::<char>::empty(), base));
    }
}

/// With absolute paths free of line feeds and surrounding whitespace, and
/// display names free of line feeds, reading back what `to_m3u` wrote gives
/// exactly the entries' paths, in order, wherever the playlist file is.
pub proof fn lemma_m3u_round_trip_absolute(ts: Seq<EntryView>, playlist_path: Seq<char>)
    requires
        forall|i: int|
            0 <= i < ts.len() ==> single_line_entry(#[trigger] ts[i]) && trim(ts[i].path)
                == ts[i].path && path_is_absolute(ts[i].path),
    ensures
        m3u_paths(m3u_text(ts), playlist_path) == ts.map_values(|e: EntryView| e.path),
{
    assert forall|i: int| 0 <= i < ts.len() implies single_line_entry(#[trigger] ts[i])
        && m3u_safe_path(ts[i].path) by {
        assert(single_line_entry(ts[i]));
        assert(path_is_absolute(ts[i].path));
    }
    lemma_m3u_round_trip(ts, playlist_path);
    let base = path_parent(playlist_path);
    assert(ts.map_values(|e: EntryView| resolve(e.path, base)) =~= ts.map_values(
        |e: EntryView| e.path,
    ));
}

impl Playlist {
    /// The queue as an M3U8 playlist (UTF-8, one path per line, with
    /// `#EXTINF` display-name hints) — the most broadly supported playlist
    /// format across players.
    pub fn to_m3u(&self) -> (r: String)
        ensures
            r@ == m3u_text(self.tracks()),
    {
        let mut out = String::new();
        push_header(&mut out);
        proof {
            assert(self.tracks().take(0) =~= Seq::<EntryView>::empty());
            assert(out@ =~= m3u_header() + entries_text(Seq::<EntryView>::empty()));
        }
        let mut i: usize = 0;
        while i < self.entries.len()
            invariant
                i <= self.entries@.len(),
                out@ == m3u_header() + entries_text(self.tracks().take(i as int)),
            decreases self.entries@.len() - i,
        {
            let ghost before = out@;
            let e = &self.entries[i];
            push_entry_text(&mut out, e);
            proof {
                let ts = self.tracks().take(i + 1);
                assert(ts.drop_last() =~= self.tracks().take(i as int));
                assert(ts.last() == e@);
                assert(out@ =~= m3u_header() + entries_text(ts));
            }
            i = i + 1;
        }
        proof {
            assert(self.tracks().take(i as int) =~= self.tracks());
        }
        out
    }

    /// The track paths that an M3U/M3U8 playlist with text `content`, read
    /// from `playlist_path`, lists. Relative paths are resolved against the
    /// playlist file's own directory, matching how other players interpret
    /// them.
    pub fn parse_m3u(content: &str, playlist_path: &str) -> (r: Vec<String>)
        ensures
            texts(r@) == m3u_paths(content@, playlist_path@),
    {
        let base = parent(playlist_path);
        let ghost b = opt_text(base);
        let cs = chars_of(content);
        let mut out: Vec<String> = Vec::new();
        let mut line = String::new();
        let mut i: usize = 0;
        proof {
            assert(cs@.take(0) =~= Seq::<char>::empty());
            assert(texts(out@) =~= Seq::<Seq<char>>::empty());
            assert(split_lines(Seq::<char>::empty()).drop_last() =~= Seq::<Seq<char>>::empty());
        }
        while i < cs.len()
            invariant
                cs@ == content@,
                i <= cs@.len(),
                b == opt_text(base),
                split_lines(cs@.take(i as int)).len() >= 1,
                line@ == split_lines(cs@.take(i as int)).last(),
                texts(out@) == lines_paths(split_lines(cs@.take(i as int)).drop_last(), b),
            decreases cs@.len() - i,
        {
            let c = cs[i];
            proof {
                lemma_split_lines_step(cs@, i as int);
            }
            let ghost lines = split_lines(cs@.take(i as int));
            if c == '\n' {
                push_line_path(line.as_str(), &base, &mut out);
                line = String::new();
                proof {
                    let next = lines.push(Seq::<char>::empty());
                    assert(next.drop_last() =~= lines);
                    assert(lines.drop_last() + seq![lines.last()] =~= lines);
                    assert(lines_paths(lines, b) == lines_paths(lines.drop_last(), b) + line_paths(
                        lines.last(),
                        b,
                    ));
                }
            } else {
                line.push(c);
                proof {
                    let next = lines.update(lines.len() - 1, lines.last().push(c));
                    assert(next.drop_last() =~= lines.drop_last());
                }
            }
            i = i + 1;
        }
        push_line_path(line.as_str(), &base, &mut out);
        proof {
            let lines = split_lines(cs@.take(i as int));
            assert(cs@.take(i as int) =~= content@);
            assert(lines_paths(lines, b) == lines_paths(lines.drop_last(), b) + line_paths(
                lines.last(),
                b,
            ));
        }
        out
    }
}

} // verus!
