//! Track naming and the metadata shown on the LCD: how a track is titled
//! ("Artist - Title", the title alone, or the file name) and the text of
//! the KBPS / KHZ / STEREO badges.

use vstd::prelude::*;

use crate::text::{
    chars_of, char_is_whitespace, decimal, digits_value, is_blank, is_digit, is_whitespace,
    lemma_decimal_reads_back, push_decimal,
};

verus! {

/// The title and artist that a file's metadata tag holds. A tag without a
/// title is read as no tag at all.
pub struct TitleTag {
    pub title: String,
    pub artist: Option<String>,
}

/// A track file to queue: its path and the tag read from it, if any.
pub struct TrackFile {
    pub path: String,
    pub tag: Option<TitleTag>,
}

/// Metadata about the currently loaded track beyond title/duration.
#[derive(Clone, Copy)]
pub struct TrackInfo {
    pub sample_rate_hz: Option<u32>,
    pub channels: Option<u16>,
    pub kbps: Option<u32>,
}

/// The text of an optional string.
pub open spec fn opt_text(s: Option<String>) -> Option<Seq<char>> {
    match s {
        Some(s) => Some(s@),
        None => None,
    }
}

/// "Artist - Title" when an artist is given and is not blank, otherwise
/// just the title.
pub open spec fn track_title_text(title: Seq<char>, artist: Option<Seq<char>>) -> Seq<char> {
    match artist {
        Some(a) => if is_blank(a) {
            title
        } else {
            a + seq![' ', '-', ' '] + title
        },
        None => title,
    }
}

/// The title that a tag gives a track.
pub open spec fn tag_title_text(tag: TitleTag) -> Seq<char> {
    track_title_text(tag.title@, opt_text(tag.artist))
}

/// The final component of `path`, as `std::path::Path::file_name` gives it
/// (`None` for a path that ends in `..` or is a root).
pub uninterp spec fn path_file_name(path: Seq<char>) -> Option<Seq<char>>;

/// The file name of `path`, or the whole path when it has none.
pub open spec fn file_name_or_path(path: Seq<char>) -> Seq<char> {
    match path_file_name(path) {
        Some(name) => name,
        None => path,
    }
}

/// A track's name: its title when one is known, otherwise its file name.
pub open spec fn title_or_file_name_text(title: Option<Seq<char>>, path: Seq<char>) -> Seq<char> {
    match title {
        Some(t) => t,
        None => file_name_or_path(path),
    }
}

/// The name under which a track at `path` with metadata `tag` is listed.
pub open spec fn display_name_text(path: Seq<char>, tag: Option<TitleTag>) -> Seq<char> {
    match tag {
        Some(t) => tag_title_text(t),
        None => file_name_or_path(path),
    }
}

/// Calls `std::path::Path::file_name` on `path` and turns the component
/// into a `String`; the result is `path_file_name(path)`, a function of
/// the path's text alone.
#[verifier::external_body]
fn file_name(path: &str) -> (r: Option<String>)
    ensures
        opt_text(r) == path_file_name(path@),
{
    match std::path::Path::new(path).file_name() {
        Some(name) => Some(name.to_string_lossy().into_owned()),
        None => None,
    }
}

/// Whether every character of `s` is whitespace.
pub fn is_blank_str(s: &str) -> (r: bool)
    ensures
        r == is_blank(s@),
{
    let cs = chars_of(s);
    let mut i: usize = 0;
    while i < cs.len()
        invariant
            cs@ == s@,
            i <= cs.len(),
            forall|j: int| 0 <= j < i ==> is_whitespace(#[trigger] s@[j]),
        decreases cs.len() - i,
    {
        if !char_is_whitespace(cs[i]) {
            return false;
        }
        i = i + 1;
    }
    true
}

/// "Artist - Title" when an artist tag is present and non-blank, otherwise
/// just the title.
pub fn format_track_title(title: &str, artist: Option<&str>) -> (r: String)
    ensures
        r@ == track_title_text(
            title@,
            match artist {
                Some(a) => Some(a@),
                None => None,
            },
        ),
{
    match artist {
        Some(a) => {
            if is_blank_str(a) {
                String::from_str(title)
            } else {
                let mut out = String::from_str(a);
                out.push(' ');
                out.push('-');
                out.push(' ');
                out.append(title);
                proof {
                    assert(out@ =~= a@ + seq![' ', '-', ' '] + title@);
                }
                out
            }
        },
        None => String::from_str(title),
    }
}

/// The title a tag gives its track ("Artist - Title" or the title).
pub fn tag_title(tag: &TitleTag) -> (r: String)
    ensures
        r@ == tag_title_text(*tag),
{
    match &tag.artist {
        Some(a) => format_track_title(tag.title.as_str(), Some(a.as_str())),
        None => format_track_title(tag.title.as_str(), None),
    }
}

/// The track's title if one is known, otherwise the file name of `path`
/// (or the whole path when it has no file name).
pub fn title_or_file_name(title: Option<String>, path: &str) -> (r: String)
    ensures
        r@ == title_or_file_name_text(opt_text(title), path@),
{
    match title {
        Some(t) => t,
        None => match file_name(path) {
            Some(name) => name,
            None => String::from_str(path),
        },
    }
}

/// The metadata title if present, otherwise the filename — the name a
/// track is listed under, for a track at `path` whose tag (as read from the
/// file) is `tag`.
pub fn track_display_name(path: &str, tag: Option<TitleTag>) -> (r: String)
    ensures
        r@ == display_name_text(path@, tag),
{
    match tag {
        Some(t) => tag_title(&t),
        None => title_or_file_name(None, path),
    }
}

impl Default for TrackInfo {
    fn default() -> (r: Self)
        ensures
            r.sample_rate_hz is None,
            r.channels is None,
            r.kbps is None,
    {
        TrackInfo { sample_rate_hz: None, channels: None, kbps: None }
    }
}

/// The text of the KBPS badge: the bitrate, or `--` when unknown.
pub open spec fn kbps_badge_text(kbps: Option<u32>) -> Seq<char> {
    match kbps {
        Some(k) => decimal(k as nat) + seq![' ', 'K', 'B', 'P', 'S'],
        None => seq!['-', '-', ' ', 'K', 'B', 'P', 'S'],
    }
}

/// The text of the KHZ badge: whole kilohertz (rounded down), or `--`.
pub open spec fn khz_badge_text(sample_rate_hz: Option<u32>) -> Seq<char> {
    match sample_rate_hz {
        Some(hz) => decimal((hz / 1000) as nat) + seq![' ', 'K', 'H', 'Z'],
        None => seq!['-', '-', ' ', 'K', 'H', 'Z'],
    }
}

/// The KBPS badge is the bitrate written out in full in decimal digits,
/// then ` KBPS`: the digits before the suffix read back as the bitrate.
pub proof fn lemma_kbps_badge_reads_back(k: u32)
    ensures
        kbps_badge_text(Some(k)).len() >= 6,
        kbps_badge_text(Some(k)).skip(kbps_badge_text(Some(k)).len() - 5) == seq![
            ' ',
            'K',
            'B',
            'P',
            'S',
        ],
        digits_value(kbps_badge_text(Some(k)).take(kbps_badge_text(Some(k)).len() - 5)) == k,
        forall|i: int|
            0 <= i < kbps_badge_text(Some(k)).len() - 5 ==> is_digit(
                #[trigger] kbps_badge_text(Some(k))[i],
            ),
{
    let t = kbps_badge_text(Some(k));
    lemma_decimal_reads_back(k as nat);
    assert(t.take(t.len() - 5) =~= decimal(k as nat));
    assert(t.skip(t.len() - 5) =~= seq![' ', 'K', 'B', 'P', 'S']);
    assert forall|i: int| 0 <= i < t.len() - 5 implies is_digit(#[trigger] t[i]) by {
        assert(t[i] == decimal(k as nat)[i]);
    }
}

/// The KHZ badge is the sample rate in whole kilohertz (rounded down),
/// written out in full in decimal digits, then ` KHZ`.
pub proof fn lemma_khz_badge_reads_back(hz: u32)
    ensures
        khz_badge_text(Some(hz)).len() >= 5,
        khz_badge_text(Some(hz)).skip(khz_badge_text(Some(hz)).len() - 4) == seq![
            ' ',
            'K',
            'H',
            'Z',
        ],
        digits_value(khz_badge_text(Some(hz)).take(khz_badge_text(Some(hz)).len() - 4)) == hz
            / 1000,
        forall|i: int|
            0 <= i < khz_badge_text(Some(hz)).len() - 4 ==> is_digit(
                #[trigger] khz_badge_text(Some(hz))[i],
            ),
{
    let t = khz_badge_text(Some(hz));
    lemma_decimal_reads_back((hz / 1000) as nat);
    assert(t.take(t.len() - 4) =~= decimal((hz / 1000) as nat));
    assert(t.skip(t.len() - 4) =~= seq![' ', 'K', 'H', 'Z']);
    assert forall|i: int| 0 <= i < t.len() - 4 implies is_digit(#[trigger] t[i]) by {
        assert(t[i] == decimal((hz / 1000) as nat)[i]);
    }
}

impl TrackInfo {
    /// "128 KBPS", or "-- KBPS" when the bitrate is unknown.
    pub fn kbps_text(&self) -> (r: String)
        ensures
            r@ == kbps_badge_text(self.kbps),
    {
        let mut out = String::new();
        match self.kbps {
            Some(k) => push_decimal(&mut out, k as u64),
            None => {
                out.push('-');
                out.push('-');
            },
        }
        out.push(' ');
        out.push('K');
        out.push('B');
        out.push('P');
        out.push('S');
        proof {
            assert(out@ =~= kbps_badge_text(self.kbps));
        }
        out
    }

    /// "44 KHZ" (the sample rate in whole kilohertz), or "-- KHZ".
    pub fn khz_text(&self) -> (r: String)
        ensures
            r@ == khz_badge_text(self.sample_rate_hz),
    {
        let mut out = String::new();
        match self.sample_rate_hz {
            Some(hz) => push_decimal(&mut out, (hz / 1000) as u64),
            None => {
                out.push('-');
                out.push('-');
            },
        }
        out.push(' ');
        out.push('K');
        out.push('H');
        out.push('Z');
        proof {
            assert(out@ =~= khz_badge_text(self.sample_rate_hz));
        }
        out
    }

    /// Whether the track has two or more channels; a track whose channel
    /// count is unknown counts as mono.
    pub fn is_stereo(&self) -> (r: bool)
        ensures
            r == match self.channels {
                Some(c) => c >= 2,
                None => false,
            },
    {
        match self.channels {
            Some(c) => c >= 2,
            None => false,
        }
    }
}

} // verus!
