use std::path::{Path, PathBuf};

use whenamp::playlist::Playlist;

fn test_dir() -> PathBuf {
    PathBuf::from("/tmp/whenamp-playlist-tests")
}

fn track(dir: &Path, name: &str) -> String {
    dir.join(name).to_string_lossy().into_owned()
}

#[test]
fn insert_next_lands_right_after_current() {
    let dir = test_dir();
    let mut playlist = Playlist::new();
    playlist.push(track(&dir, "a.mp3"), None);
    playlist.push(track(&dir, "b.mp3"), None);
    playlist.current = Some(0);

    let index = playlist.insert_next(track(&dir, "c.mp3"), None);

    assert_eq!(index, 1);
    assert_eq!(playlist.entries[1].display_name, "c.mp3");
    assert_eq!(playlist.entries[2].display_name, "b.mp3");
}

#[test]
fn insert_next_with_no_current_goes_to_the_front() {
    let dir = test_dir();
    let mut playlist = Playlist::new();
    playlist.push(track(&dir, "a.mp3"), None);

    let index = playlist.insert_next(track(&dir, "b.mp3"), None);

    assert_eq!(index, 0);
    assert_eq!(playlist.entries[0].display_name, "b.mp3");
}

#[test]
fn next_and_prev_walk_the_queue_and_stop_at_the_ends() {
    let dir = test_dir();
    let mut playlist = Playlist::new();
    playlist.push(track(&dir, "a.mp3"), None);
    playlist.push(track(&dir, "b.mp3"), None);

    assert_eq!(playlist.current, None);
    assert!(playlist.next().is_some()); // -> index 0
    assert_eq!(playlist.current, Some(0));
    assert!(playlist.next().is_some()); // -> index 1
    assert_eq!(playlist.current, Some(1));
    assert!(playlist.next().is_none()); // already at the end
    assert_eq!(playlist.current, Some(1));

    assert!(playlist.prev().is_some()); // -> index 0
    assert_eq!(playlist.current, Some(0));
    assert!(playlist.prev().is_none()); // already at the start
    assert_eq!(playlist.current, Some(0));
}

#[test]
fn remove_before_current_shifts_the_index_down() {
    let dir = test_dir();
    let mut playlist = Playlist::new();
    playlist.push(track(&dir, "a.mp3"), None);
    playlist.push(track(&dir, "b.mp3"), None);
    playlist.push(track(&dir, "c.mp3"), None);
    playlist.current = Some(2);

    playlist.remove(0);

    assert_eq!(playlist.current, Some(1));
    assert_eq!(playlist.entries[1].display_name, "c.mp3");
}

#[test]
fn remove_current_clears_current() {
    let dir = test_dir();
    let mut playlist = Playlist::new();
    playlist.push(track(&dir, "a.mp3"), None);
    playlist.current = Some(0);

    playlist.remove(0);

    assert_eq!(playlist.current, None);
    assert!(playlist.entries.is_empty());
}

#[test]
fn m3u_round_trip_preserves_paths() {
    let dir = test_dir();
    let mut playlist = Playlist::new();
    playlist.push(track(&dir, "a.mp3"), None);
    playlist.push(track(&dir, "b.mp3"), None);

    let m3u_path = track(&dir, "list.m3u8");
    let text = playlist.to_m3u();

    let loaded = Playlist::parse_m3u(&text, &m3u_path);

    assert_eq!(loaded.len(), 2);
    assert_eq!(loaded[0], playlist.entries[0].path);
    assert_eq!(loaded[1], playlist.entries[1].path);
}

#[test]
fn m3u_load_resolves_relative_paths_against_the_playlist_dir() {
    let dir = test_dir();
    let m3u_path = track(&dir, "list.m3u");

    let loaded = Playlist::parse_m3u("#EXTM3U\nsong.mp3\n", &m3u_path);

    assert_eq!(loaded, vec![track(&dir, "song.mp3")]);
}

// ---- further cases ----

#[test]
fn to_m3u_writes_header_hints_and_paths() {
    let mut playlist = Playlist::new();
    playlist.push("/music/a.mp3".to_string(), None);
    playlist.push("/music/b.mp3".to_string(), None);
    assert_eq!(
        playlist.to_m3u(),
        "#EXTM3U\n#EXTINF:-1,a.mp3\n/music/a.mp3\n#EXTINF:-1,b.mp3\n/music/b.mp3\n"
    );
    assert_eq!(Playlist::new().to_m3u(), "#EXTM3U\n");
}

#[test]
fn parse_m3u_trims_lines_and_skips_comments_and_blanks() {
    let text = "#EXTM3U\r\n\r\n  /abs/one.mp3  \r\n# a comment\n\t\nrel/two.flac";
    let loaded = Playlist::parse_m3u(text, "/lists/mix.m3u");
    assert_eq!(loaded, vec!["/abs/one.mp3".to_string(), "/lists/rel/two.flac".to_string()]);
}

#[test]
fn parse_m3u_keeps_relative_paths_when_the_playlist_has_no_directory() {
    let loaded = Playlist::parse_m3u("song.mp3\n", "/");
    assert_eq!(loaded, vec!["song.mp3".to_string()]);
    let loaded = Playlist::parse_m3u("song.mp3\n", "list.m3u");
    assert_eq!(loaded, vec!["song.mp3".to_string()]);
}

#[test]
fn parse_m3u_of_empty_text_lists_nothing() {
    assert!(Playlist::parse_m3u("", "/x/list.m3u").is_empty());
    assert!(Playlist::parse_m3u("\n\n#EXTM3U\n", "/x/list.m3u").is_empty());
}

#[test]
fn round_trip_with_relative_paths_resolves_them() {
    let mut playlist = Playlist::new();
    playlist.push("a.mp3".to_string(), None);
    playlist.push("/b.mp3".to_string(), None);
    let loaded = Playlist::parse_m3u(&playlist.to_m3u(), "/lists/p.m3u8");
    assert_eq!(loaded, vec!["/lists/a.mp3".to_string(), "/b.mp3".to_string()]);
}

#[test]
fn insert_next_then_remove_restores_the_queue() {
    let mut playlist = Playlist::new();
    playlist.push("/m/a.mp3".to_string(), None);
    playlist.push("/m/b.mp3".to_string(), None);
    playlist.push("/m/c.mp3".to_string(), None);
    playlist.current = Some(1);
    let index = playlist.insert_next("/m/x.mp3".to_string(), None);
    assert_eq!(index, 2);
    playlist.remove(index);
    let names: Vec<&str> = playlist.entries.iter().map(|e| e.display_name.as_str()).collect();
    assert_eq!(names, vec!["a.mp3", "b.mp3", "c.mp3"]);
    assert_eq!(playlist.current, Some(1));
}

#[test]
fn insert_next_past_the_end_appends() {
    let mut playlist = Playlist::new();
    playlist.push("/m/a.mp3".to_string(), None);
    playlist.current = Some(0);
    assert_eq!(playlist.insert_next("/m/b.mp3".to_string(), None), 1);
    assert_eq!(playlist.entries[1].display_name, "b.mp3");
    assert_eq!(playlist.current, Some(0));
}

#[test]
fn next_then_prev_returns_to_the_same_track() {
    let mut playlist = Playlist::new();
    playlist.push("/m/a.mp3".to_string(), None);
    playlist.push("/m/b.mp3".to_string(), None);
    playlist.push("/m/c.mp3".to_string(), None);
    playlist.current = Some(1);
    assert_eq!(playlist.next(), Some("/m/c.mp3".to_string()));
    assert_eq!(playlist.prev(), Some("/m/b.mp3".to_string()));
    assert_eq!(playlist.current, Some(1));
}

#[test]
fn next_and_prev_on_an_empty_queue_do_nothing() {
    let mut playlist = Playlist::new();
    assert_eq!(playlist.next(), None);
    assert_eq!(playlist.prev(), None);
    assert_eq!(playlist.current, None);
}

#[test]
fn remove_out_of_range_or_after_current_leaves_current() {
    let mut playlist = Playlist::new();
    playlist.push("/m/a.mp3".to_string(), None);
    playlist.push("/m/b.mp3".to_string(), None);
    playlist.current = Some(0);
    playlist.remove(5);
    assert_eq!(playlist.entries.len(), 2);
    assert_eq!(playlist.current, Some(0));
    playlist.remove(1);
    assert_eq!(playlist.entries.len(), 1);
    assert_eq!(playlist.current, Some(0));
}

#[test]
fn set_current_returns_the_path_when_valid() {
    let mut playlist = Playlist::new();
    playlist.push("/m/a.mp3".to_string(), None);
    playlist.push("/m/b.mp3".to_string(), None);
    assert_eq!(playlist.set_current(1), Some("/m/b.mp3".to_string()));
    assert_eq!(playlist.current, Some(1));
    assert_eq!(playlist.set_current(2), None);
    assert_eq!(playlist.current, Some(1));
}

#[test]
fn clear_empties_the_queue() {
    let mut playlist = Playlist::default();
    playlist.push("/m/a.mp3".to_string(), None);
    playlist.current = Some(0);
    playlist.clear();
    assert!(playlist.entries.is_empty());
    assert_eq!(playlist.current, None);
}

#[test]
fn round_trip_keeps_absolute_paths_exactly() {
    let mut playlist = Playlist::new();
    playlist.push("/music/One Song.mp3".to_string(), None);
    playlist.push("/music/#hash.mp3".to_string(), None);
    playlist.push("/m/x.mp3".to_string(), None);
    let loaded = Playlist::parse_m3u(&playlist.to_m3u(), "relative/list.m3u8");
    let paths: Vec<String> = playlist.entries.iter().map(|e| e.path.clone()).collect();
    assert_eq!(loaded, paths);
}
