use std::time::Duration;

use whenamp::deck::{
    adjacent_track, format_duration, lcd_time_text, loaded_status, on_track_finished,
    queue_and_select_first, queue_tracks, selection_after_remove, window_title, Direction, Step,
    TrackEnd,
};
use whenamp::playlist::Playlist;
use whenamp::track::{TitleTag, TrackFile};

#[test]
fn formats_seconds_as_mmss() {
    assert_eq!(format_duration(Duration::from_secs(0).as_secs()), "00:00");
    assert_eq!(format_duration(Duration::from_secs(5).as_secs()), "00:05");
    assert_eq!(format_duration(Duration::from_secs(65).as_secs()), "01:05");
    assert_eq!(format_duration(Duration::from_secs(3661).as_secs()), "61:01");
}

// ---- further cases ----

fn queue(names: &[&str]) -> Playlist {
    let mut playlist = Playlist::new();
    for n in names {
        playlist.push(format!("/m/{n}"), None);
    }
    playlist
}

fn names(playlist: &Playlist) -> Vec<String> {
    playlist.entries.iter().map(|e| e.display_name.clone()).collect()
}

fn files(names: &[&str]) -> Vec<TrackFile> {
    names.iter().map(|n| TrackFile { path: format!("/d/{n}"), tag: None }).collect()
}

#[test]
fn format_duration_reads_back() {
    assert_eq!(format_duration(599), "09:59");
    assert_eq!(format_duration(6000), "100:00");
    let text = format_duration(u64::MAX);
    let (m, s) = text.split_at(text.len() - 3);
    assert_eq!(m.parse::<u64>().unwrap() * 60 + s[1..].parse::<u64>().unwrap(), u64::MAX);
}

#[test]
fn lcd_shows_dashes_without_a_song() {
    assert_eq!(lcd_time_text(false, 42), "--:--");
    assert_eq!(lcd_time_text(true, 42), "00:42");
}

#[test]
fn window_title_defaults_to_the_app_name() {
    assert_eq!(window_title(None), "WhenAmp");
    assert_eq!(window_title(Some("Song".to_string())), "Song");
}

#[test]
fn loaded_status_names_the_file() {
    assert_eq!(loaded_status("/music/x/track.ogg"), "Loaded: track.ogg");
}

#[test]
fn selection_follows_removed_rows() {
    assert_eq!(selection_after_remove(Some(3), 3), None);
    assert_eq!(selection_after_remove(Some(3), 1), Some(2));
    assert_eq!(selection_after_remove(Some(1), 3), Some(1));
    assert_eq!(selection_after_remove(None, 0), None);
}

#[test]
fn prev_and_next_walk_or_restart() {
    let mut empty = Playlist::new();
    assert!(matches!(adjacent_track(&mut empty, Direction::Next), Step::Restart));
    assert!(matches!(adjacent_track(&mut empty, Direction::Prev), Step::Restart));

    let mut playlist = queue(&["a.mp3", "b.mp3"]);
    match adjacent_track(&mut playlist, Direction::Next) {
        Step::Play(p) => assert_eq!(p, "/m/a.mp3"),
        Step::Restart => panic!("expected to play the first track"),
    }
    assert!(matches!(adjacent_track(&mut playlist, Direction::Prev), Step::Restart));
    assert_eq!(playlist.current, Some(0));
    match adjacent_track(&mut playlist, Direction::Next) {
        Step::Play(p) => assert_eq!(p, "/m/b.mp3"),
        Step::Restart => panic!("expected to play the second track"),
    }
    assert!(matches!(adjacent_track(&mut playlist, Direction::Next), Step::Restart));
    assert_eq!(playlist.current, Some(1));
}

#[test]
fn finished_track_repeats_advances_or_halts() {
    let mut playlist = queue(&["a.mp3", "b.mp3"]);
    playlist.current = Some(0);
    assert!(matches!(on_track_finished(&mut playlist, true), TrackEnd::Replay));
    assert_eq!(playlist.current, Some(0));
    match on_track_finished(&mut playlist, false) {
        TrackEnd::Advance(p) => assert_eq!(p, "/m/b.mp3"),
        _ => panic!("expected to advance"),
    }
    assert_eq!(playlist.current, Some(1));
    assert!(matches!(on_track_finished(&mut playlist, false), TrackEnd::Halt));
    assert_eq!(playlist.current, Some(1));
}

#[test]
fn queued_tracks_each_land_right_after_current() {
    let mut playlist = queue(&["a.mp3", "b.mp3"]);
    playlist.current = Some(0);
    queue_tracks(&mut playlist, files(&["x.mp3", "y.mp3"]));
    assert_eq!(names(&playlist), vec!["a.mp3", "y.mp3", "x.mp3", "b.mp3"]);
    assert_eq!(playlist.current, Some(0));

    let mut none_current = queue(&["a.mp3"]);
    queue_tracks(&mut none_current, files(&["x.mp3", "y.mp3"]));
    assert_eq!(names(&none_current), vec!["y.mp3", "x.mp3", "a.mp3"]);
    assert_eq!(none_current.current, None);
}

#[test]
fn dropped_tracks_queue_in_order_and_the_first_plays() {
    let mut playlist = queue(&["a.mp3", "b.mp3"]);
    playlist.current = Some(0);
    let tag = TitleTag { title: "Why".to_string(), artist: None };
    let mut dropped = files(&["x.mp3", "y.mp3"]);
    dropped[0].tag = Some(tag);
    let first = queue_and_select_first(&mut playlist, dropped);
    assert_eq!(first, Some("/d/x.mp3".to_string()));
    assert_eq!(names(&playlist), vec!["a.mp3", "Why", "y.mp3", "b.mp3"]);
    assert_eq!(playlist.current, Some(1));

    let mut untouched = queue(&["a.mp3"]);
    assert_eq!(queue_and_select_first(&mut untouched, Vec::new()), None);
    assert_eq!(untouched.current, None);
    assert_eq!(names(&untouched), vec!["a.mp3"]);

    let mut fresh = Playlist::new();
    assert_eq!(queue_and_select_first(&mut fresh, files(&["p.mp3", "q.mp3"])), Some("/d/p.mp3".to_string()));
    assert_eq!(names(&fresh), vec!["p.mp3", "q.mp3"]);
    assert_eq!(fresh.current, Some(0));
}

#[test]
fn queueing_nothing_leaves_any_queue_alone() {
    let mut playlist = queue(&["a.mp3"]);
    playlist.current = Some(usize::MAX);
    queue_tracks(&mut playlist, Vec::new());
    assert_eq!(queue_and_select_first(&mut playlist, Vec::new()), None);
    assert_eq!(names(&playlist), vec!["a.mp3"]);
    assert_eq!(playlist.current, Some(usize::MAX));
}
