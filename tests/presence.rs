use cmus_presence::display::{get_song_artist, get_song_name, get_timestamp, song_state};
use cmus_presence::session::{Action, Presence, PresenceSession};
use cmus_presence::status::Song;

fn song(playing: bool, position: i64, duration: i64) -> Song {
    Song {
        path: "/music/track.mp3".to_string(),
        playing,
        title: Some("Track".to_string()),
        artist: Some("Artist".to_string()),
        duration,
        position,
    }
}

#[test]
fn timestamp_minutes_and_seconds() {
    assert_eq!(get_timestamp(&song(true, 65, 600)), "1:05 of 10:00");
    assert_eq!(get_timestamp(&song(true, 5, 5)), "0:05 of 0:05");
    assert_eq!(get_timestamp(&song(true, 0, 59)), "0:00 of 0:59");
    assert_eq!(get_timestamp(&song(true, 3600, 7322)), "60:00 of 122:02");
}

#[test]
fn name_and_artist_fall_back() {
    let mut s = song(true, 1, 2);
    assert_eq!(get_song_name(&s), "Track");
    assert_eq!(get_song_artist(&s), "Artist");
    s.title = None;
    s.artist = None;
    assert_eq!(get_song_name(&s), "/music/track.mp3");
    assert_eq!(get_song_artist(&s), "");
}

#[test]
fn state_line_shows_progress_or_paused() {
    assert_eq!(song_state(&song(true, 65, 600)), "Artist (1:05 of 10:00)");
    assert_eq!(song_state(&song(false, 65, 600)), "Artist (paused)");
    let mut s = song(false, 0, 0);
    s.artist = None;
    assert_eq!(song_state(&s), " (paused)");
}

fn pushed(details: &str, state: &str, start: i64) -> Action {
    Action::Push(Presence { details: details.to_string(), state: state.to_string(), start })
}

#[test]
fn session_starts_disconnected() {
    let s = PresenceSession::new();
    assert!(!s.connected);
    assert_eq!(s.session_start, None);
}

#[test]
fn session_connect_close_reconnect() {
    let track = Some(song(true, 65, 600));
    let mut s = PresenceSession::new();

    assert_eq!(s.start_cycle(&track), Action::Connect);
    let a = s.after_connect(true, 1000, track.as_ref().unwrap());
    assert_eq!(a, pushed("Track", "Artist (1:05 of 10:00)", 1000));
    assert!(s.connected);
    assert_eq!(s.session_start, Some(1000));
    assert_eq!(s.after_push(true), Action::Wait);
    assert_eq!(s.session_start, Some(1000));

    assert_eq!(s.start_cycle(&None), Action::Close);
    assert!(!s.connected);
    assert_eq!(s.session_start, None);

    assert_eq!(s.start_cycle(&track), Action::Connect);
    let a = s.after_connect(true, 1002, track.as_ref().unwrap());
    assert_eq!(a, pushed("Track", "Artist (1:05 of 10:00)", 1002));
    assert!(s.connected);
    assert!(s.session_start.unwrap() >= 1000);
}

#[test]
fn session_start_kept_across_tracks() {
    let mut s = PresenceSession::new();
    let first = song(true, 1, 100);
    assert_eq!(s.start_cycle(&Some(first.clone())), Action::Connect);
    s.after_connect(true, 50, &first);
    s.after_push(true);
    let mut second = song(false, 9, 100);
    second.title = Some("Other".to_string());
    assert_eq!(s.start_cycle(&Some(second)), pushed("Other", "Artist (paused)", 50));
}

#[test]
fn push_failure_disconnects_without_retry() {
    let track = Some(song(true, 1, 2));
    let mut s = PresenceSession::new();
    s.start_cycle(&track);
    s.after_connect(true, 10, track.as_ref().unwrap());
    assert_eq!(s.after_push(true), Action::Wait);
    assert!(matches!(s.start_cycle(&track), Action::Push(_)));
    assert_eq!(s.after_push(false), Action::Wait);
    assert!(!s.connected);
    assert_eq!(s.session_start, None);
    assert_eq!(s.start_cycle(&track), Action::Connect);
}

#[test]
fn connect_failure_stays_disconnected() {
    let track = Some(song(true, 1, 2));
    let mut s = PresenceSession::new();
    assert_eq!(s.start_cycle(&track), Action::Connect);
    assert_eq!(s.after_connect(false, 10, track.as_ref().unwrap()), Action::Wait);
    assert!(!s.connected);
    assert_eq!(s.session_start, None);
    assert_eq!(s.start_cycle(&track), Action::Connect);
}

#[test]
fn nothing_playing_while_disconnected_waits() {
    let mut s = PresenceSession::new();
    assert_eq!(s.start_cycle(&None), Action::Wait);
    assert!(!s.connected);
}
