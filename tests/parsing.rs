use cmus_presence::report::{cmus_status, tokenize};
use cmus_presence::status::{join_past_index, lines_to_status, Song};
use cmus_presence::text::{parse_seconds, same_text};

fn line(words: &[&str]) -> Vec<String> {
    words.iter().map(|w| w.to_string()).collect()
}

fn report(lines: &[&[&str]]) -> Vec<Vec<String>> {
    lines.iter().map(|l| line(l)).collect()
}

fn full_report() -> Vec<Vec<String>> {
    report(&[
        &["status", "playing"],
        &["file", "/music/song.flac"],
        &["duration", "600"],
        &["position", "65"],
        &["tag", "artist", "The", "Band"],
        &["tag", "title", "A", "Song"],
    ])
}

#[test]
fn full_report_gives_snapshot() {
    let song = lines_to_status(full_report()).unwrap();
    assert_eq!(song.path, "/music/song.flac");
    assert!(song.playing);
    assert_eq!(song.title, Some("A Song".to_string()));
    assert_eq!(song.artist, Some("The Band".to_string()));
    assert_eq!(song.duration, 600);
    assert_eq!(song.position, 65);
}

#[test]
fn path_is_file_value() {
    let lines = report(&[&["file", "a.mp3"], &["duration", "1"], &["position", "0"]]);
    let song = lines_to_status(lines).unwrap();
    assert_eq!(song.path, "a.mp3");
    assert!(!song.playing);
    assert_eq!(song.title, None);
    assert_eq!(song.artist, None);
}

#[test]
fn last_file_line_wins() {
    let lines = report(&[
        &["file", "first"],
        &["duration", "1"],
        &["file", "second"],
        &["position", "0"],
    ]);
    assert_eq!(lines_to_status(lines).unwrap().path, "second");
}

#[test]
fn empty_input_gives_none() {
    assert!(lines_to_status(Vec::new()).is_none());
}

#[test]
fn no_file_line_gives_none() {
    let lines = report(&[
        &["status", "playing"],
        &["duration", "600"],
        &["position", "65"],
        &["tag", "title", "x"],
        &["set", "shuffle", "false"],
    ]);
    assert!(lines_to_status(lines).is_none());
    assert!(lines_to_status(report(&[&["status", "stopped"]])).is_none());
}

#[test]
fn missing_duration_or_position_gives_none() {
    let no_duration = report(&[&["file", "f"], &["position", "3"]]);
    assert!(lines_to_status(no_duration).is_none());
    let no_position = report(&[&["file", "f"], &["duration", "3"]]);
    assert!(lines_to_status(no_position).is_none());
}

#[test]
fn unreadable_duration_gives_none() {
    let bad = report(&[&["file", "f"], &["duration", "abc"], &["position", "3"]]);
    assert!(lines_to_status(bad).is_none());
    let negative = report(&[&["file", "f"], &["duration", "10"], &["position", "-3"]]);
    assert!(lines_to_status(negative).is_none());
    let key_alone = report(&[&["file", "f"], &["duration"], &["position", "3"]]);
    assert!(lines_to_status(key_alone).is_none());
}

#[test]
fn title_joins_words() {
    let lines = report(&[
        &["file", "f"],
        &["duration", "1"],
        &["position", "0"],
        &["tag", "title", "a", "b", "c"],
    ]);
    assert_eq!(lines_to_status(lines).unwrap().title, Some("a b c".to_string()));
}

#[test]
fn bare_title_tag_is_empty() {
    let lines = report(&[&["file", "f"], &["duration", "1"], &["position", "0"], &["tag", "title"]]);
    assert_eq!(lines_to_status(lines).unwrap().title, Some(String::new()));
}

#[test]
fn join_past_index_values() {
    assert_eq!(join_past_index(&line(&["tag", "title", "a", "b", "c"])), "a b c");
    assert_eq!(join_past_index(&line(&["tag", "title"])), "");
    assert_eq!(join_past_index(&line(&["tag"])), "");
    assert_eq!(join_past_index(&Vec::new()), "");
}

fn playing_for(value: &str) -> bool {
    let lines = report(&[&["file", "f"], &["duration", "1"], &["position", "0"], &["status", value]]);
    lines_to_status(lines).unwrap().playing
}

#[test]
fn status_value_decides_playing() {
    assert!(playing_for("playing"));
    assert!(!playing_for("stopped"));
    assert!(!playing_for("paused"));
    assert!(!playing_for("Playing"));
    let later = report(&[
        &["status", "playing"],
        &["file", "f"],
        &["duration", "1"],
        &["position", "0"],
        &["status", "paused"],
    ]);
    assert!(!lines_to_status(later).unwrap().playing);
}

#[test]
fn garbage_lines_change_nothing() {
    let clean = lines_to_status(full_report()).unwrap();
    let noisy = report(&[
        &["set", "aaa_mode", "all"],
        &["status", "playing"],
        &[],
        &["file", "/music/song.flac"],
        &["tag", "genre", "Rock"],
        &["duration", "600"],
        &["garbage"],
        &["position", "65"],
        &["status"],
        &["tag", "artist", "The", "Band"],
        &["%%", "??", "!!"],
        &["tag", "title", "A", "Song"],
        &["tag"],
    ]);
    let song: Song = lines_to_status(noisy).unwrap();
    assert_eq!(song, clean);
}

#[test]
fn parse_seconds_values() {
    assert_eq!(parse_seconds("65"), Some(65));
    assert_eq!(parse_seconds("+7"), Some(7));
    assert_eq!(parse_seconds("-0"), Some(0));
    assert_eq!(parse_seconds("007"), Some(7));
    assert_eq!(parse_seconds("9223372036854775807"), Some(i64::MAX));
    assert_eq!(parse_seconds("9223372036854775808"), None);
    assert_eq!(parse_seconds("-5"), None);
    assert_eq!(parse_seconds(""), None);
    assert_eq!(parse_seconds("+"), None);
    assert_eq!(parse_seconds("1a"), None);
    assert_eq!(parse_seconds(" 1"), None);
}

#[test]
fn same_text_values() {
    assert!(same_text("file", "file"));
    assert!(!same_text("file", "files"));
    assert!(!same_text("file", "fild"));
    assert!(same_text("", ""));
}

#[test]
fn tokenize_cuts_lines_and_words() {
    let lines = tokenize("status playing\n\nfile  /a b\t c\r\nduration 5\n");
    let expected = report(&[&["status", "playing"], &[], &["file", "/a", "b", "c"], &["duration", "5"]]);
    assert_eq!(lines, expected);
}

#[test]
fn tokenize_edges() {
    assert!(tokenize("").is_empty());
    assert_eq!(tokenize("x"), report(&[&["x"]]));
    assert_eq!(tokenize("x\n"), report(&[&["x"]]));
    assert_eq!(tokenize("\n"), report(&[&[]]));
    assert_eq!(tokenize("  \n y"), report(&[&[], &["y"]]));
    assert_eq!(tokenize("a\u{3000}b"), report(&[&["a", "b"]]));
}

#[test]
fn cmus_status_reads_raw_output() {
    let out = b"status paused\nfile /m/x.ogg\nduration 200\nposition 10\ntag title Caf\xe9 Song\n";
    let song = cmus_status(out).unwrap();
    assert_eq!(song.path, "/m/x.ogg");
    assert!(!song.playing);
    assert_eq!(song.title, Some("Caf\u{FFFD} Song".to_string()));
    assert_eq!(song.duration, 200);
    assert_eq!(song.position, 10);
    assert!(cmus_status(b"").is_none());
    assert!(cmus_status(b"status stopped\n").is_none());
}

#[test]
fn unreadable_timing_sticks() {
    let later_good = report(&[&["file", "a"], &["duration", "x"], &["duration", "5"], &["position", "1"]]);
    assert!(lines_to_status(later_good).is_none());
    let position_later_good = report(&[&["file", "a"], &["duration", "5"], &["position", "-1"], &["position", "1"]]);
    assert!(lines_to_status(position_later_good).is_none());
    let repeated_good = report(&[&["file", "a"], &["duration", "4"], &["duration", "5"], &["position", "1"]]);
    assert_eq!(lines_to_status(repeated_good).unwrap().duration, 5);
}

#[test]
fn whitespace_list_matches_char_is_whitespace() {
    for code in 0u32..0x3100 {
        let c = match char::from_u32(code) {
            Some(c) if c != '\n' => c,
            _ => continue,
        };
        let text = format!("a{}b", c);
        let expected = if c.is_whitespace() {
            report(&[&["a", "b"]])
        } else {
            vec![vec![text.clone()]]
        };
        assert_eq!(tokenize(&text), expected, "code point {:x}", code);
    }
}
