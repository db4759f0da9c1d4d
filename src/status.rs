//! The player's status report: lines of whitespace-separated tokens, read
//! into a playback snapshot.

use vstd::prelude::*;
use vstd::string::StringExecFns;
use crate::text::{parse_seconds, push_char, same_text, seconds_value};

verus! {

/// What the player reports while a track is loaded.
#[derive(Debug, Clone, PartialEq, Eq)]
pub struct Song {
    pub path: String,
    pub playing: bool,
    pub title: Option<String>,
    pub artist: Option<String>,
    pub duration: i64,
    pub position: i64,
}

/// A `Song` with its texts as character sequences.
pub struct SongView {
    pub path: Seq<char>,
    pub playing: bool,
    pub title: Option<Seq<char>>,
    pub artist: Option<Seq<char>>,
    pub duration: int,
    pub position: int,
}

/// An optional text as an optional character sequence.
pub open spec fn opt_text(o: Option<String>) -> Option<Seq<char>> {
    match o {
        Some(t) => Some(t@),
        None => None,
    }
}

impl View for Song {
    type V = SongView;

    open spec fn view(&self) -> SongView {
        SongView {
            path: self.path@,
            playing: self.playing,
            title: opt_text(self.title),
            artist: opt_text(self.artist),
            duration: self.duration as int,
            position: self.position as int,
        }
    }
}

impl Song {
    /// Duration and position are counts of seconds.
    pub open spec fn wf(&self) -> bool {
        self.duration >= 0 && self.position >= 0
    }
}

/// The fields gathered so far while reading a report.
pub struct Fields {
    pub path: Option<Seq<char>>,
    pub playing: bool,
    pub title: Option<Seq<char>>,
    pub artist: Option<Seq<char>>,
    pub duration: Option<int>,
    pub position: Option<int>,
    /// Some duration or position line so far held no readable count.
    pub timing_bad: bool,
}

/// Nothing gathered yet: no file, not playing, no tags, no timing.
pub open spec fn no_fields() -> Fields {
    Fields {
        path: None,
        playing: false,
        title: None,
        artist: None,
        duration: None,
        position: None,
        timing_bad: false,
    }
}

/// Words joined with one space between each two.
pub open spec fn join_words(ws: Seq<Seq<char>>) -> Seq<char>
    decreases ws.len(),
{
    if ws.len() == 0 {
        Seq::empty()
    } else if ws.len() == 1 {
        ws[0]
    } else {
        join_words(ws.drop_last()) + seq![' '] + ws.last()
    }
}

/// The tokens of a line from the third on.
pub open spec fn past_two(line: Seq<Seq<char>>) -> Seq<Seq<char>> {
    if line.len() <= 2 {
        Seq::empty()
    } else {
        line.skip(2)
    }
}

/// A line that sets no field: blank, a key alone, an unknown key, or a tag
/// other than title and artist.
pub open spec fn is_ignored(line: Seq<Seq<char>>) -> bool {
    line.len() < 2 || (line[0] != "status"@ && line[0] != "file"@ && line[0] != "duration"@
        && line[0] != "position"@ && line[0] != "tag"@) || (line[0] == "tag"@ && line[1]
        != "title"@ && line[1] != "artist"@)
}

/// What one line of the report does to the fields gathered so far.
pub open spec fn read_line(f: Fields, line: Seq<Seq<char>>) -> Fields {
    if is_ignored(line) {
        f
    } else if line[0] == "status"@ {
        Fields { playing: line[1] == "playing"@, ..f }
    } else if line[0] == "file"@ {
        Fields { path: Some(line[1]), ..f }
    } else if line[0] == "duration"@ {
        Fields {
            duration: seconds_value(line[1]),
            timing_bad: f.timing_bad || seconds_value(line[1]) is None,
            ..f
        }
    } else if line[0] == "position"@ {
        Fields {
            position: seconds_value(line[1]),
            timing_bad: f.timing_bad || seconds_value(line[1]) is None,
            ..f
        }
    } else if line[1] == "title"@ {
        Fields { title: Some(join_words(past_two(line))), ..f }
    } else {
        Fields { artist: Some(join_words(past_two(line))), ..f }
    }
}

/// The fields gathered from a whole report, read from first line to last.
pub open spec fn read_lines(lines: Seq<Seq<Seq<char>>>) -> Fields
    decreases lines.len(),
{
    if lines.len() == 0 {
        no_fields()
    } else {
        read_line(read_lines(lines.drop_last()), lines.last())
    }
}

/// The snapshot a report describes: present when it names a file and gives
/// a duration and a position, and no duration or position line of it is
/// unreadable.
pub open spec fn snapshot_of(lines: Seq<Seq<Seq<char>>>) -> Option<SongView> {
    let f = read_lines(lines);
    if f.path is Some && f.duration is Some && f.position is Some && !f.timing_bad {
        Some(
            SongView {
                path: f.path->0,
                playing: f.playing,
                title: f.title,
                artist: f.artist,
                duration: f.duration->0,
                position: f.position->0,
            },
        )
    } else {
        None
    }
}

/// The tokens of a line from the third on, joined with single spaces.
pub fn join_past_index(line: &Vec<String>) -> (r: String)
    ensures
        r@ == join_words(past_two(line.deep_view())),
{
    let mut out = String::new();
    let mut i: usize = 2;
    while i < line.len()
        invariant
            2 <= i,
            line.len() > 2 ==> i <= line.len(),
            line.len() <= 2 ==> i == 2,
            line.len() > 2 ==> out@ == join_words(line.deep_view().subrange(2, i as int)),
            line.len() <= 2 ==> out@ == join_words(past_two(line.deep_view())),
        decreases line.len() - i,
    {
        let ghost prev = line.deep_view().subrange(2, i as int);
        let ghost next = line.deep_view().subrange(2, i + 1);
        assert(next.drop_last() =~= prev);
        if i > 2 {
            push_char(&mut out, ' ');
        } else {
            assert(prev =~= Seq::<Seq<char>>::empty());
        }
        out.append(line[i].as_str());
        assert(out@ =~= join_words(next));
        i += 1;
    }
    assert(line.len() > 2 ==> line.deep_view().subrange(2, line.len() as int)
        =~= line.deep_view().skip(2));
    out
}

/// Reads a status report, given as lines of tokens, into a snapshot. No
/// snapshot comes without a `file` line, nor without a duration and a
/// position, nor when any duration or position line holds no readable count.
pub fn lines_to_status(lines: Vec<Vec<String>>) -> (r: Option<Song>)
    ensures
        match r {
            Some(song) => snapshot_of(lines.deep_view()) == Some(song@) && song.wf(),
            None => snapshot_of(lines.deep_view()) is None,
        },
{
    let mut path: Option<String> = None;
    let mut title: Option<String> = None;
    let mut artist: Option<String> = None;
    let mut duration: Option<i64> = None;
    let mut position: Option<i64> = None;
    let mut playing: bool = false;
    let mut timing_bad: bool = false;
    let ghost all = lines.deep_view();
    let mut i: usize = 0;
    assert(all.take(0) =~= Seq::<Seq<Seq<char>>>::empty());
    while i < lines.len()
        invariant
            all == lines.deep_view(),
            i <= lines.len(),
            opt_text(path) == read_lines(all.take(i as int)).path,
            playing == read_lines(all.take(i as int)).playing,
            opt_text(title) == read_lines(all.take(i as int)).title,
            opt_text(artist) == read_lines(all.take(i as int)).artist,
            (match duration {
                Some(v) => read_lines(all.take(i as int)).duration == Some(v as int),
                None => read_lines(all.take(i as int)).duration is None,
            }),
            (match position {
                Some(v) => read_lines(all.take(i as int)).position == Some(v as int),
                None => read_lines(all.take(i as int)).position is None,
            }),
            timing_bad == read_lines(all.take(i as int)).timing_bad,
            duration is Some ==> duration->0 >= 0,
            position is Some ==> position->0 >= 0,
        decreases lines.len() - i,
    {
        let line = &lines[i];
        let ghost words = line.deep_view();
        assert(all.take(i + 1).drop_last() =~= all.take(i as int));
        assert(all.take(i + 1).last() == words);
        proof {
            lemma_keys_distinct();
        }
        if line.len() >= 2 {
            assert(words[0] == line[0]@ && words[1] == line[1]@);
            let key = line[0].as_str();
            let value = line[1].as_str();
            if same_text(key, "status") {
                playing = same_text(value, "playing");
            } else if same_text(key, "file") {
                path = Some(line[1].clone());
            } else if same_text(key, "duration") {
                duration = parse_seconds(value);
                if duration.is_none() {
                    timing_bad = true;
                }
            } else if same_text(key, "position") {
                position = parse_seconds(value);
                if position.is_none() {
                    timing_bad = true;
                }
            } else if same_text(key, "tag") {
                if same_text(value, "title") {
                    title = Some(join_past_index(line));
                } else if same_text(value, "artist") {
                    artist = Some(join_past_index(line));
                }
            }
        }
        i += 1;
    }
    assert(all.take(lines.len() as int) =~= all);
    if timing_bad {
        return None;
    }
    match (path, duration, position) {
        (Some(p), Some(d), Some(t)) => Some(
            Song { path: p, playing, title, artist, duration: d, position: t },
        ),
        _ => None,
    }
}

/// A line that names a file.
pub open spec fn is_file_line(line: Seq<Seq<char>>) -> bool {
    line.len() >= 2 && line[0] == "file"@
}

/// A line that gives the player's status.
pub open spec fn is_status_line(line: Seq<Seq<char>>) -> bool {
    line.len() >= 2 && line[0] == "status"@
}

proof fn lemma_keys_distinct()
    ensures
        "status"@ != "file"@,
        "status"@ != "duration"@,
        "status"@ != "position"@,
        "status"@ != "tag"@,
        "file"@ != "duration"@,
        "file"@ != "position"@,
        "file"@ != "tag"@,
        "duration"@ != "position"@,
        "duration"@ != "tag"@,
        "position"@ != "tag"@,
{
    reveal_strlit("status");
    reveal_strlit("file");
    reveal_strlit("duration");
    reveal_strlit("position");
    reveal_strlit("tag");
    assert("status"@.len() == 6);
    assert("file"@.len() == 4);
    assert("duration"@.len() == 8);
    assert("position"@.len() == 8);
    assert("tag"@.len() == 3);
    assert("duration"@[0] != "position"@[0]);
}

proof fn lemma_drop_ignored(
    before: Seq<Seq<Seq<char>>>,
    line: Seq<Seq<char>>,
    after: Seq<Seq<Seq<char>>>,
)
    requires
        is_ignored(line),
    ensures
        read_lines(before + seq![line] + after) == read_lines(before + after),
    decreases after.len(),
{
    let with = before + seq![line] + after;
    let without = before + after;
    if after.len() == 0 {
        assert(with.drop_last() =~= before);
        assert(without =~= before);
    } else {
        lemma_drop_ignored(before, line, after.drop_last());
        assert(with.drop_last() =~= before + seq![line] + after.drop_last());
        assert(without.drop_last() =~= before + after.drop_last());
    }
}

/// A line that sets no field (blank, a key alone, an unknown key, an unknown
/// tag) can be taken out of a report, wherever it stands, without changing
/// what the report describes.
pub proof fn ignored_line_changes_nothing(
    before: Seq<Seq<Seq<char>>>,
    line: Seq<Seq<char>>,
    after: Seq<Seq<Seq<char>>>,
)
    requires
        is_ignored(line),
    ensures
        snapshot_of(before + seq![line] + after) == snapshot_of(before + after),
{
    lemma_drop_ignored(before, line, after);
}

proof fn lemma_no_file_no_path(lines: Seq<Seq<Seq<char>>>)
    requires
        forall|i: int| 0 <= i < lines.len() ==> !is_file_line(#[trigger] lines[i]),
    ensures
        read_lines(lines).path is None,
    decreases lines.len(),
{
    if lines.len() > 0 {
        lemma_keys_distinct();
        assert(!is_file_line(lines[lines.len() - 1]));
        lemma_no_file_no_path(lines.drop_last());
    }
}

/// A report without a `file` line describes no snapshot, whatever else it holds.
pub proof fn no_file_no_snapshot(lines: Seq<Seq<Seq<char>>>)
    requires
        forall|i: int| 0 <= i < lines.len() ==> !is_file_line(#[trigger] lines[i]),
    ensures
        snapshot_of(lines) is None,
{
    lemma_no_file_no_path(lines);
}

/// The last `file` line of a report names the snapshot's path, and a snapshot
/// comes exactly when the report also gives a readable duration and position.
pub proof fn last_file_line_names_path(lines: Seq<Seq<Seq<char>>>, k: int)
    requires
        0 <= k < lines.len(),
        is_file_line(lines[k]),
        forall|j: int| k < j < lines.len() ==> !is_file_line(#[trigger] lines[j]),
    ensures
        read_lines(lines).path == Some(lines[k][1]),
        snapshot_of(lines) is Some <==> (read_lines(lines).duration is Some
            && read_lines(lines).position is Some && !read_lines(lines).timing_bad),
        snapshot_of(lines) is Some ==> snapshot_of(lines)->0.path == lines[k][1],
    decreases lines.len(),
{
    if k < lines.len() - 1 {
        lemma_keys_distinct();
        assert(!is_file_line(lines[lines.len() - 1]));
        assert(lines.drop_last()[k] == lines[k]);
        last_file_line_names_path(lines.drop_last(), k);
    } else {
        lemma_keys_distinct();
        assert(read_lines(lines) == read_line(read_lines(lines.drop_last()), lines[k]));
    }
}

/// The last `status` line of a report decides the transport state: playing
/// exactly when its value is `playing`, and paused for any other value.
pub proof fn last_status_line_decides_playing(lines: Seq<Seq<Seq<char>>>, k: int)
    requires
        0 <= k < lines.len(),
        is_status_line(lines[k]),
        forall|j: int| k < j < lines.len() ==> !is_status_line(#[trigger] lines[j]),
    ensures
        read_lines(lines).playing == (lines[k][1] == "playing"@),
        snapshot_of(lines) is Some ==> snapshot_of(lines)->0.playing == (lines[k][1]
            == "playing"@),
    decreases lines.len(),
{
    if k < lines.len() - 1 {
        lemma_keys_distinct();
        assert(!is_status_line(lines[lines.len() - 1]));
        assert(lines.drop_last()[k] == lines[k]);
        last_status_line_decides_playing(lines.drop_last(), k);
    } else {
        lemma_keys_distinct();
        assert(read_lines(lines) == read_line(read_lines(lines.drop_last()), lines[k]));
    }
}

/// A line that gives a duration or a position.
pub open spec fn is_timing_line(line: Seq<Seq<char>>) -> bool {
    line.len() >= 2 && (line[0] == "duration"@ || line[0] == "position"@)
}

/// A line that gives a duration.
pub open spec fn is_duration_line(line: Seq<Seq<char>>) -> bool {
    line.len() >= 2 && line[0] == "duration"@
}

/// A line that gives a position.
pub open spec fn is_position_line(line: Seq<Seq<char>>) -> bool {
    line.len() >= 2 && line[0] == "position"@
}

/// Every duration and position line holds a readable count of seconds.
pub open spec fn timing_readable(lines: Seq<Seq<Seq<char>>>) -> bool {
    forall|i: int|
        0 <= i < lines.len() && is_timing_line(#[trigger] lines[i]) ==> seconds_value(
            lines[i][1],
        ) is Some
}

proof fn lemma_timing_good(lines: Seq<Seq<Seq<char>>>)
    requires
        timing_readable(lines),
    ensures
        !read_lines(lines).timing_bad,
    decreases lines.len(),
{
    if lines.len() > 0 {
        lemma_keys_distinct();
        let last = lines[lines.len() - 1];
        assert(is_timing_line(last) ==> seconds_value(last[1]) is Some);
        assert(timing_readable(lines.drop_last())) by {
            assert forall|i: int|
                0 <= i < lines.drop_last().len() && is_timing_line(
                    #[trigger] lines.drop_last()[i],
                ) implies seconds_value(lines.drop_last()[i][1]) is Some by {
                assert(lines.drop_last()[i] == lines[i]);
            }
        }
        lemma_timing_good(lines.drop_last());
        assert(read_lines(lines) == read_line(read_lines(lines.drop_last()), last));
    }
}

proof fn lemma_has_duration(lines: Seq<Seq<Seq<char>>>, d: int)
    requires
        timing_readable(lines),
        0 <= d < lines.len(),
        is_duration_line(lines[d]),
    ensures
        read_lines(lines).duration is Some,
    decreases lines.len(),
{
    lemma_keys_distinct();
    let last = lines[lines.len() - 1];
    assert(is_timing_line(lines[d]));
    assert(is_timing_line(last) ==> seconds_value(last[1]) is Some);
    if d < lines.len() - 1 {
        assert(timing_readable(lines.drop_last())) by {
            assert forall|i: int|
                0 <= i < lines.drop_last().len() && is_timing_line(
                    #[trigger] lines.drop_last()[i],
                ) implies seconds_value(lines.drop_last()[i][1]) is Some by {
                assert(lines.drop_last()[i] == lines[i]);
            }
        }
        assert(lines.drop_last()[d] == lines[d]);
        lemma_has_duration(lines.drop_last(), d);
    }
    assert(read_lines(lines) == read_line(read_lines(lines.drop_last()), last));
}

proof fn lemma_has_position(lines: Seq<Seq<Seq<char>>>, p: int)
    requires
        timing_readable(lines),
        0 <= p < lines.len(),
        is_position_line(lines[p]),
    ensures
        read_lines(lines).position is Some,
    decreases lines.len(),
{
    lemma_keys_distinct();
    let last = lines[lines.len() - 1];
    assert(is_timing_line(lines[p]));
    assert(is_timing_line(last) ==> seconds_value(last[1]) is Some);
    if p < lines.len() - 1 {
        assert(timing_readable(lines.drop_last())) by {
            assert forall|i: int|
                0 <= i < lines.drop_last().len() && is_timing_line(
                    #[trigger] lines.drop_last()[i],
                ) implies seconds_value(lines.drop_last()[i][1]) is Some by {
                assert(lines.drop_last()[i] == lines[i]);
            }
        }
        assert(lines.drop_last()[p] == lines[p]);
        lemma_has_position(lines.drop_last(), p);
    }
    assert(read_lines(lines) == read_line(read_lines(lines.drop_last()), last));
}

/// A report with a `file` line, a duration line and a position line, whose
/// duration and position lines all hold readable counts, describes a
/// snapshot, and its path is the value of the last `file` line.
pub proof fn readable_report_has_snapshot(lines: Seq<Seq<Seq<char>>>, k: int, d: int, p: int)
    requires
        0 <= k < lines.len(),
        is_file_line(lines[k]),
        forall|j: int| k < j < lines.len() ==> !is_file_line(#[trigger] lines[j]),
        0 <= d < lines.len(),
        is_duration_line(lines[d]),
        0 <= p < lines.len(),
        is_position_line(lines[p]),
        timing_readable(lines),
    ensures
        snapshot_of(lines) is Some,
        snapshot_of(lines)->0.path == lines[k][1],
{
    last_file_line_names_path(lines, k);
    lemma_timing_good(lines);
    lemma_has_duration(lines, d);
    lemma_has_position(lines, p);
}

proof fn lemma_no_status_not_playing(lines: Seq<Seq<Seq<char>>>)
    requires
        forall|i: int| 0 <= i < lines.len() ==> !is_status_line(#[trigger] lines[i]),
    ensures
        !read_lines(lines).playing,
    decreases lines.len(),
{
    if lines.len() > 0 {
        lemma_keys_distinct();
        assert(!is_status_line(lines[lines.len() - 1]));
        lemma_no_status_not_playing(lines.drop_last());
        assert(read_lines(lines) == read_line(read_lines(lines.drop_last()), lines[lines.len() - 1]));
    }
}

/// A report without a `status` line never describes a playing track.
pub proof fn no_status_line_not_playing(lines: Seq<Seq<Seq<char>>>)
    requires
        forall|i: int| 0 <= i < lines.len() ==> !is_status_line(#[trigger] lines[i]),
    ensures
        !read_lines(lines).playing,
        snapshot_of(lines) is Some ==> !snapshot_of(lines)->0.playing,
{
    lemma_no_status_not_playing(lines);
}

} // verus!
