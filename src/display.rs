//! The text a presence update shows for a snapshot.

use vstd::prelude::*;
use vstd::string::StringExecFns;
use crate::status::{Song, SongView};
use crate::text::{decimal, push_char, push_decimal};

verus! {

/// `minutes:seconds`, the seconds padded to two digits, the minutes not padded.
pub open spec fn clock_text(secs: nat) -> Seq<char> {
    decimal(secs / 60) + seq![':'] + (if secs % 60 < 10 {
        seq!['0']
    } else {
        Seq::empty()
    }) + decimal(secs % 60)
}

/// `position of duration`, each as `minutes:seconds`.
pub open spec fn timestamp_text(position: nat, duration: nat) -> Seq<char> {
    clock_text(position) + " of "@ + clock_text(duration)
}

/// The title of the track, or its path where it has none.
pub open spec fn song_name(s: SongView) -> Seq<char> {
    match s.title {
        Some(t) => t,
        None => s.path,
    }
}

/// The artist of the track, or nothing where it has none.
pub open spec fn song_artist(s: SongView) -> Seq<char> {
    match s.artist {
        Some(a) => a,
        None => Seq::empty(),
    }
}

/// `artist (progress)`, where progress is `paused` while the track is not
/// playing.
pub open spec fn state_text(s: SongView) -> Seq<char> {
    song_artist(s) + " ("@ + (if s.playing {
        timestamp_text(s.position as nat, s.duration as nat)
    } else {
        "paused"@
    }) + ")"@
}

fn push_clock(out: &mut String, secs: u64)
    ensures
        final(out)@ == old(out)@ + clock_text(secs as nat),
{
    let minutes = secs / 60;
    let seconds = secs % 60;
    push_decimal(out, minutes);
    push_char(out, ':');
    if seconds < 10 {
        push_char(out, '0');
    }
    push_decimal(out, seconds);
    assert(final(out)@ =~= old(out)@ + clock_text(secs as nat));
}

/// The playing position against the track's length, as `m:ss of m:ss`.
pub fn get_timestamp(song: &Song) -> (r: String)
    requires
        song.wf(),
    ensures
        r@ == timestamp_text(song.position as nat, song.duration as nat),
{
    let mut out = String::new();
    push_clock(&mut out, song.position as u64);
    out.append(" of ");
    push_clock(&mut out, song.duration as u64);
    assert(out@ =~= timestamp_text(song.position as nat, song.duration as nat));
    out
}

/// The name shown for a track: its title, else its path.
pub fn get_song_name(song: &Song) -> (r: &str)
    ensures
        r@ == song_name(song@),
{
    match &song.title {
        Some(t) => t.as_str(),
        None => song.path.as_str(),
    }
}

/// The artist shown for a track, empty where the report named none.
pub fn get_song_artist(song: &Song) -> (r: &str)
    ensures
        r@ == song_artist(song@),
{
    match &song.artist {
        Some(a) => a.as_str(),
        None => {
            proof {
                reveal_strlit("");
            }
            assert(""@ =~= Seq::<char>::empty());
            ""
        },
    }
}

/// The state line of a presence update: the artist, then the progress in
/// parentheses.
pub fn song_state(song: &Song) -> (r: String)
    requires
        song.wf(),
    ensures
        r@ == state_text(song@),
{
    let mut out = String::new();
    out.append(get_song_artist(song));
    out.append(" (");
    if song.playing {
        let stamp = get_timestamp(song);
        out.append(stamp.as_str());
    } else {
        out.append("paused");
    }
    out.append(")");
    assert(out@ =~= state_text(song@));
    out
}

} // verus!
