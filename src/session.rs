//! The connection to the presence channel, driven one poll at a time.
//!
//! Each poll starts with `start_cycle`, which says what to do with the
//! channel. The caller does it and reports how it went through
//! `after_connect` or `after_push`, which name the next thing to do, until
//! `Action::Wait` ends the poll.

use vstd::prelude::*;
use crate::display::{get_song_name, song_name, song_state, state_text};
use crate::status::{Song, SongView};

verus! {

/// One update of the presence channel.
#[derive(Debug, Clone, PartialEq, Eq)]
pub struct Presence {
    /// The first line shown: the track's name.
    pub details: String,
    /// The second line shown: artist and progress.
    pub state: String,
    /// When the listening session began, in seconds since the epoch.
    pub start: i64,
}

/// Whether `p` is the update that shows `s` for a session begun at `start`.
pub open spec fn shows(p: Presence, s: SongView, start: i64) -> bool {
    p.details@ == song_name(s) && p.state@ == state_text(s) && p.start == start
}

/// What the caller does next with the presence channel.
#[derive(Debug, Clone, PartialEq, Eq)]
pub enum Action {
    /// Open the connection, then report through `after_connect`.
    Connect,
    /// Send this update, then report through `after_push`.
    Push(Presence),
    /// Close the connection; the poll is over.
    Close,
    /// Nothing more to do in this poll.
    Wait,
}

/// Connection state across polls: whether the channel is connected, and since
/// when the current listening session has been shown.
#[derive(Debug, Clone, Copy, PartialEq, Eq)]
pub struct PresenceSession {
    pub connected: bool,
    pub session_start: Option<i64>,
}

/// Disconnected, with no session start.
pub open spec fn disconnected() -> PresenceSession {
    PresenceSession { connected: false, session_start: None }
}

/// The state once a poll begins, with or without a track: without one the
/// session ends.
pub open spec fn started(s: PresenceSession, has_song: bool) -> PresenceSession {
    if has_song {
        s
    } else {
        disconnected()
    }
}

/// The state once a connect attempt made at `now` has succeeded or failed.
pub open spec fn connected_at(s: PresenceSession, ok: bool, now: i64) -> PresenceSession {
    if ok {
        PresenceSession { connected: true, session_start: Some(now) }
    } else {
        s
    }
}

/// The state once a push has succeeded or failed.
pub open spec fn pushed(s: PresenceSession, ok: bool) -> PresenceSession {
    if ok {
        s
    } else {
        disconnected()
    }
}

/// Whether beginning a poll closes the channel: it was connected and no
/// track is reported.
pub open spec fn closes(s: PresenceSession, has_song: bool) -> bool {
    s.connected && !has_song
}

/// A session that ends because nothing plays is not resumed: after a
/// connected poll at `t1` and a poll without a track, which closes the
/// channel, the next successful connect at `t3` begins a new session
/// anchored at `t3`.
pub proof fn closed_session_begins_anew(s: PresenceSession, t1: i64, t3: i64)
    requires
        s.wf(),
        !s.connected,
        t1 <= t3,
    ensures
        ({
            let s1 = pushed(connected_at(started(s, true), true, t1), true);
            let s2 = started(s1, false);
            let s3 = connected_at(started(s2, true), true, t3);
            &&& s1.connected && s1.session_start == Some(t1)
            &&& closes(s1, false)
            &&& !s2.connected && s2.session_start is None
            &&& s3.connected && s3.session_start == Some(t3)
            &&& s3.session_start->0 >= s1.session_start->0
        }),
{
}

impl PresenceSession {
    /// A session start is recorded exactly while the channel is connected.
    pub open spec fn wf(&self) -> bool {
        self.connected == (self.session_start is Some)
    }

    /// Disconnected, with no session start.
    pub fn new() -> (r: PresenceSession)
        ensures
            r.wf(),
            !r.connected,
            r.session_start is None,
    {
        PresenceSession { connected: false, session_start: None }
    }

    /// The update that shows `song` for a session begun at `start`.
    pub fn presence_for(song: &Song, start: i64) -> (p: Presence)
        requires
            song.wf(),
        ensures
            shows(p, song@, start),
    {
        let details = get_song_name(song).to_owned();
        let state = song_state(song);
        Presence { details, state, start }
    }

    /// Begins a poll with what the player reported. With a track: push an
    /// update while connected, else try to connect. Without one: a connected
    /// channel is closed and the session ends; a disconnected one is left be.
    pub fn start_cycle(&mut self, song: &Option<Song>) -> (a: Action)
        requires
            old(self).wf(),
            song is Some ==> song->0.wf(),
        ensures
            final(self).wf(),
            *final(self) == started(*old(self), song is Some),
            (a is Close) == closes(*old(self), song is Some),
            match song {
                Some(s) => *final(self) == *old(self) && if old(self).connected {
                    a is Push && shows(a->Push_0, s@, old(self).session_start->0)
                } else {
                    a is Connect
                },
                None => !final(self).connected && final(self).session_start is None && if old(
                    self,
                ).connected {
                    a is Close
                } else {
                    a is Wait
                },
            },
    {
        match song {
            Some(s) => {
                if self.connected {
                    let start = match self.session_start {
                        Some(t) => t,
                        None => 0,
                    };
                    Action::Push(PresenceSession::presence_for(s, start))
                } else {
                    Action::Connect
                }
            },
            None => {
                let was_connected = self.connected;
                self.connected = false;
                self.session_start = None;
                if was_connected {
                    Action::Close
                } else {
                    Action::Wait
                }
            },
        }
    }

    /// Takes the outcome of a connect attempt made at time `now`. On success
    /// the session begins at `now` and the update for `song` is pushed; on
    /// failure the poll ends, still disconnected.
    pub fn after_connect(&mut self, ok: bool, now: i64, song: &Song) -> (a: Action)
        requires
            old(self).wf(),
            !old(self).connected,
            song.wf(),
        ensures
            final(self).wf(),
            *final(self) == connected_at(*old(self), ok, now),
            ok ==> final(self).connected && final(self).session_start == Some(now) && a is Push
                && shows(a->Push_0, song@, now),
            !ok ==> *final(self) == *old(self) && a is Wait,
    {
        if ok {
            self.connected = true;
            self.session_start = Some(now);
            Action::Push(PresenceSession::presence_for(song, now))
        } else {
            Action::Wait
        }
    }

    /// Takes the outcome of a push. A failed push drops the connection and
    /// ends the session; no new connection is tried before the next poll.
    pub fn after_push(&mut self, ok: bool) -> (a: Action)
        requires
            old(self).wf(),
            old(self).connected,
        ensures
            final(self).wf(),
            *final(self) == pushed(*old(self), ok),
            a is Wait,
            ok ==> *final(self) == *old(self),
            !ok ==> !final(self).connected && final(self).session_start is None,
    {
        if !ok {
            self.connected = false;
            self.session_start = None;
        }
        Action::Wait
    }
}

} // verus!
