//! Now-playing presence for a terminal music player: reads the player's
//! status report, turns it into a playback snapshot, and decides how a
//! presence channel is connected, updated and closed from one poll to the next.

pub mod text;
pub mod status;
pub mod display;
pub mod session;
pub mod report;
