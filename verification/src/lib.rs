//! Verified core of a Discord sound-board bot: command argument handling,
//! sound-file naming, the sound list, reaction shortcuts, the "bounce"
//! command plans and the voice-channel watchdog.
//!
//! Everything that talks to Discord, the voice gateway, the file system or
//! the clock lives in the application around this crate; the functions here
//! compute what that application should do next.

pub mod args;
pub mod bounce;
pub mod config;
pub mod events;
pub mod manage;
pub mod number;
pub mod player;
pub mod reaction;
pub mod sounds;
pub mod text;
pub mod watch;
