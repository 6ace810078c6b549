//! Turns the recorded MIDI rows of the latest playing session into one track
//! of timed events: minute buckets are segmented into sessions, raw blobs are
//! framed and decoded, and each message is placed at its tick.

pub mod error;
pub mod session;
pub mod time;
pub mod timeline;
pub mod wire;
