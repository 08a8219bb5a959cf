//! Click-track building blocks: time signatures and sections, profiles,
//! projects of sections, the MIDI event track of a project, the lines of the
//! beat display, playback key handling and tap-tempo bookkeeping.
mod text;
pub mod section;
pub mod config;
pub mod visuals;
pub mod project;
pub mod midi;
pub mod play;
pub mod tap;
