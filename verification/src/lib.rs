//! A focus-tracking core: a Pomodoro-style session engine, a music playback
//! engine, and a coordinator that ducks music volume while an alarm sounds.
//!
//! The engines are pure state machines over plain values: the host hands in
//! timestamps, calendar dates, scanned track lists and sink observations, and
//! executes the audio commands the engines hand back.

pub mod app;
pub mod config;
pub mod coordinator;
pub mod help;
pub mod persist;
pub mod summary;
pub mod text;
pub mod timer;
pub mod track_list;
