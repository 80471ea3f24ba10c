//! Core logic of an audio and music overlay: configuration, tray menu
//! decisions, overlay placement, audio-session aggregation and the
//! polling schedule of the audio engine.

pub mod text;
pub mod config;
pub mod tray;
pub mod audio;
pub mod window;
