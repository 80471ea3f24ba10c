//! Audio sessions, media sessions, and the state the overlay is sent on
//! every poll.
//!
//! Peak meter readings are carried as the IEEE-754 bit patterns of the
//! `f32` readings ("peak bits"). Meter readings are never negative, and for
//! non-negative values the order of the bit patterns is the numeric order, so
//! every comparison of readings is a comparison of their bit patterns.

pub mod engine;
pub mod gsmtc;
pub mod linux_mpris;
pub mod schedule;
pub mod state;
pub mod wasapi;

pub use engine::AudioEngine;
pub use state::AudioState;
