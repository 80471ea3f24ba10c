//! The audio engine's run flag and its polling schedule.

use std::sync::Arc;
use std::sync::atomic::AtomicBool;
use vstd::prelude::*;

verus! {

/// Milliseconds between two polls (about 30 polls per second).
pub const POLL_INTERVAL_MS: u64 = 33;

/// Every this many polls the overlay is put on top again (about every two
/// seconds).
pub const TOPMOST_PERIOD: u32 = 60;

/// Every this many polls the media session is read again.
pub const MEDIA_PERIOD: u32 = 6;

/// The engine that polls audio and media state in the background until it
/// is stopped.
pub struct AudioEngine {
    running: Arc<AtomicBool>,
}

/// Clones the shared run flag.
///
/// Trusted: `Arc::clone` returns a handle to the same allocation, so the
/// clone is the very flag the engine holds.
#[verifier::external_body]
fn share_flag(flag: &Arc<AtomicBool>) -> (res: Arc<AtomicBool>)
    ensures
        res == *flag,
{
    Arc::clone(flag)
}

impl AudioEngine {
    /// The engine's run flag.
    pub closed spec fn flag(&self) -> Arc<AtomicBool> {
        self.running
    }

    /// An engine whose run flag is set.
    pub fn new() -> (res: Self) {
        AudioEngine { running: Arc::new(AtomicBool::new(true)) }
    }

    /// The run flag that the polling loop watches; it is the engine's own
    /// flag, shared.
    pub fn running_flag(&self) -> (res: Arc<AtomicBool>)
        ensures
            res == self.flag(),
    {
        share_flag(&self.running)
    }

    /// Clears the run flag; the polling loop ends before its next poll.
    pub fn stop(&self) {
        self.running.store(false, std::sync::atomic::Ordering::Relaxed);
    }
}

} // verus!
