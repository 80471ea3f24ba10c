//! The polling schedule: on which polls the overlay is put on top again and
//! the media session is read again.

use vstd::prelude::*;
use crate::audio::engine::{MEDIA_PERIOD, TOPMOST_PERIOD};

verus! {

/// Where the polling loop stands within its two periods.
pub struct PollSchedule {
    topmost_tick: u32,
    media_tick: u32,
}

/// What the polling loop does on one poll besides reading the audio
/// sessions.
#[derive(Clone, Copy, Debug, PartialEq, Eq, Structural)]
pub struct PollStep {
    /// Put the overlay on top of other windows again.
    pub reassert_topmost: bool,
    /// Read the media session again.
    pub refresh_media: bool,
}

/// The phase within a period of the given length one poll later.
pub open spec fn next_phase(phase: nat, period: nat) -> nat {
    (phase + 1) % period
}

impl PollSchedule {
    #[verifier::type_invariant]
    spec fn in_range(self) -> bool {
        self.topmost_tick < TOPMOST_PERIOD && self.media_tick < MEDIA_PERIOD
    }

    /// The position within the topmost period.
    pub closed spec fn topmost_phase(self) -> nat {
        self.topmost_tick as nat
    }

    /// The position within the media period.
    pub closed spec fn media_phase(self) -> nat {
        self.media_tick as nat
    }

    /// The schedule before the first poll.
    pub fn new() -> (res: Self)
        ensures
            res.topmost_phase() == 0,
            res.media_phase() == 0,
    {
        PollSchedule { topmost_tick: 0, media_tick: 0 }
    }

    /// Advances the schedule by one poll and says what this poll does: the
    /// overlay is put on top when the topmost phase comes round to 0; the
    /// media session is read when the media phase comes round to 0, or when
    /// no media session is held.
    pub fn advance(&mut self, has_cached_media: bool) -> (res: PollStep)
        ensures
            final(self).topmost_phase() == next_phase(old(self).topmost_phase(), TOPMOST_PERIOD as nat),
            final(self).media_phase() == next_phase(old(self).media_phase(), MEDIA_PERIOD as nat),
            res.reassert_topmost == (final(self).topmost_phase() == 0),
            res.refresh_media == (final(self).media_phase() == 0 || !has_cached_media),
    {
        proof {
            use_type_invariant(&*self);
        }
        let topmost_tick = (self.topmost_tick + 1) % TOPMOST_PERIOD;
        let media_tick = (self.media_tick + 1) % MEDIA_PERIOD;
        self.topmost_tick = topmost_tick;
        self.media_tick = media_tick;
        PollStep { reassert_topmost: topmost_tick == 0, refresh_media: media_tick == 0 || !has_cached_media }
    }
}

/// The phase within a period of the given length after `steps` polls
/// counted from phase 0, each poll moving it one further round the period.
pub open spec fn phase_after(steps: nat, period: nat) -> nat
    decreases steps,
{
    if steps == 0 {
        0
    } else {
        next_phase(phase_after((steps - 1) as nat, period), period)
    }
}

/// After any number of polls from the start, each phase is the number of
/// polls modulo its period: the overlay is put on top exactly on every 60th
/// poll, and the media session is read at least on every 6th poll.
pub proof fn lemma_phase_counts_polls(steps: nat, period: nat)
    requires
        period > 0,
    ensures
        phase_after(steps, period) == steps % period,
        (phase_after(steps, period) == 0) == (steps % period == 0),
    decreases steps,
{
    if steps > 0 {
        lemma_phase_counts_polls((steps - 1) as nat, period);
        let p = (steps - 1) as nat;
        assert(((p % period) + 1) % period == (p + 1) % period) by {
            vstd::arithmetic::div_mod::lemma_add_mod_noop_right(1, p as int, period as int);
        }
    }
}

} // verus!
