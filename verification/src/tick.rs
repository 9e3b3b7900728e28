//! The publisher's periodic tick schedule.
//!
//! A tick is due at a fixed deadline; firing a tick moves the deadline one
//! period forward, anchored to the previous deadline rather than to the
//! moment of firing. A tick that is reached late therefore fires at once,
//! missed ticks are fired back-to-back rather than coalesced, and once the
//! schedule is caught up, ticks resume the fixed interval.

use vstd::prelude::*;

verus! {

/// A fixed-interval tick schedule, in milliseconds.
#[derive(Clone, Copy, Debug, PartialEq, Eq, Structural)]
pub struct TickSchedule {
    /// The fixed interval between ticks; always positive.
    pub period_ms: u64,
    /// The instant the next tick is due.
    pub next_deadline_ms: u64,
}

impl TickSchedule {
    /// The schedule's invariant: the interval is positive.
    pub open spec fn wf(self) -> bool {
        0 < self.period_ms
    }

    /// The instant at which a tick fires when the caller reaches the
    /// schedule at `now_ms`: the deadline if the caller is early, the
    /// moment of arrival if the tick is overdue — never skipped.
    pub open spec fn spec_fire_at(self, now_ms: u64) -> u64 {
        if now_ms >= self.next_deadline_ms {
            now_ms
        } else {
            self.next_deadline_ms
        }
    }

    /// The schedule after one tick has fired: the next tick is due one
    /// period after the previous deadline, whenever the tick fired.
    pub open spec fn spec_after_fire(self) -> TickSchedule {
        TickSchedule {
            period_ms: self.period_ms,
            next_deadline_ms: (self.next_deadline_ms + self.period_ms) as u64,
        }
    }

    /// Starts a schedule whose first tick is due at `start_ms`.
    pub fn new(period_ms: u64, start_ms: u64) -> (s: Self)
        requires
            0 < period_ms,
        ensures
            s == (TickSchedule { period_ms, next_deadline_ms: start_ms }),
            s.wf(),
    {
        TickSchedule { period_ms, next_deadline_ms: start_ms }
    }

    /// Fires one tick on reaching the schedule at `now_ms` and returns the
    /// instant the tick fires. The tick never fires before its deadline and
    /// never waits once overdue; the deadline then advances by one period.
    pub fn fire(&mut self, now_ms: u64) -> (fire_at: u64)
        requires
            old(self).wf(),
            old(self).next_deadline_ms + old(self).period_ms <= u64::MAX,
        ensures
            fire_at == old(self).spec_fire_at(now_ms),
            *final(self) == old(self).spec_after_fire(),
            final(self).wf(),
            fire_at >= now_ms,
            fire_at >= old(self).next_deadline_ms,
    {
        let fire_at = if now_ms >= self.next_deadline_ms {
            now_ms
        } else {
            self.next_deadline_ms
        };
        self.next_deadline_ms = self.next_deadline_ms + self.period_ms;
        fire_at
    }
}

/// Skewed tick: when the caller reaches an overdue tick — for instance after
/// a slow sampling call — the tick fires immediately rather than being
/// skipped; the following tick is due one period after the missed deadline,
/// so a delay of more than one full interval makes the next tick fire
/// immediately back-to-back as well, never coalesced into one.
pub proof fn lemma_skewed_tick(s: TickSchedule, now_ms: u64)
    requires
        s.wf(),
        s.next_deadline_ms + s.period_ms <= u64::MAX,
        now_ms >= s.next_deadline_ms,
    ensures
        s.spec_fire_at(now_ms) == now_ms,
        s.spec_after_fire().next_deadline_ms == s.next_deadline_ms + s.period_ms,
        now_ms >= s.next_deadline_ms + s.period_ms ==> s.spec_after_fire().spec_fire_at(now_ms)
            == now_ms,
{
}

/// After a skewed tick, the schedule resumes the normal interval: two
/// consecutive ticks that are both reached on time fire exactly one period
/// apart.
pub proof fn lemma_ticks_resume_interval(s: TickSchedule, now1_ms: u64, now2_ms: u64)
    requires
        s.wf(),
        s.next_deadline_ms + s.period_ms <= u64::MAX,
        now1_ms <= s.next_deadline_ms,
        now2_ms <= s.spec_after_fire().next_deadline_ms,
    ensures
        s.spec_after_fire().spec_fire_at(now2_ms) - s.spec_fire_at(now1_ms) == s.period_ms,
{
}

} // verus!
