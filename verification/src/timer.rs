//! A reusable start/stop/reset countdown, counting in whole milliseconds.
//!
//! One instance drives the global hazard spawn cadence; every hazard owns a
//! second instance as its despawn grace period.  Done-ness is an exact-zero
//! check on `time_left`, which is sound here because `update` clamps at zero.

use vstd::prelude::*;

verus! {

/// Countdown over integer milliseconds.  `update` is a no-op unless
/// `started`; on reaching zero it stops itself.
#[derive(Clone, Copy, Debug, PartialEq, Eq, Structural)]
pub struct Timer {
    pub duration: i64,
    pub started: bool,
    pub time_left: i64,
}

/// The timer invariant: the countdown never leaves `[0, duration]`.
pub open spec fn timer_inv(t: Timer) -> bool {
    0 <= t.time_left <= t.duration
}

/// What one `update(dt)` call does: no-op when stopped, otherwise count
/// down, clamp at zero, and stop exactly when zero is reached.
pub open spec fn spec_timer_update(t: Timer, dt: i64) -> Timer {
    if !t.started {
        t
    } else if t.time_left > dt {
        Timer { duration: t.duration, started: true, time_left: (t.time_left - dt) as i64 }
    } else {
        Timer { duration: t.duration, started: false, time_left: 0 }
    }
}

impl Timer {
    /// A fresh timer holds its full duration and is not running.
    pub fn new(duration: i64) -> (t: Timer)
        ensures
            t == (Timer { duration: duration, started: false, time_left: duration }),
            duration >= 0 ==> timer_inv(t),
    {
        Timer { time_left: duration, started: false, duration: duration }
    }

    /// Count down by `dt` milliseconds; stops itself on reaching zero.
    pub fn update(&mut self, dt: i64)
        requires
            dt >= 0,
        ensures
            *final(self) == spec_timer_update(*old(self), dt),
    {
        if !self.started {
            return;
        }
        if self.time_left > dt {
            self.time_left = self.time_left - dt;
        } else {
            self.time_left = 0;
        }
        if self.is_done() {
            self.started = false;
        }
    }

    /// Done exactly when the countdown stands at zero.
    pub fn is_done(&mut self) -> (r: bool)
        ensures
            *final(self) == *old(self),
            r == (old(self).time_left == 0),
    {
        return self.time_left == 0;
    }

    pub fn is_started(&mut self) -> (r: bool)
        ensures
            *final(self) == *old(self),
            r == old(self).started,
    {
        return self.started;
    }

    /// Refill the countdown; whether the timer runs is untouched.
    pub fn reset(&mut self)
        ensures
            *final(self) == (Timer {
                duration: old(self).duration,
                started: old(self).started,
                time_left: old(self).duration,
            }),
    {
        self.time_left = self.duration
    }

    /// Let the countdown run.  The countdown value itself is untouched, so
    /// starting an already-running timer changes nothing.
    pub fn start(&mut self)
        ensures
            *final(self) == (Timer {
                duration: old(self).duration,
                started: true,
                time_left: old(self).time_left,
            }),
    {
        self.started = true;
    }

    pub fn stop(&mut self)
        ensures
            *final(self) == (Timer {
                duration: old(self).duration,
                started: false,
                time_left: old(self).time_left,
            }),
    {
        self.started = false;
    }
}

/// Law: one non-negative `update` keeps the invariant, and the timer is left
/// running exactly when the countdown has not yet reached zero — it stops
/// itself on the very step where `time_left` first becomes zero.
pub proof fn lemma_timer_update_invariant(t: Timer, dt: i64)
    requires
        timer_inv(t),
        dt >= 0,
    ensures
        timer_inv(spec_timer_update(t, dt)),
        spec_timer_update(t, dt).started == (t.started && spec_timer_update(t, dt).time_left != 0),
        t.started ==> ((spec_timer_update(t, dt).time_left == 0) <==> t.time_left <= dt),
{
}

/// The timer after a whole sequence of `update` calls.
pub open spec fn apply_updates(t: Timer, dts: Seq<i64>) -> Timer
    decreases dts.len(),
{
    if dts.len() == 0 {
        t
    } else {
        apply_updates(spec_timer_update(t, dts[0]), dts.drop_first())
    }
}

/// Law: under every sequence of `update(dt)` calls with `dt >= 0`, the
/// countdown stays within `[0, duration]`.
pub proof fn lemma_timer_invariant_sequence(t: Timer, dts: Seq<i64>)
    requires
        timer_inv(t),
        forall|i: int| 0 <= i < dts.len() ==> dts[i] >= 0,
    ensures
        timer_inv(apply_updates(t, dts)),
    decreases dts.len(),
{
    if dts.len() > 0 {
        lemma_timer_update_invariant(t, dts[0]);
        let rest = dts.drop_first();
        assert(forall|i: int| 0 <= i < rest.len() ==> rest[i] == dts[i + 1]);
        lemma_timer_invariant_sequence(spec_timer_update(t, dts[0]), rest);
    }
}

/// Law: starting an already-started timer is the identity; in particular it
/// does not change `time_left`.
pub proof fn lemma_start_idempotent(t: Timer)
    requires
        t.started,
    ensures
        (Timer { duration: t.duration, started: true, time_left: t.time_left }) == t,
{
}

} // verus!
