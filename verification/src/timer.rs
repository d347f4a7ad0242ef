//! Countdown timers, as `rusty_time::Timer` keeps them, and the contracts under
//! which the rest of the library uses them.
//!
//! A timer is opaque to the verifier. Its state is named by three
//! uninterpreted functions, and each trusted item below says how one method of
//! the timer reads or changes that state. Nothing in this file is proved; the
//! game rules built on it are.

use vstd::prelude::*;
use rusty_time::Timer;
use std::time::Duration;

verus! {

/// The outside timer type, carried through as an opaque value.
#[verifier::external_type_specification]
#[verifier::external_body]
pub struct ExTimer(Timer);

/// The length of a `Duration`, in whole nanoseconds.
pub uninterp spec fn duration_nanos(d: Duration) -> nat;

/// The full period of a timer, in nanoseconds.
pub uninterp spec fn timer_duration(t: Timer) -> nat;

/// The time left on a timer, in nanoseconds.
pub uninterp spec fn timer_remaining(t: Timer) -> nat;

/// Whether a timer has been seen to reach zero.
pub uninterp spec fn timer_finished(t: Timer) -> bool;

/// What a countdown timer holds, as plain values.
pub struct TimerState {
    /// Full period, in nanoseconds.
    pub duration: nat,
    /// Time left, in nanoseconds.
    pub remaining: nat,
    /// Set once the time left was found to be zero.
    pub finished: bool,
}

impl TimerState {
    /// A timer just started with the given period.
    pub open spec fn fresh(duration: nat) -> TimerState {
        TimerState { duration, remaining: duration, finished: false }
    }

    /// The state after `delta` nanoseconds have passed. A finished timer stays
    /// as it is; a running one loses `delta`, stopping at zero, and is finished
    /// when nothing is left.
    pub open spec fn ticked(self, delta: nat) -> TimerState {
        if self.finished {
            self
        } else {
            let left: nat = if self.remaining >= delta {
                (self.remaining - delta) as nat
            } else {
                0
            };
            TimerState { duration: self.duration, remaining: left, finished: left == 0 }
        }
    }

    /// The state after a reset: the full period is left again. Only a timer
    /// whose period is zero and which still had time left counts as finished
    /// right after a reset.
    pub open spec fn restarted(self) -> TimerState {
        TimerState {
            duration: self.duration,
            remaining: self.duration,
            finished: self.duration == 0 && self.remaining != 0,
        }
    }
}

/// The state of a timer.
pub open spec fn timer_state(t: Timer) -> TimerState {
    TimerState {
        duration: timer_duration(t),
        remaining: timer_remaining(t),
        finished: timer_finished(t),
    }
}

/// `Duration::from_millis`: the result lasts exactly `millis` milliseconds.
pub assume_specification[ Duration::from_millis ](millis: u64) -> (d: Duration)
    ensures
        duration_nanos(d) == millis * 1_000_000,
;

/// `Duration::as_nanos`: the whole length in nanoseconds.
pub assume_specification[ Duration::as_nanos ](d: &Duration) -> (n: u128)
    ensures
        n == duration_nanos(*d),
;

/// `Timer::new`: a timer with the given period, all of it left, not finished.
pub assume_specification[ Timer::new ](duration: Duration) -> (t: Timer)
    ensures
        timer_state(t) == TimerState::fresh(duration_nanos(duration)),
;

/// `Timer::finished`: reads the finished flag.
pub assume_specification[ Timer::finished ](t: &Timer) -> (b: bool)
    ensures
        b == timer_finished(*t),
;

/// `Timer::duration`: the timer's full period.
pub assume_specification[ Timer::duration ](t: &Timer) -> (d: Duration)
    ensures
        duration_nanos(d) == timer_duration(*t),
;

/// `Timer::remaining`: the time left on the timer.
pub assume_specification[ Timer::remaining ](t: &Timer) -> (d: Duration)
    ensures
        duration_nanos(d) == timer_remaining(*t),
;

/// `Timer::reset`: the full period is left again; the finished flag is cleared,
/// but for a timer of period zero that still had time left, which the method
/// marks finished.
pub assume_specification[ Timer::reset ](t: &mut Timer)
    ensures
        timer_state(*final(t)) == timer_state(*old(t)).restarted(),
;

/// `Timer::tick`: a finished timer is left alone; a running one loses `delta`,
/// saturating at zero, and becomes finished when it reaches zero.
#[verifier::external_body]
pub(crate) fn tick(t: &mut Timer, delta: Duration)
    ensures
        timer_state(*final(t)) == timer_state(*old(t)).ticked(duration_nanos(delta)),
{
    t.tick(delta);
}

} // verus!
