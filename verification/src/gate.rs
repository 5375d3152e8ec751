//! The quota gate: a single-stream pacing primitive that grants at most one
//! operation per fixed interval.
//!
//! A gate tracks the earliest instant (in milliseconds of an arbitrary
//! monotonic clock) at which the next slot opens. `check` either lets the
//! caller proceed now, advancing that instant by one interval, or tells the
//! caller how long to wait, leaving the state unchanged. The clock is
//! supplied by the caller, so a gate can be driven by a real clock or a
//! test clock alike.

use vstd::prelude::*;

verus! {

/// The outcome of one gate check: go now, or wait this many milliseconds and
/// try again.
#[derive(Clone, Copy, Debug, PartialEq, Eq, Structural)]
pub enum Admission {
    Proceed,
    Wait(u64),
}

/// Whether a gate whose next open instant is `next` grants a call at instant
/// `now`.
pub open spec fn grants(next: int, now: int) -> bool {
    next <= now
}

/// The next open instant after one gate check at `now` on a gate with the
/// given interval and next open instant. A granted call books the full
/// interval from `now`; a refused call changes nothing, so unused time is
/// never banked.
pub open spec fn next_after(interval: int, next: int, now: int) -> int {
    if grants(next, now) {
        now + interval
    } else {
        next
    }
}

/// How long a call at `now` must wait when it is not granted.
pub open spec fn wait_time(next: int, now: int) -> int {
    next - now
}

pub struct Gate {
    interval_ms: u64,
    next_ms: u64,
}

impl Gate {
    /// The fixed interval between slots, in milliseconds.
    pub closed spec fn interval(self) -> u64 {
        self.interval_ms
    }

    /// The earliest instant at which the next slot opens.
    pub closed spec fn next(self) -> u64 {
        self.next_ms
    }

    pub open spec fn wf(self) -> bool {
        self.interval() > 0
    }

    pub fn new(interval_ms: u64) -> (g: Gate)
        requires
            interval_ms > 0,
        ensures
            g.wf(),
            g.interval() == interval_ms,
            g.next() == 0,
    {
        Gate { interval_ms, next_ms: 0 }
    }

    /// One gate check at instant `now_ms`: proceed and advance the next open
    /// instant by one interval, or report the wait time and leave the state
    /// unchanged. Never errors.
    pub fn check(&mut self, now_ms: u64) -> (a: Admission)
        requires
            old(self).wf(),
            now_ms + old(self).interval() <= u64::MAX,
        ensures
            final(self).wf(),
            final(self).interval() == old(self).interval(),
            final(self).next() == next_after(
                old(self).interval() as int,
                old(self).next() as int,
                now_ms as int,
            ),
            grants(old(self).next() as int, now_ms as int) ==> a == Admission::Proceed,
            !grants(old(self).next() as int, now_ms as int) ==> a == Admission::Wait(
                wait_time(old(self).next() as int, now_ms as int) as u64,
            ),
    {
        if self.next_ms <= now_ms {
            self.next_ms = now_ms + self.interval_ms;
            Admission::Proceed
        } else {
            Admission::Wait(self.next_ms - now_ms)
        }
    }
}

/// The next open instant after a whole sequence of gate checks at the
/// instants `ts`, in order.
pub open spec fn next_after_calls(interval: int, next: int, ts: Seq<int>) -> int
    decreases ts.len(),
{
    if ts.len() == 0 {
        next
    } else {
        next_after_calls(interval, next_after(interval, next, ts[0]), ts.drop_first())
    }
}

/// One gate check never moves the next open instant backwards.
pub proof fn lemma_next_monotonic(interval: int, next: int, now: int)
    requires
        interval > 0,
    ensures
        next_after(interval, next, now) >= next,
{
}

/// A sequence of gate checks never moves the next open instant backwards.
pub proof fn lemma_next_monotonic_calls(interval: int, next: int, ts: Seq<int>)
    requires
        interval > 0,
    ensures
        next_after_calls(interval, next, ts) >= next,
    decreases ts.len(),
{
    if ts.len() > 0 {
        lemma_next_monotonic(interval, next, ts[0]);
        lemma_next_monotonic_calls(interval, next_after(interval, next, ts[0]), ts.drop_first());
    }
}

/// Fixed-rate law: a gate never lets two calls through within one interval.
/// If a call at instant `t1` goes through, then whatever gate checks follow
/// at the instants `ts`, a later call that goes through at instant `t2` is at
/// least one interval after `t1` — no matter how the attempts bunch up.
pub proof fn lemma_fixed_rate(interval: int, next: int, t1: int, ts: Seq<int>, t2: int)
    requires
        interval > 0,
        grants(next, t1),
        grants(next_after_calls(interval, next_after(interval, next, t1), ts), t2),
    ensures
        t2 >= t1 + interval,
{
    lemma_next_monotonic_calls(interval, next_after(interval, next, t1), ts);
}

/// Progress law: a refused call that waits out the reported time is granted,
/// so the wait-and-retry loop around a gate always terminates.
pub proof fn lemma_wait_then_granted(interval: int, next: int, now: int)
    requires
        interval > 0,
        !grants(next, now),
    ensures
        grants(next_after(interval, next, now), now + wait_time(next, now)),
{
}

/// Idempotence law: a refused gate check changes nothing, so asking again
/// without any elapsed time is refused again with the very same wait time.
pub proof fn lemma_check_idempotent(interval: int, next: int, now: int)
    requires
        interval > 0,
        !grants(next, now),
    ensures
        next_after(interval, next, now) == next,
        !grants(next_after(interval, next, now), now),
        wait_time(next_after(interval, next, now), now) == wait_time(next, now),
{
}

} // verus!
