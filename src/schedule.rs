//! The decisions of a scheduled flush: when the next flush is due and
//! whether a tick of the timer flushes. The timer itself, which sleeps and
//! calls the flush, runs outside the library and asks these functions.
use vstd::prelude::*;

verus! {

/// The state of one scheduled flush: its period, when the next flush is
/// due, and whether it was cancelled. Times are in milliseconds on a clock
/// of the caller's choosing.
#[derive(Clone, Copy, Debug, PartialEq, Eq, Structural)]
pub struct ScheduleFlushHandle {
    pub period: u64,
    pub next_due: u64,
    pub cancelled: bool,
}

/// The state after a tick at `now`, and whether that tick flushes. A
/// cancelled schedule never flushes again and does not change. A live one
/// flushes once its due time is reached; the next due time is one period
/// later, or one period after `now` when the timer fell behind by a whole
/// period or more.
pub open spec fn tick(s: ScheduleFlushHandle, now: u64) -> (bool, ScheduleFlushHandle) {
    if s.cancelled || now < s.next_due {
        (false, s)
    } else {
        let next = s.next_due.saturating_add(s.period);
        let next = if next <= now { now.saturating_add(s.period) } else { next };
        (true, ScheduleFlushHandle { next_due: next, ..s })
    }
}

/// Whether any of the ticks at `times`, in turn, flushes.
pub open spec fn fires_any(s: ScheduleFlushHandle, times: Seq<u64>) -> bool
    decreases times.len(),
{
    if times.len() == 0 {
        false
    } else {
        tick(s, times[0]).0 || fires_any(tick(s, times[0]).1, times.drop_first())
    }
}

/// The schedule after a cancellation.
pub open spec fn cancelled(s: ScheduleFlushHandle) -> ScheduleFlushHandle {
    ScheduleFlushHandle { cancelled: true, ..s }
}

/// Once cancelled, a schedule flushes at no later tick, whenever the ticks
/// come; and cancelling again changes nothing.
pub proof fn cancel_stops_flushes(s: ScheduleFlushHandle, times: Seq<u64>)
    ensures
        !fires_any(cancelled(s), times),
        cancelled(cancelled(s)) == cancelled(s),
    decreases times.len(),
{
    if times.len() > 0 {
        cancel_stops_flushes(s, times.drop_first());
    }
}

impl ScheduleFlushHandle {
    /// A schedule started at `now` that flushes every `period`, first one
    /// full period after `now`.
    pub fn new(now: u64, period: u64) -> (r: ScheduleFlushHandle)
        requires
            period > 0,
        ensures
            r.period == period,
            r.next_due == now.saturating_add(period),
            !r.cancelled,
    {
        ScheduleFlushHandle { period, next_due: now.saturating_add(period), cancelled: false }
    }

    /// Decides whether the tick at `now` flushes, and moves the due time.
    pub fn on_tick(&mut self, now: u64) -> (r: bool)
        ensures
            (r, *final(self)) == tick(*old(self), now),
    {
        if self.cancelled || now < self.next_due {
            return false;
        }
        let next = self.next_due.saturating_add(self.period);
        self.next_due = if next <= now { now.saturating_add(self.period) } else { next };
        true
    }

    /// How long the timer may sleep from `now` before its next tick, or
    /// `None` once cancelled, when the timer is to stop.
    pub fn wait_from(&self, now: u64) -> (r: Option<u64>)
        ensures
            self.cancelled ==> r is None,
            !self.cancelled && now < self.next_due ==> r == Some((self.next_due - now) as u64),
            !self.cancelled && now >= self.next_due ==> r == Some(0u64),
    {
        if self.cancelled {
            None
        } else if now < self.next_due {
            Some(self.next_due - now)
        } else {
            Some(0)
        }
    }

    /// Stops the schedule: no tick flushes after this returns. Cancelling
    /// more than once is harmless.
    pub fn cancel(&mut self)
        ensures
            *final(self) == cancelled(*old(self)),
    {
        self.cancelled = true;
    }

    /// Whether the schedule was cancelled.
    pub fn is_cancelled(&self) -> (r: bool)
        ensures
            r == self.cancelled,
    {
        self.cancelled
    }
}

} // verus!
