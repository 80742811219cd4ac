//! The per-target scheduling and timeout core. Instants and durations are
//! nanosecond counts on a monotone clock; the caller reads the clock and
//! passes instants in, so the schedule arithmetic itself is fully specified:
//! a slow call catches up by a bounded number of intervals, and an
//! unscheduled call pushes the next wakeup one full interval past its end.

use vstd::prelude::*;

verus! {

/// One successful call's fully materialised output.
#[derive(Debug, Clone, PartialEq, Eq)]
pub enum ScrapeOk {
    /// An HTTP response: its status code and its whole body.
    HttpResponse { status: u16, body: Vec<u8> },
    /// A finished subprocess: its exit code and captured output streams.
    CommandResponse { exit_code: i32, stdout: Vec<u8>, stderr: Vec<u8> },
}

/// Why a call produced no output.
#[derive(Debug, Clone, PartialEq, Eq)]
pub enum ScrapeErr {
    /// A protocol- or transport-level HTTP failure.
    Http { message: Vec<u8> },
    /// An OS-level failure, such as a subprocess that could not be spawned.
    Io { message: Vec<u8> },
    /// The per-call deadline passed first.
    Timeout,
    /// The cancel signal fired first.
    Cancelled,
}

/// What one call to a scrape target produces.
pub type ScrapeResult = Result<ScrapeOk, ScrapeErr>;

/// Where the schedule moves to after a scheduled call completes at `now`:
/// unchanged while the call finished early, otherwise forward by
/// `floor((now - wakeup) / interval) + 1` intervals.
pub open spec fn advance_spec(wakeup: int, interval: int, now: int) -> int {
    if now < wakeup {
        wakeup
    } else {
        wakeup + ((now - wakeup) / interval + 1) * interval
    }
}

/// Per-target schedule state: the next wakeup instant and the fixed interval
/// between scheduled calls, in nanoseconds. The wakeup instant never moves
/// backwards.
pub struct SchedulerCell {
    wakeup: u64,
    interval: u64,
}

impl SchedulerCell {
    /// The next instant a scheduled call is due.
    pub closed spec fn spec_wakeup(&self) -> u64 {
        self.wakeup
    }

    /// The fixed interval between scheduled calls.
    pub closed spec fn spec_interval(&self) -> u64 {
        self.interval
    }

    pub open spec fn wf(&self) -> bool {
        self.spec_interval() > 0
    }

    /// Whether a scheduled call is due at `now`.
    pub open spec fn spec_is_due(&self, now: u64) -> bool {
        now >= self.spec_wakeup()
    }

    /// A fresh schedule: the first scheduled call is due immediately.
    pub fn new(now: u64, interval: u64) -> (r: SchedulerCell)
        requires
            interval > 0,
        ensures
            r.wf(),
            r.spec_wakeup() == now,
            r.spec_interval() == interval,
    {
        SchedulerCell { wakeup: now, interval }
    }

    pub fn wakeup(&self) -> (r: u64)
        ensures
            r == self.spec_wakeup(),
    {
        self.wakeup
    }

    pub fn interval(&self) -> (r: u64)
        ensures
            r == self.spec_interval(),
    {
        self.interval
    }

    /// Whether a scheduled call is due at `now`.
    pub fn is_due(&self, now: u64) -> (r: bool)
        ensures
            r == self.spec_is_due(now),
    {
        now >= self.wakeup
    }

    /// After a scheduled call completes at `now`: move the wakeup to the
    /// first schedule point strictly after `now`. A call that finished
    /// before its own wakeup leaves the schedule unchanged; one that overran
    /// skips exactly the missed ticks, so the cadence catches up without a
    /// burst of back-to-back calls.
    pub fn set_next_wake_up_time(&mut self, now: u64)
        requires
            old(self).wf(),
            now <= u64::MAX - old(self).spec_interval(),
        ensures
            final(self).wf(),
            final(self).spec_interval() == old(self).spec_interval(),
            final(self).spec_wakeup() as int == advance_spec(
                old(self).spec_wakeup() as int,
                old(self).spec_interval() as int,
                now as int,
            ),
            final(self).spec_wakeup() >= old(self).spec_wakeup(),
            now >= old(self).spec_wakeup() ==> now < final(self).spec_wakeup()
                <= now + old(self).spec_interval(),
            now < old(self).spec_wakeup() ==> final(self).spec_wakeup()
                == old(self).spec_wakeup(),
    {
        if now < self.wakeup {
            return ;
        }
        let delta = now - self.wakeup;
        let ghost ival = self.interval as int;
        let f = delta / self.interval + 1;
        proof {
            vstd::arithmetic::div_mod::lemma_fundamental_div_mod(delta as int, ival);
            vstd::arithmetic::div_mod::lemma_mod_division_less_than_divisor(delta as int, ival);
            vstd::arithmetic::div_mod::lemma_div_pos_is_pos(delta as int, ival);
            let q = delta as int / ival;
            assert(ival * (q + 1) == ival * q + ival) by (nonlinear_arith);
            assert((q + 1) * ival == ival * (q + 1)) by (nonlinear_arith);
            assert(ival * q == q * ival) by (nonlinear_arith);
            assert(ival * q <= delta as int);
            assert(ival * q + ival > delta as int);
            assert(f as int == q + 1);
            assert(ival * (f as int) <= delta as int + ival);
        }
        let step = self.interval * f;
        self.wakeup = self.wakeup + step;
    }

    /// After an unscheduled call completes at `now`: restart the schedule so
    /// the next scheduled call is due one full interval from `now`.
    pub fn reset_interval(&mut self, now: u64)
        requires
            old(self).wf(),
            now <= u64::MAX - old(self).spec_interval(),
        ensures
            final(self).wf(),
            final(self).spec_interval() == old(self).spec_interval(),
            final(self).spec_wakeup() == now + old(self).spec_interval(),
    {
        self.wakeup = now;
        proof {
            vstd::arithmetic::div_mod::lemma_div_of0(self.interval as int);
            assert((0int / (self.interval as int) + 1) * (self.interval as int)
                == self.interval as int) by (nonlinear_arith)
                requires 0int / (self.interval as int) == 0;
        }
        self.set_next_wake_up_time(now);
    }

    /// The scheduled handle's decision at instant `now`: run the action when
    /// the schedule is due, otherwise sleep until the wakeup and try again.
    pub fn scheduled_step(&self, now: u64) -> (r: ScheduledStep)
        ensures
            self.spec_is_due(now) ==> r == ScheduledStep::Run,
            !self.spec_is_due(now) ==> r == (ScheduledStep::Sleep { until: self.spec_wakeup() }),
    {
        if self.is_due(now) {
            ScheduledStep::Run
        } else {
            ScheduledStep::Sleep { until: self.wakeup }
        }
    }
}

/// What the scheduled handle does next.
#[derive(Debug, Clone, Copy, PartialEq, Eq)]
pub enum ScheduledStep {
    /// The schedule is due: run the action under the cell's lock, then
    /// advance the schedule.
    Run,
    /// Not due yet: sleep until this instant (or until cancelled), then look
    /// again.
    Sleep { until: u64 },
}

/// Which of the three raced sources resolved first in the timeout wrapper.
pub enum RaceWinner {
    /// The wrapped action finished.
    Inner(ScrapeResult),
    /// The per-call deadline passed.
    Deadline,
    /// The cancel signal fired.
    Cancel,
}

/// The timeout wrapper's outcome: an inner result passes through unchanged, a
/// deadline win becomes `Timeout`, a cancel win becomes `Cancelled`.
pub fn timeout_outcome(w: RaceWinner) -> (r: ScrapeResult)
    ensures
        w matches RaceWinner::Inner(res) ==> r == res,
        w is Deadline ==> r == Result::<ScrapeOk, ScrapeErr>::Err(ScrapeErr::Timeout),
        w is Cancel ==> r == Result::<ScrapeOk, ScrapeErr>::Err(ScrapeErr::Cancelled),
{
    match w {
        RaceWinner::Inner(res) => res,
        RaceWinner::Deadline => Err(ScrapeErr::Timeout),
        RaceWinner::Cancel => Err(ScrapeErr::Cancelled),
    }
}

/// Law (catch-up): when a scheduled call completes `k` intervals late — at an
/// instant in `[wakeup + k*interval, wakeup + (k+1)*interval)` — the wakeup
/// advances by exactly `k + 1` intervals: one skipped tick per overrun
/// interval, never a burst and never a runaway.
pub proof fn lemma_catch_up(wakeup: int, interval: int, now: int, k: int)
    requires
        interval > 0,
        k >= 0,
        wakeup + k * interval <= now < wakeup + (k + 1) * interval,
    ensures
        advance_spec(wakeup, interval, now) == wakeup + (k + 1) * interval,
{
    let delta = now - wakeup;
    assert(k * interval >= 0) by (nonlinear_arith)
        requires k >= 0, interval > 0;
    assert((k + 1) * interval == k * interval + interval) by (nonlinear_arith);
    assert(0 <= delta - k * interval < interval);
    vstd::arithmetic::div_mod::lemma_fundamental_div_mod_converse(
        delta, interval, k, delta - k * interval,
    );
    assert(delta / interval == k);
}

/// Law (reset defers): after an unscheduled call completes at instant `t`,
/// the schedule's wakeup is `t + interval`, so no scheduled call is due — and
/// none starts — before `t + interval`.
pub proof fn lemma_reset_defers(c: &SchedulerCell, t: u64, now: u64)
    requires
        c.wf(),
        c.spec_wakeup() as int == t + c.spec_interval(),
        (now as int) < t + c.spec_interval(),
    ensures
        !c.spec_is_due(now),
{
}

} // verus!
