//! Timers that gate the steps which are not made on every tick.

use vstd::prelude::*;

verus! {

/// Counts time toward a step that is due once in every `interval`
/// milliseconds; `elapsed` is the time since it was last due.
#[derive(Clone, Copy, Debug, PartialEq, Eq, Structural)]
pub struct Countdown {
    pub interval: u32,
    pub elapsed: u32,
}

impl Countdown {
    /// The interval is not nought, and less than one interval has elapsed.
    pub open spec fn wf(self) -> bool {
        0 < self.interval && self.elapsed < self.interval
    }

    /// The step is due within the next `dt` milliseconds.
    pub open spec fn fires(self, dt: u32) -> bool {
        self.elapsed + dt >= self.interval
    }

    /// The countdown `dt` milliseconds later: once the step is due it starts
    /// again, keeping the time that ran over.
    pub open spec fn ticked(self, dt: u32) -> Countdown {
        Countdown {
            interval: self.interval,
            elapsed: if self.fires(dt) {
                ((self.elapsed + dt) % (self.interval as int)) as u32
            } else {
                (self.elapsed + dt) as u32
            },
        }
    }

    /// The countdown after `ticks` ticks of `dt` milliseconds each.
    pub open spec fn after_ticks(self, dt: u32, ticks: nat) -> Countdown
        decreases ticks,
    {
        if ticks == 0 {
            self
        } else {
            self.after_ticks(dt, (ticks - 1) as nat).ticked(dt)
        }
    }

    /// How often the step was due in `ticks` ticks of `dt` milliseconds each.
    pub open spec fn fired_in(self, dt: u32, ticks: nat) -> nat
        decreases ticks,
    {
        if ticks == 0 {
            0
        } else {
            let before = self.fired_in(dt, (ticks - 1) as nat);
            if self.after_ticks(dt, (ticks - 1) as nat).fires(dt) {
                before + 1
            } else {
                before
            }
        }
    }

    /// Decides `wf`.
    pub fn is_wf(&self) -> (out: bool)
        ensures
            out == self.wf(),
    {
        0 < self.interval && self.elapsed < self.interval
    }

    /// A countdown that starts now; `None` for an interval of nought.
    pub fn every(interval: u32) -> (out: Option<Countdown>)
        ensures
            interval == 0 ==> out.is_none(),
            interval > 0 ==> out == Some(Countdown { interval, elapsed: 0 }) && out.unwrap().wf(),
    {
        if interval == 0 {
            None
        } else {
            Some(Countdown { interval, elapsed: 0 })
        }
    }

    /// Lets `dt` milliseconds pass and says whether the step is due. It is
    /// due at most once in a tick, however long the tick.
    pub fn tick(&mut self, dt: u32) -> (fired: bool)
        requires
            old(self).wf(),
        ensures
            fired == old(self).fires(dt),
            *final(self) == old(self).ticked(dt),
            final(self).wf(),
    {
        let total: u64 = self.elapsed as u64 + dt as u64;
        if total >= self.interval as u64 {
            self.elapsed = (total % self.interval as u64) as u32;
            true
        } else {
            self.elapsed = total as u32;
            false
        }
    }
}

/// A step is never due more often than whole intervals have passed: after
/// `ticks` ticks of `dt` milliseconds the intervals it was due for, and the
/// time counted since, fit into `ticks * dt`.
pub proof fn countdown_keeps_time(interval: u32, dt: u32, ticks: nat)
    requires
        0 < interval,
    ensures
        ({
            let begin = Countdown { interval, elapsed: 0 };
            let end = begin.after_ticks(dt, ticks);
            &&& end.interval == interval
            &&& end.elapsed < interval
            &&& begin.fired_in(dt, ticks) * interval + end.elapsed <= ticks * dt
        }),
    decreases ticks,
{
    if ticks > 0 {
        let begin = Countdown { interval, elapsed: 0 };
        countdown_keeps_time(interval, dt, (ticks - 1) as nat);
        let before = begin.after_ticks(dt, (ticks - 1) as nat);
        let fired = begin.fired_in(dt, (ticks - 1) as nat);
        assert(ticks * dt == (ticks - 1) * dt + dt) by (nonlinear_arith);
        assert((fired + 1) * interval == fired * interval + interval) by (nonlinear_arith);
        assert(begin.after_ticks(dt, ticks) == before.ticked(dt));
        assert(begin.fired_in(dt, ticks) == if before.fires(dt) {
            fired + 1
        } else {
            fired
        });
        if before.fires(dt) {
            let total = before.elapsed + dt;
            vstd::arithmetic::div_mod::lemma_fundamental_div_mod(total, interval as int);
            vstd::arithmetic::div_mod::lemma_mod_bound(total, interval as int);
            assert(total / (interval as int) >= 1) by (nonlinear_arith)
                requires
                    total >= interval,
                    interval > 0,
                    total == interval * (total / (interval as int)) + total % (interval as int),
                    0 <= total % (interval as int) < interval,
            ;
            assert(total % (interval as int) + interval <= total) by (nonlinear_arith)
                requires
                    total / (interval as int) >= 1,
                    interval > 0,
                    total == interval * (total / (interval as int)) + total % (interval as int),
            ;
            assert(before.ticked(dt).elapsed == total % (interval as int));
            assert(begin.fired_in(dt, ticks) * interval == fired * interval + interval);
        }
    } else {
        assert(ticks * dt == 0) by (nonlinear_arith)
            requires
                ticks == 0,
        ;
        assert(0 * interval == 0);
    }
}

} // verus!
