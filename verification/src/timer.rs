//! The decay timers: an 8-bit counter paired with a tick period derived from
//! the cycle rate. Once per cycle `time` advances an internal accumulator and,
//! each time the accumulator fills a whole period, counts the counter down by
//! one; the counter stops at zero. Setting the counter leaves the accumulator
//! alone, so drift across successive sets is preserved.

use vstd::prelude::*;

verus! {

/// The mathematical state of a timer: its counter, its tick period, and how
/// many ticks of the current period have accumulated.
pub struct TimerView {
    pub counter: u8,
    pub period: u32,
    pub acc: u32,
}

/// One tick: while the counter is positive, the accumulator grows by one, and
/// on filling the period the counter falls by one and the accumulator resets.
pub open spec fn tick_spec(t: TimerView) -> TimerView {
    if t.counter > 0 {
        if t.acc + 1 >= t.period {
            TimerView { counter: (t.counter - 1) as u8, period: t.period, acc: 0 }
        } else {
            TimerView { counter: t.counter, period: t.period, acc: (t.acc + 1) as u32 }
        }
    } else {
        t
    }
}

/// `tick_spec` applied `k` times.
pub open spec fn tick_n_spec(t: TimerView, k: nat) -> TimerView
    decreases k,
{
    if k == 0 {
        t
    } else {
        tick_spec(tick_n_spec(t, (k - 1) as nat))
    }
}

/// The accumulator never reaches the period (except that both may be zero),
/// so a tick can always grow it without overflow.
pub open spec fn timer_wf(t: TimerView) -> bool {
    t.acc == 0 || t.acc < t.period
}

/// An 8-bit decay counter with a fixed tick period.
pub struct Timer {
    timer: u8,
    per: u32,
    t: u32,
}

impl View for Timer {
    type V = TimerView;

    closed spec fn view(&self) -> TimerView {
        TimerView { counter: self.timer, period: self.per, acc: self.t }
    }
}

impl Timer {
    /// The well-formedness of this timer's state.
    pub open spec fn wf(&self) -> bool {
        timer_wf(self@)
    }

    /// A zeroed timer that counts down once per `per` ticks.
    pub fn new(per: u32) -> (r: Self)
        ensures
            r@ == (TimerView { counter: 0, period: per, acc: 0 }),
            r.wf(),
    {
        Timer { timer: 0, per, t: 0 }
    }

    /// The current counter value.
    pub fn counter(&self) -> (r: u8)
        ensures
            r == self@.counter,
    {
        self.timer
    }

    /// One tick of the decay clock.
    pub fn time(&mut self)
        requires
            old(self).wf(),
        ensures
            final(self)@ == tick_spec(old(self)@),
            final(self).wf(),
    {
        if self.timer > 0 {
            self.t = self.t + 1;
            if self.t >= self.per {
                self.timer = self.timer - 1;
                self.t = 0;
            }
        }
    }

    /// Overwrite the counter; the accumulator keeps its progress.
    pub fn set_timer(&mut self, timer: u8)
        ensures
            final(self)@ == (TimerView {
                counter: timer,
                period: old(self)@.period,
                acc: old(self)@.acc,
            }),
            old(self).wf() ==> final(self).wf(),
    {
        self.timer = timer
    }
}

} // verus!
