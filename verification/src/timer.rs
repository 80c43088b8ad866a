//! Spawn timers: counters that fire once whenever a period has passed.

use vstd::prelude::*;

verus! {

/// The mathematical model of a [`SpawnTimer`].
pub struct TimerModel {
    /// The time between two firings.
    pub period: nat,
    /// The time gathered since the last firing.
    pub elapsed: nat,
}

impl TimerModel {
    /// The invariant of a timer: a period above zero that the gathered time
    /// has not reached.
    pub open spec fn wf(self) -> bool {
        self.elapsed < self.period
    }

    /// A timer that has gathered nothing yet.
    pub open spec fn fresh(period: nat) -> TimerModel {
        TimerModel { period, elapsed: 0 }
    }

    /// The timer fires when `delta` more has passed.
    pub open spec fn fires(self, delta: nat) -> bool {
        self.elapsed + delta >= self.period
    }

    /// The timer after `delta` more has passed: on firing it starts again
    /// from zero and keeps no remainder.
    pub open spec fn ticked(self, delta: nat) -> TimerModel {
        if self.fires(delta) {
            TimerModel { elapsed: 0, ..self }
        } else {
            TimerModel { elapsed: self.elapsed + delta, ..self }
        }
    }

    /// The timer after `n` steps of `delta` each.
    pub open spec fn ticked_times(self, delta: nat, n: nat) -> TimerModel
        decreases n,
    {
        if n == 0 {
            self
        } else {
            self.ticked_times(delta, (n - 1) as nat).ticked(delta)
        }
    }

    /// The timer fires at the `n`-th of `n` steps of `delta` each.
    pub open spec fn fires_at(self, delta: nat, n: nat) -> bool
        recommends
            n >= 1,
    {
        self.ticked_times(delta, (n - 1) as nat).fires(delta)
    }
}

/// The number of steps of `delta` each that a period takes: the period
/// divided by the step, rounded up.
pub open spec fn steps_per_period(period: nat, delta: nat) -> nat
    recommends
        delta > 0,
{
    ((period + delta - 1) / (delta as int)) as nat
}

/// A timer.
#[derive(Clone, Copy, Debug)]
pub struct SpawnTimer {
    period: u64,
    elapsed: u64,
}

impl View for SpawnTimer {
    type V = TimerModel;

    closed spec fn view(&self) -> TimerModel {
        TimerModel { period: self.period as nat, elapsed: self.elapsed as nat }
    }
}

impl SpawnTimer {
    /// The invariant of a timer.
    pub open spec fn wf(&self) -> bool {
        self@.wf()
    }

    /// A timer that has gathered nothing yet, or nothing if the period is
    /// zero.
    pub fn new(period: u64) -> (r: Option<SpawnTimer>)
        ensures
            r is Some <==> period > 0,
            r is Some ==> r->Some_0.wf() && r->Some_0@ == TimerModel::fresh(period as nat),
    {
        if period == 0 {
            None
        } else {
            Some(SpawnTimer { period, elapsed: 0 })
        }
    }

    /// The time between two firings.
    pub fn period(&self) -> (p: u64)
        ensures
            p == self@.period,
    {
        self.period
    }

    /// The time gathered since the last firing.
    pub fn elapsed(&self) -> (e: u64)
        ensures
            e == self@.elapsed,
    {
        self.elapsed
    }

    /// Lets `delta` pass, and says whether the timer fired.
    pub fn tick(&mut self, delta: u64) -> (fired: bool)
        requires
            old(self).wf(),
        ensures
            final(self).wf(),
            fired == old(self)@.fires(delta as nat),
            final(self)@ == old(self)@.ticked(delta as nat),
    {
        if delta >= self.period - self.elapsed {
            self.elapsed = 0;
            true
        } else {
            self.elapsed = self.elapsed + delta;
            false
        }
    }
}

/// A fresh timer stepped by a constant `delta` fires at every `k`-th step
/// and at no other, where `k` is the number of steps that a period takes;
/// after each step it has gathered `delta` times the number of steps since
/// it last fired.  Nothing is carried over a firing, so the firings do not
/// drift.
pub proof fn lemma_cadence(period: nat, delta: nat, n: nat)
    requires
        period > 0,
        delta > 0,
    ensures
        ({
            let k = steps_per_period(period, delta);
            let timer = TimerModel::fresh(period);
            &&& k >= 1
            &&& timer.ticked_times(delta, n).period == period
            &&& timer.ticked_times(delta, n).elapsed == (n % k) * delta
            &&& n >= 1 ==> (timer.fires_at(delta, n) <==> n % k == 0)
        }),
    decreases n,
{
    let k = steps_per_period(period, delta);
    let timer = TimerModel::fresh(period);
    lemma_steps_per_period(period, delta);
    if n == 0 {
        assert(0nat % k == 0) by (nonlinear_arith)
            requires
                k >= 1,
        ;
        assert(0 * delta == 0);
    } else {
        let m = (n - 1) as nat;
        lemma_cadence(period, delta, m);
        let before = timer.ticked_times(delta, m);
        let r = m % k;
        assert(0 <= r < k && (r + 1 < k ==> n % k == r + 1) && (r + 1 == k ==> n % k == 0))
            by (nonlinear_arith)
            requires
                r == m % k,
                n == m + 1,
                k >= 1,
        ;
        assert(before.elapsed + delta == (r + 1) * delta) by (nonlinear_arith)
            requires
                before.elapsed == r * delta,
        ;
        if r + 1 < k {
            assert((r + 1) * delta <= (k - 1) * delta) by (nonlinear_arith)
                requires
                    r + 1 <= k - 1,
                    delta > 0,
            ;
        } else {
            assert((r + 1) * delta == k * delta);
        }
    }
}

/// The number of steps that a period takes is the least number of steps
/// that reach it.
pub proof fn lemma_steps_per_period(period: nat, delta: nat)
    requires
        period > 0,
        delta > 0,
    ensures
        steps_per_period(period, delta) >= 1,
        steps_per_period(period, delta) * delta >= period,
        (steps_per_period(period, delta) - 1) * delta < period,
{
    let d = delta as int;
    let a = period + delta - 1;
    let k = a / d;
    vstd::arithmetic::div_mod::lemma_fundamental_div_mod(a, d);
    vstd::arithmetic::div_mod::lemma_mod_bound(a, d);
    assert(d * k == k * d) by (nonlinear_arith);
    assert(k >= 1) by (nonlinear_arith)
        requires
            k * d + a % d == a,
            0 <= a % d < d,
            a >= d,
            d > 0,
    ;
    assert((k - 1) * d == k * d - d) by (nonlinear_arith);
}

} // verus!
