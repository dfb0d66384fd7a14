use vstd::prelude::*;

verus! {

/// Spawn-scheduler period: 2.0 time units, in milli-time-units.
pub const SPAWN_PERIOD: u64 = 2000;

/// Click-marker lifetime: 1.0 time unit, in milli-time-units.
pub const MARKER_TIMEOUT: u64 = 1000;

/// The repeating timer fires on a step `dt` exactly when the accumulated
/// time reaches the period.
pub open spec fn timer_fires(period: int, elapsed: int, dt: int) -> bool {
    elapsed + dt >= period
}

/// Accumulated time after a step `dt`: surplus past a firing carries over,
/// so the timer re-arms with the deficit preserved.
pub open spec fn timer_next(period: int, elapsed: int, dt: int) -> int {
    (elapsed + dt) % period
}

/// Repeating countdown driving the spawn scheduler. One call of
/// [`RepeatingTimer::tick`] reports at most one firing however large its
/// time step is; the surplus wraps into the next cycle.
#[derive(Clone, Copy, PartialEq, Eq, Structural, Debug)]
pub struct RepeatingTimer {
    pub period: u64,
    pub elapsed: u64,
}

impl RepeatingTimer {
    /// The period is positive and the accumulated time has not reached it.
    pub open spec fn wf(self) -> bool {
        0 < self.period && self.elapsed < self.period
    }

    pub fn new(period: u64) -> (t: RepeatingTimer)
        requires
            period > 0,
        ensures
            t.period == period,
            t.elapsed == 0,
            t.wf(),
    {
        RepeatingTimer { period, elapsed: 0 }
    }

    /// Advances by `dt` and reports whether the timer fired on this call.
    pub fn tick(&mut self, dt: u64) -> (fired: bool)
        requires
            old(self).wf(),
            old(self).elapsed + dt <= u64::MAX,
        ensures
            final(self).period == old(self).period,
            fired == timer_fires(old(self).period as int, old(self).elapsed as int, dt as int),
            final(self).elapsed == timer_next(
                old(self).period as int,
                old(self).elapsed as int,
                dt as int,
            ),
            final(self).wf(),
    {
        let total = self.elapsed + dt;
        if total >= self.period {
            proof {
                vstd::arithmetic::div_mod::lemma_mod_division_less_than_divisor(
                    total as int,
                    self.period as int,
                );
            }
            self.elapsed = total % self.period;
            true
        } else {
            proof {
                vstd::arithmetic::div_mod::lemma_small_mod(total as nat, self.period as nat);
            }
            self.elapsed = total;
            false
        }
    }
}

/// The one-shot timer finishes on a step `dt` exactly when the accumulated
/// time first reaches the duration.
pub open spec fn one_shot_crosses(duration: int, elapsed: int, dt: int) -> bool {
    elapsed < duration && elapsed + dt >= duration
}

/// Accumulated time of a one-shot timer after a step `dt`, capped at the
/// duration: a finished timer never reports finishing again.
pub open spec fn one_shot_next(duration: int, elapsed: int, dt: int) -> int {
    if elapsed + dt >= duration {
        duration
    } else {
        elapsed + dt
    }
}

/// One-shot countdown giving each click marker its fixed lifetime.
#[derive(Clone, Copy, PartialEq, Eq, Structural, Debug)]
pub struct OneShotTimer {
    pub duration: u64,
    pub elapsed: u64,
}

impl OneShotTimer {
    /// The duration is positive and the accumulated time is capped at it.
    pub open spec fn wf(self) -> bool {
        0 < self.duration && self.elapsed <= self.duration
    }

    pub open spec fn finished(self) -> bool {
        self.elapsed >= self.duration
    }

    pub fn new(duration: u64) -> (t: OneShotTimer)
        requires
            duration > 0,
        ensures
            t.duration == duration,
            t.elapsed == 0,
            t.wf(),
    {
        OneShotTimer { duration, elapsed: 0 }
    }

    /// Advances by `dt` and reports whether the timer finished on this very
    /// call (true at most once over the timer's lifetime).
    pub fn tick(&mut self, dt: u64) -> (just_finished: bool)
        requires
            old(self).wf(),
            old(self).elapsed + dt <= u64::MAX,
        ensures
            final(self).duration == old(self).duration,
            just_finished == one_shot_crosses(
                old(self).duration as int,
                old(self).elapsed as int,
                dt as int,
            ),
            final(self).elapsed == one_shot_next(
                old(self).duration as int,
                old(self).elapsed as int,
                dt as int,
            ),
            final(self).wf(),
    {
        let was_running = self.elapsed < self.duration;
        let total = self.elapsed + dt;
        if total >= self.duration {
            self.elapsed = self.duration;
            was_running
        } else {
            self.elapsed = total;
            false
        }
    }
}

/// Sum of a sequence of time steps.
pub open spec fn seq_sum(ds: Seq<int>) -> int
    decreases ds.len(),
{
    if ds.len() == 0 {
        0
    } else {
        ds[0] + seq_sum(ds.drop_first())
    }
}

/// Every step of the sequence is a non-negative amount of elapsed time.
pub open spec fn nonneg_steps(ds: Seq<int>) -> bool {
    forall|i: int| 0 <= i < ds.len() ==> ds[i] >= 0
}

pub proof fn lemma_seq_sum_nonneg(ds: Seq<int>)
    requires
        nonneg_steps(ds),
    ensures
        seq_sum(ds) >= 0,
    decreases ds.len(),
{
    if ds.len() > 0 {
        assert(nonneg_steps(ds.drop_first())) by {
            assert forall|i: int| 0 <= i < ds.drop_first().len() implies ds.drop_first()[i] >= 0 by {
                assert(ds.drop_first()[i] == ds[i + 1]);
            }
        }
        lemma_seq_sum_nonneg(ds.drop_first());
    }
}

/// Number of firings a repeating timer reports over a sequence of ticks.
pub open spec fn spawn_count(period: int, elapsed: int, ds: Seq<int>) -> int
    decreases ds.len(),
{
    if ds.len() == 0 {
        0
    } else {
        (if timer_fires(period, elapsed, ds[0]) {
            1int
        } else {
            0int
        }) + spawn_count(period, timer_next(period, elapsed, ds[0]), ds.drop_first())
    }
}

/// Accumulated time of a repeating timer after a sequence of ticks.
pub open spec fn timer_after(period: int, elapsed: int, ds: Seq<int>) -> int
    decreases ds.len(),
{
    if ds.len() == 0 {
        elapsed
    } else {
        timer_after(period, timer_next(period, elapsed, ds[0]), ds.drop_first())
    }
}

/// While the accumulated time stays short of the period, the timer never
/// fires and simply accumulates the elapsed time.
pub proof fn lemma_spawn_no_fire(period: int, elapsed: int, ds: Seq<int>)
    requires
        0 < period,
        0 <= elapsed,
        nonneg_steps(ds),
        elapsed + seq_sum(ds) < period,
    ensures
        spawn_count(period, elapsed, ds) == 0,
        timer_after(period, elapsed, ds) == elapsed + seq_sum(ds),
    decreases ds.len(),
{
    if ds.len() > 0 {
        let rest = ds.drop_first();
        assert(nonneg_steps(rest)) by {
            assert forall|i: int| 0 <= i < rest.len() implies rest[i] >= 0 by {
                assert(rest[i] == ds[i + 1]);
            }
        }
        lemma_seq_sum_nonneg(rest);
        assert(elapsed + ds[0] < period);
        vstd::arithmetic::div_mod::lemma_small_mod((elapsed + ds[0]) as nat, period as nat);
        assert(timer_next(period, elapsed, ds[0]) == elapsed + ds[0]);
        lemma_spawn_no_fire(period, elapsed + ds[0], rest);
    }
}

/// Law (single-fire spawn): when the ticks' cumulative elapsed time brings
/// the accumulated time to exactly one period, the scheduler emits exactly
/// one spawn request, and the timer re-arms at zero.
pub proof fn lemma_spawn_single_fire(period: int, elapsed: int, ds: Seq<int>)
    requires
        0 < period,
        0 <= elapsed < period,
        nonneg_steps(ds),
        elapsed + seq_sum(ds) == period,
    ensures
        spawn_count(period, elapsed, ds) == 1,
        timer_after(period, elapsed, ds) == 0,
    decreases ds.len(),
{
    let rest = ds.drop_first();
    assert(ds.len() > 0);
    assert(nonneg_steps(rest)) by {
        assert forall|i: int| 0 <= i < rest.len() implies rest[i] >= 0 by {
            assert(rest[i] == ds[i + 1]);
        }
    }
    lemma_seq_sum_nonneg(rest);
    if timer_fires(period, elapsed, ds[0]) {
        assert(ds[0] == period - elapsed);
        assert(seq_sum(rest) == 0);
        vstd::arithmetic::div_mod::lemma_mod_self_0(period);
        assert(timer_next(period, elapsed, ds[0]) == 0);
        lemma_spawn_no_fire(period, 0, rest);
    } else {
        vstd::arithmetic::div_mod::lemma_small_mod((elapsed + ds[0]) as nat, period as nat);
        lemma_spawn_single_fire(period, elapsed + ds[0], rest);
    }
}

/// Firings over a concatenation split at the boundary, with the timer state
/// carried across it.
pub proof fn lemma_spawn_count_concat(period: int, elapsed: int, ds1: Seq<int>, ds2: Seq<int>)
    requires
        0 < period,
    ensures
        spawn_count(period, elapsed, ds1 + ds2) == spawn_count(period, elapsed, ds1)
            + spawn_count(period, timer_after(period, elapsed, ds1), ds2),
        timer_after(period, elapsed, ds1 + ds2) == timer_after(
            period,
            timer_after(period, elapsed, ds1),
            ds2,
        ),
    decreases ds1.len(),
{
    if ds1.len() == 0 {
        assert(ds1 + ds2 =~= ds2);
    } else {
        assert((ds1 + ds2)[0] == ds1[0]);
        assert((ds1 + ds2).drop_first() =~= ds1.drop_first() + ds2);
        lemma_spawn_count_concat(period, timer_next(period, elapsed, ds1[0]), ds1.drop_first(), ds2);
    }
}

/// Law (single-fire spawn over two periods): ticks whose cumulative elapsed
/// time is exactly two periods yield exactly one spawn per period-length
/// window — two in all, never two from a single instantaneous reset.
pub proof fn lemma_spawn_one_per_window(period: int, ds1: Seq<int>, ds2: Seq<int>)
    requires
        0 < period,
        nonneg_steps(ds1),
        nonneg_steps(ds2),
        seq_sum(ds1) == period,
        seq_sum(ds2) == period,
    ensures
        spawn_count(period, 0, ds1) == 1,
        spawn_count(period, timer_after(period, 0, ds1), ds2) == 1,
        spawn_count(period, 0, ds1 + ds2) == 2,
{
    lemma_spawn_single_fire(period, 0, ds1);
    lemma_spawn_single_fire(period, 0, ds2);
    lemma_spawn_count_concat(period, 0, ds1, ds2);
}

/// Whether a one-shot marker timer reports finishing at some tick of the
/// sequence (the tick on which the marker is destroyed).
pub open spec fn marker_destroyed(duration: int, elapsed: int, ds: Seq<int>) -> bool
    decreases ds.len(),
{
    if ds.len() == 0 {
        false
    } else {
        one_shot_crosses(duration, elapsed, ds[0]) || marker_destroyed(
            duration,
            one_shot_next(duration, elapsed, ds[0]),
            ds.drop_first(),
        )
    }
}

/// Law (marker lifetime): a marker created fresh is destroyed within a
/// sequence of ticks exactly when their cumulative elapsed time reaches the
/// timeout; applied to any prefix, it is still alive at every tick whose
/// cumulative elapsed time falls strictly short of the timeout.
pub proof fn lemma_marker_lifetime(duration: int, elapsed: int, ds: Seq<int>)
    requires
        0 < duration,
        0 <= elapsed < duration,
        nonneg_steps(ds),
    ensures
        marker_destroyed(duration, elapsed, ds) <==> elapsed + seq_sum(ds) >= duration,
    decreases ds.len(),
{
    if ds.len() > 0 {
        let rest = ds.drop_first();
        assert(nonneg_steps(rest)) by {
            assert forall|i: int| 0 <= i < rest.len() implies rest[i] >= 0 by {
                assert(rest[i] == ds[i + 1]);
            }
        }
        lemma_seq_sum_nonneg(rest);
        if one_shot_crosses(duration, elapsed, ds[0]) {
        } else {
            lemma_marker_lifetime(duration, elapsed + ds[0], rest);
        }
    }
}

} // verus!
