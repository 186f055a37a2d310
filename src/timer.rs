//! Countdown and repeating timers driven by elapsed time in microseconds.
use vstd::arithmetic::div_mod::{
    lemma_fundamental_div_mod, lemma_fundamental_div_mod_converse, lemma_mod_add_multiples_vanish,
};
use vstd::prelude::*;

verus! {

/// One second, in the microseconds that every duration of this crate is measured in.
pub const MICROS_PER_SECOND: u64 = 1_000_000;

/// Whether a timer stops after it fires or starts over.
#[derive(Clone, Copy, Debug, PartialEq, Eq, Structural)]
pub enum TimerMode {
    /// Fires once, then stays finished.
    Once,
    /// Fires each time a full period has accumulated, then starts over.
    Repeating,
}

/// Why a timer could not be built.
#[derive(Clone, Copy, Debug, PartialEq, Eq, Structural)]
pub enum TimerError {
    /// A timer needs a duration of at least one microsecond.
    NonPositiveDuration,
}

/// The mathematical state of a timer.
pub struct TimerView {
    pub duration: nat,
    pub elapsed: nat,
    pub repeating: bool,
    pub finished: bool,
    pub just_finished: bool,
}

impl TimerView {
    /// A timer that has just been built: nothing accumulated, not finished.
    pub open spec fn started(duration: nat, repeating: bool) -> TimerView {
        TimerView { duration, elapsed: 0, repeating, finished: false, just_finished: false }
    }

    /// The state after one `tick` of `delta` microseconds.
    ///
    /// A finished one-shot timer ignores further time. Otherwise the timer fires
    /// when the accumulated time reaches the duration; a one-shot timer then holds
    /// at its duration, and a repeating one keeps only the remainder modulo the
    /// duration, so it fires at most once per tick however long the tick was.
    pub open spec fn ticked(self, delta: nat) -> TimerView {
        let total = self.elapsed + delta;
        if !self.repeating && self.finished {
            TimerView { just_finished: false, ..self }
        } else if total >= self.duration {
            TimerView {
                elapsed: if self.repeating { total % self.duration } else { self.duration },
                finished: true,
                just_finished: true,
                ..self
            }
        } else {
            TimerView { elapsed: total, finished: false, just_finished: false, ..self }
        }
    }

    pub open spec fn wf(self) -> bool {
        &&& self.duration > 0
        &&& self.elapsed <= self.duration
        &&& self.repeating ==> self.elapsed < self.duration
        &&& !self.repeating ==> (self.finished <==> self.elapsed == self.duration)
        &&& self.just_finished ==> self.finished
    }
}

/// A countdown (`Once`) or periodic (`Repeating`) timer.
#[derive(Clone, Copy, Debug)]
pub struct Timer {
    duration: u64,
    elapsed: u64,
    mode: TimerMode,
    finished: bool,
    just_finished: bool,
}

impl View for Timer {
    type V = TimerView;

    closed spec fn view(&self) -> TimerView {
        TimerView {
            duration: self.duration as nat,
            elapsed: self.elapsed as nat,
            repeating: self.mode == TimerMode::Repeating,
            finished: self.finished,
            just_finished: self.just_finished,
        }
    }
}

impl Timer {
    pub open spec fn wf(&self) -> bool {
        self@.wf()
    }

    /// A timer of `duration` microseconds that has just been built.
    pub closed spec fn fresh(duration: nat, mode: TimerMode) -> Timer {
        Timer { duration: duration as u64, elapsed: 0, mode, finished: false, just_finished: false }
    }

    pub broadcast proof fn lemma_fresh(duration: nat, mode: TimerMode)
        requires
            0 < duration <= u64::MAX,
        ensures
            #[trigger] Timer::fresh(duration, mode)@ == TimerView::started(
                duration,
                mode == TimerMode::Repeating,
            ),
            Timer::fresh(duration, mode).wf(),
    {
    }

    /// The timer after one `tick` of `delta` microseconds.
    pub closed spec fn ticked_timer(self, delta: nat) -> Timer {
        let v = self@.ticked(delta);
        Timer {
            duration: self.duration,
            elapsed: v.elapsed as u64,
            mode: self.mode,
            finished: v.finished,
            just_finished: v.just_finished,
        }
    }

    /// A tick changes a well-formed timer as `TimerView::ticked` says, and keeps
    /// it well formed.
    pub broadcast proof fn lemma_ticked_timer(self, delta: nat)
        requires
            self.wf(),
        ensures
            #[trigger] self.ticked_timer(delta)@ == self@.ticked(delta),
            self.ticked_timer(delta).wf(),
    {
        let v = self@.ticked(delta);
        if self@.repeating && self.elapsed + delta >= self.duration {
            assert(v.elapsed < self.duration);
        }
    }

    /// A timer of `duration` microseconds, refused when the duration is zero.
    pub fn new(duration: u64, mode: TimerMode) -> (r: Result<Timer, TimerError>)
        ensures
            duration == 0 <==> r == Err::<Timer, TimerError>(TimerError::NonPositiveDuration),
            r matches Ok(t) ==> t.wf() && t@ == TimerView::started(
                duration as nat,
                mode == TimerMode::Repeating,
            ) && t == Timer::fresh(duration as nat, mode),
    {
        if duration == 0 {
            Err(TimerError::NonPositiveDuration)
        } else {
            Ok(Timer { duration, elapsed: 0, mode, finished: false, just_finished: false })
        }
    }

    /// A timer of a whole number of seconds; `seconds` must be positive.
    pub fn from_seconds(seconds: u64, mode: TimerMode) -> (r: Timer)
        requires
            0 < seconds,
            seconds * MICROS_PER_SECOND <= u64::MAX,
        ensures
            r.wf(),
            r@ == TimerView::started(
                (seconds * MICROS_PER_SECOND) as nat,
                mode == TimerMode::Repeating,
            ),
            r == Timer::fresh((seconds * MICROS_PER_SECOND) as nat, mode),
    {
        Timer {
            duration: seconds * MICROS_PER_SECOND,
            elapsed: 0,
            mode,
            finished: false,
            just_finished: false,
        }
    }

    /// Adds `delta` microseconds to the timer.
    pub fn tick(&mut self, delta: u64)
        requires
            old(self).wf(),
        ensures
            final(self).wf(),
            final(self)@ == old(self)@.ticked(delta as nat),
            *final(self) == old(self).ticked_timer(delta as nat),
    {
        let room = self.duration - self.elapsed;
        if self.mode == TimerMode::Once && self.finished {
            self.just_finished = false;
        } else if delta >= room {
            if self.mode == TimerMode::Repeating {
                let rest = delta - room;
                proof {
                    let d = self.duration as int;
                    lemma_mod_add_multiples_vanish(rest as int, d);
                    assert(self.elapsed + delta == d + rest);
                }
                self.elapsed = rest % self.duration;
            } else {
                self.elapsed = self.duration;
            }
            self.finished = true;
            self.just_finished = true;
        } else {
            self.elapsed = self.elapsed + delta;
            self.finished = false;
            self.just_finished = false;
        }
    }

    /// True exactly when the last `tick` made the timer fire.
    pub fn just_finished(&self) -> (r: bool)
        ensures
            r == self@.just_finished,
    {
        self.just_finished
    }

    /// True when the timer has fired and, if one-shot, stays finished.
    pub fn finished(&self) -> (r: bool)
        ensures
            r == self@.finished,
    {
        self.finished
    }

    /// Microseconds accumulated since the start or the last firing.
    pub fn elapsed(&self) -> (r: u64)
        ensures
            r == self@.elapsed,
    {
        self.elapsed
    }

    /// The configured duration in microseconds.
    pub fn duration(&self) -> (r: u64)
        ensures
            r == self@.duration,
    {
        self.duration
    }

    pub fn mode(&self) -> (r: TimerMode)
        ensures
            (r == TimerMode::Repeating) == self@.repeating,
    {
        self.mode
    }

    /// Starts the timer over with its duration and mode unchanged.
    pub fn reset(&mut self)
        requires
            old(self).wf(),
        ensures
            final(self).wf(),
            final(self)@ == TimerView::started(old(self)@.duration, old(self)@.repeating),
    {
        self.elapsed = 0;
        self.finished = false;
        self.just_finished = false;
    }
}

/// Total time of a sequence of tick deltas.
pub open spec fn total(deltas: Seq<nat>) -> nat
    decreases deltas.len(),
{
    if deltas.len() == 0 {
        0
    } else {
        total(deltas.drop_last()) + deltas.last()
    }
}

/// The state of a timer after one `tick` for each delta, in order.
pub open spec fn run(t: TimerView, deltas: Seq<nat>) -> TimerView
    decreases deltas.len(),
{
    if deltas.len() == 0 {
        t
    } else {
        run(t, deltas.drop_last()).ticked(deltas.last())
    }
}

/// Whether the `i`-th tick (counting from zero) of a run made the timer fire.
pub open spec fn fires_at(t: TimerView, deltas: Seq<nat>, i: int) -> bool {
    run(t, deltas.take(i + 1)).just_finished
}

pub proof fn lemma_take_step(deltas: Seq<nat>, i: int)
    requires
        0 <= i < deltas.len(),
    ensures
        deltas.take(i + 1).drop_last() == deltas.take(i),
        deltas.take(i + 1).last() == deltas[i],
        total(deltas.take(i + 1)) == total(deltas.take(i)) + deltas[i],
{
    assert(deltas.take(i + 1).drop_last() =~= deltas.take(i));
}

proof fn lemma_total_monotone(deltas: Seq<nat>, i: int, j: int)
    requires
        0 <= i <= j <= deltas.len(),
    ensures
        total(deltas.take(i)) <= total(deltas.take(j)),
    decreases j - i,
{
    if i < j {
        lemma_total_monotone(deltas, i, j - 1);
        lemma_take_step(deltas, j - 1);
    }
}

pub proof fn lemma_run_wf(t: TimerView, deltas: Seq<nat>)
    requires
        t.wf(),
    ensures
        run(t, deltas).wf(),
        run(t, deltas).duration == t.duration,
        run(t, deltas).repeating == t.repeating,
    decreases deltas.len(),
{
    if deltas.len() > 0 {
        lemma_run_wf(t, deltas.drop_last());
        let s = run(t, deltas.drop_last());
        let total_now = s.elapsed + deltas.last();
        if s.repeating && total_now >= s.duration {
            assert(total_now % s.duration < s.duration);
        }
    }
}

/// A one-shot timer that has not fired holds the accumulated time, capped at
/// its duration, and is finished once that much time has gone by; one that has
/// fired holds at its duration and stays silent.
pub proof fn lemma_once_run(t: TimerView, deltas: Seq<nat>)
    requires
        t.wf(),
        !t.repeating,
    ensures
        ({
            let s = run(t, deltas);
            let reached = t.elapsed + total(deltas);
            &&& !t.finished ==> s.elapsed == (if reached >= t.duration {
                t.duration
            } else {
                reached
            }) && (s.finished <==> reached >= t.duration)
            &&& t.finished ==> s.elapsed == t.duration && s.finished
            &&& t.finished && deltas.len() > 0 ==> !s.just_finished
        }),
    decreases deltas.len(),
{
    if deltas.len() > 0 {
        lemma_once_run(t, deltas.drop_last());
        lemma_run_wf(t, deltas.drop_last());
    }
}

/// A one-shot timer run from the start holds the accumulated time, capped at
/// its duration, and is finished once that much time has gone by.
pub proof fn lemma_once_state(duration: nat, deltas: Seq<nat>)
    requires
        duration > 0,
    ensures
        ({
            let s = run(TimerView::started(duration, false), deltas);
            &&& s.elapsed == if total(deltas) >= duration { duration } else { total(deltas) }
            &&& s.finished <==> total(deltas) >= duration
        }),
{
    lemma_once_run(TimerView::started(duration, false), deltas);
}

/// Whatever time a one-shot timer has already accumulated, it fires on exactly
/// one tick: the one at which the accumulated time first reaches its duration,
/// or none if it had already fired. Every tick after that leaves it silent,
/// however much more time goes by.
pub proof fn lemma_once_fires_at_most_once(t: TimerView, deltas: Seq<nat>, i: int, j: int)
    requires
        t.wf(),
        !t.repeating,
        0 <= i < deltas.len(),
        0 <= j < deltas.len(),
    ensures
        fires_at(t, deltas, i) <==> !t.finished && t.elapsed + total(deltas.take(i)) < t.duration
            <= t.elapsed + total(deltas.take(i + 1)),
        fires_at(t, deltas, i) && i < j ==> !fires_at(t, deltas, j),
{
    lemma_take_step(deltas, i);
    lemma_once_run(t, deltas.take(i));
    lemma_once_run(t, deltas.take(i + 1));
    lemma_take_step(deltas, j);
    lemma_once_run(t, deltas.take(j));
    lemma_run_wf(t, deltas.take(i));
    lemma_run_wf(t, deltas.take(j));
    if i < j {
        lemma_total_monotone(deltas, i + 1, j);
    }
}

/// A one-shot timer fires on exactly one tick: the one at which the accumulated
/// time first reaches its duration. Every tick after that leaves it silent,
/// however much more time goes by.
pub proof fn lemma_once_fires_exactly_once(duration: nat, deltas: Seq<nat>, i: int, j: int)
    requires
        duration > 0,
        0 <= i < deltas.len(),
        0 <= j < deltas.len(),
    ensures
        fires_at(TimerView::started(duration, false), deltas, i) <==> (total(deltas.take(i))
            < duration <= total(deltas.take(i + 1))),
        fires_at(TimerView::started(duration, false), deltas, i) && i < j ==> !fires_at(
            TimerView::started(duration, false),
            deltas,
            j,
        ),
{
    lemma_once_fires_at_most_once(TimerView::started(duration, false), deltas, i, j);
}

proof fn lemma_wrap(s: nat, delta: nat, d: nat)
    requires
        d > 0,
    ensures
        (s % d + delta >= d) <==> ((s + delta) / d > s / d),
        (s % d + delta) % d == (s + delta) % d,
        s % d + delta < d ==> s % d + delta == (s + delta) % d,
{
    let q = s / d;
    let r = s % d;
    lemma_fundamental_div_mod(s as int, d as int);
    assert(s == q * d + r) by (nonlinear_arith)
        requires
            s == d * q + r,
    ;
    let x = r + delta;
    let q2 = x / d;
    let r2 = x % d;
    lemma_fundamental_div_mod(x as int, d as int);
    assert(s + delta == (q + q2) * d + r2) by (nonlinear_arith)
        requires
            s == q * d + r,
            x == d * q2 + r2,
            x == r + delta,
    ;
    lemma_fundamental_div_mod_converse((s + delta) as int, d as int, (q + q2) as int, r2 as int);
    assert(x >= d <==> q2 >= 1) by (nonlinear_arith)
        requires
            x == d * q2 + r2,
            0 <= r2 < d,
            x >= 0,
    ;
    if x < d {
        lemma_fundamental_div_mod_converse(x as int, d as int, 0, x as int);
    }
}

/// A repeating timer run from the start holds the accumulated time modulo its
/// duration.
proof fn lemma_repeating_state(duration: nat, deltas: Seq<nat>)
    requires
        duration > 0,
    ensures
        run(TimerView::started(duration, true), deltas).elapsed == total(deltas) % duration,
    decreases deltas.len(),
{
    if deltas.len() > 0 {
        lemma_repeating_state(duration, deltas.drop_last());
        lemma_run_wf(TimerView::started(duration, true), deltas.drop_last());
        lemma_wrap(total(deltas.drop_last()), deltas.last(), duration);
    } else {
        assert(0nat % duration == 0) by (nonlinear_arith)
            requires
                duration > 0,
        ;
    }
}

/// A repeating timer of duration `d` keeps the accumulated time modulo `d`, and
/// a tick makes it fire exactly when the running total of the deltas passes a
/// multiple of `d` during that tick: once per `d` of input, never more than
/// once in a single tick.
pub proof fn lemma_repeating_cadence(duration: nat, deltas: Seq<nat>, i: int)
    requires
        duration > 0,
        0 <= i < deltas.len(),
    ensures
        run(TimerView::started(duration, true), deltas.take(i + 1)).elapsed == total(
            deltas.take(i + 1),
        ) % duration,
        fires_at(TimerView::started(duration, true), deltas, i) <==> total(deltas.take(i + 1))
            / duration > total(deltas.take(i)) / duration,
{
    lemma_take_step(deltas, i);
    lemma_repeating_state(duration, deltas.take(i));
    lemma_repeating_state(duration, deltas.take(i + 1));
    lemma_run_wf(TimerView::started(duration, true), deltas.take(i));
    lemma_wrap(total(deltas.take(i)), deltas[i], duration);
}

} // verus!
