//! The countdown timer: its state and what each step of its loop decides.
//!
//! A run is driven from outside: `start_run` or `restart_run` begins it and
//! names it, then `step` is called with that name over and over; it says
//! whether to wait (the timer is paused), to report the time left and wait one
//! second, that the time is up, or that the run was ended (stopped, or
//! replaced by a newer run) and its loop must stop without finishing.
use crate::clock::error::TimerError;
use vstd::prelude::*;

verus! {

/// The timer: milliseconds left on the latest run, whether it counts, the
/// name of the latest run and whether that run still goes on.
#[derive(Debug)]
pub struct Timer {
    left_millis: i64,
    is_running: bool,
    run: u64,
    run_live: bool,
}

/// What a timer holds.
#[derive(Debug, Clone, Copy, PartialEq, Eq, Structural)]
pub struct TimerView {
    pub left_millis: i64,
    pub is_running: bool,
    pub run: u64,
    pub run_live: bool,
}

/// What the loop that drives a run does next.
#[derive(Debug, Clone, Copy, PartialEq, Eq, Structural)]
pub enum TimerStep {
    /// The timer is paused: wait a moment and ask again.
    Wait,
    /// One second went by: report this many milliseconds left, then wait a
    /// second.
    Tick(i64),
    /// The time is up: the timer has paused itself and the run is over.
    Finished,
    /// The run was stopped or replaced: its loop ends, and nothing is
    /// reported.
    Ended,
}

impl View for Timer {
    type V = TimerView;

    closed spec fn view(&self) -> TimerView {
        TimerView {
            left_millis: self.left_millis,
            is_running: self.is_running,
            run: self.run,
            run_live: self.run_live,
        }
    }
}

/// The name of the run after run `r`.
pub open spec fn next_run(r: u64) -> u64 {
    if r == u64::MAX {
        0
    } else {
        (r + 1) as u64
    }
}

/// A new run of `millis`, counting, named after the latest one.
pub open spec fn fresh_run(t: TimerView, millis: i64) -> TimerView {
    TimerView { left_millis: millis, is_running: true, run: next_run(t.run), run_live: true }
}

/// One step of run `run`.
pub open spec fn step_spec(t: TimerView, run: u64) -> (TimerView, TimerStep) {
    if !(t.run_live && t.run == run) {
        (t, TimerStep::Ended)
    } else if !t.is_running {
        (t, TimerStep::Wait)
    } else if t.left_millis <= 0 {
        (TimerView { is_running: false, run_live: false, ..t }, TimerStep::Finished)
    } else {
        let left = (t.left_millis - 1000) as i64;
        (TimerView { left_millis: left, ..t }, TimerStep::Tick(left))
    }
}

/// Starting a run of `millis`: refused while the current run has time left.
pub open spec fn start_spec(t: TimerView, millis: i64) -> (TimerView, Result<u64, TimerError>) {
    if t.left_millis > 0 {
        (t, Err(TimerError::StillRunning))
    } else {
        (fresh_run(t, millis), Ok(next_run(t.run)))
    }
}

/// Stopping: no time left, not counting, and the run is over.
pub open spec fn stop_spec(t: TimerView) -> TimerView {
    TimerView { left_millis: 0, is_running: false, run_live: false, ..t }
}

/// The timer after `n` steps of run `run`.
pub open spec fn after_steps(t: TimerView, run: u64, n: nat) -> TimerView
    decreases n,
{
    if n == 0 {
        t
    } else {
        after_steps(step_spec(t, run).0, run, (n - 1) as nat)
    }
}

/// How many one-second ticks a run with `left` milliseconds takes: `left`
/// seconds rounded up.
pub open spec fn ticks_needed(left: int) -> nat {
    if left <= 0 {
        0
    } else {
        ((left + 999) / 1000) as nat
    }
}

impl Timer {
    /// A timer with no time left, not counting, and no run going on.
    pub fn new() -> (t: Timer)
        ensures
            t@ == (TimerView { left_millis: 0, is_running: false, run: 0, run_live: false }),
    {
        Timer { left_millis: 0, is_running: false, run: 0, run_live: false }
    }

    fn next_run_name(&self) -> (r: u64)
        ensures
            r == next_run(self@.run),
    {
        if self.run == u64::MAX {
            0
        } else {
            self.run + 1
        }
    }

    /// Begins a run of `millis`, and the timer counts; returns the run's
    /// name.  Refused while the current run still has time left; then nothing
    /// changes.
    pub fn start_run(&mut self, millis: i64) -> (res: Result<u64, TimerError>)
        ensures
            (final(self)@, res) == start_spec(old(self)@, millis),
    {
        if self.left_millis > 0 {
            return Err(TimerError::StillRunning);
        }
        Ok(self.restart_run(millis))
    }

    /// Begins a run of `millis` whatever the timer was doing, ending the run
    /// that went on; returns the new run's name.
    pub fn restart_run(&mut self, millis: i64) -> (run: u64)
        ensures
            final(self)@ == fresh_run(old(self)@, millis),
            run == final(self)@.run,
    {
        let run = self.next_run_name();
        self.run = run;
        self.run_live = true;
        self.left_millis = millis;
        self.continue_run();
        run
    }

    /// One step of the loop that drives run `run`.
    pub fn step(&mut self, run: u64) -> (s: TimerStep)
        ensures
            (final(self)@, s) == step_spec(old(self)@, run),
    {
        if !(self.run_live && self.run == run) {
            TimerStep::Ended
        } else if !self.is_running {
            TimerStep::Wait
        } else if self.left_millis <= 0 {
            self.pause_run();
            self.run_live = false;
            TimerStep::Finished
        } else {
            self.left_millis = self.left_millis - 1000;
            TimerStep::Tick(self.left_millis)
        }
    }

    pub fn pause_run(&mut self)
        ensures
            final(self)@ == (TimerView { is_running: false, ..old(self)@ }),
    {
        self.is_running = false;
    }

    pub fn continue_run(&mut self)
        ensures
            final(self)@ == (TimerView { is_running: true, ..old(self)@ }),
    {
        self.is_running = true;
    }

    pub fn is_running(&self) -> (b: bool)
        ensures
            b == self@.is_running,
    {
        self.is_running
    }

    pub fn left_millis(&self) -> (m: i64)
        ensures
            m == self@.left_millis,
    {
        self.left_millis
    }

    /// Ends the run: no time left, not counting, and its loop stops at the
    /// next step without finishing.
    pub fn stop_run(&mut self)
        ensures
            final(self)@ == stop_spec(old(self)@),
    {
        self.pause_run();
        self.left_millis = 0;
        self.run_live = false;
    }

    /// Pauses a counting timer, or lets a paused one count again.
    pub fn toggle_pause(&mut self)
        ensures
            final(self)@ == (TimerView { is_running: !old(self)@.is_running, ..old(self)@ }),
    {
        if self.is_running() {
            self.pause_run();
        } else {
            self.continue_run();
        }
    }
}

/// A run counts down one second per tick: from a counting timer whose live
/// run `t.run` has `left >= 0` milliseconds, the first `ticks_needed(left)`
/// steps are ticks that report `left - 1000`, `left - 2000`, ..., and the step
/// after them finishes the run, leaving the timer paused, overdrawn by less
/// than a second.
pub proof fn lemma_countdown(t: TimerView, k: nat)
    requires
        t.is_running,
        t.run_live,
        t.left_millis >= 0,
        k <= ticks_needed(t.left_millis as int),
    ensures
        after_steps(t, t.run, k) == (TimerView {
            left_millis: (t.left_millis - 1000 * k) as i64,
            ..t
        }),
        k < ticks_needed(t.left_millis as int) ==> step_spec(after_steps(t, t.run, k), t.run).1
            == TimerStep::Tick((t.left_millis - 1000 * (k + 1)) as i64),
        k == ticks_needed(t.left_millis as int) ==> {
            &&& step_spec(after_steps(t, t.run, k), t.run).1 == TimerStep::Finished
            &&& !step_spec(after_steps(t, t.run, k), t.run).0.is_running
            &&& !step_spec(after_steps(t, t.run, k), t.run).0.run_live
            &&& -1000 < step_spec(after_steps(t, t.run, k), t.run).0.left_millis <= 0
        },
    decreases k,
{
    let n = ticks_needed(t.left_millis as int);
    if k > 0 {
        let t1 = step_spec(t, t.run).0;
        assert(t.left_millis > 0);
        assert(t1 == TimerView { left_millis: (t.left_millis - 1000) as i64, ..t });
        if t1.left_millis >= 0 {
            assert(ticks_needed(t1.left_millis as int) == n - 1);
            lemma_countdown(t1, (k - 1) as nat);
        } else {
            assert(n == 1);
            assert(k == 1);
            assert(after_steps(t1, t.run, 0) == t1);
        }
        assert(after_steps(t, t.run, k) == after_steps(t1, t.run, (k - 1) as nat));
    } else {
        assert(after_steps(t, t.run, 0) == t);
    }
}

/// A stopped run stays ended: whatever happens to the timer's counting
/// afterwards (paused or let go on), no step of any run finishes or ticks
/// until a new run begins.
pub proof fn lemma_stopped_run_ends(t: TimerView, counting: bool, run: u64)
    ensures
        step_spec(TimerView { is_running: counting, ..stop_spec(t) }, run).1 == TimerStep::Ended,
{
}

/// A new run replaces the old one: the old run's loop ends at its next step,
/// and the new run counts from the full duration.
pub proof fn lemma_restart_replaces_run(t: TimerView, millis: i64)
    ensures
        step_spec(fresh_run(t, millis), t.run).1 == TimerStep::Ended,
        fresh_run(t, millis).left_millis == millis,
        fresh_run(t, millis).is_running,
{
}

/// Stopping a timer, whatever it was doing, lets a new run start; a run that
/// still has time left refuses a new one and is left as it was.
pub proof fn lemma_stop_then_start(t: TimerView, millis: i64)
    ensures
        start_spec(stop_spec(t), millis).1 is Ok,
        start_spec(stop_spec(t), millis).0.left_millis == millis,
        t.left_millis > 0 ==> start_spec(t, millis).0 == t && start_spec(t, millis).1 is Err,
{
}

} // verus!
