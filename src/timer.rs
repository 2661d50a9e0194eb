use vstd::arithmetic::div_mod::{lemma_div_plus_one, lemma_mod_add_multiples_vanish, lemma_mod_bound};
use vstd::prelude::*;

verus! {

/// Whether a timer fires once, or keeps firing every interval.
#[derive(Clone, Copy, Debug, PartialEq, Eq, Structural)]
pub enum TimerMode {
    Once,
    Repeating,
}

/// A countdown measured in milliseconds.
///
/// A one-shot timer stops at its duration and ignores further ticks until it
/// is reset; a repeating timer wraps its elapsed time modulo the duration and
/// records how many intervals were crossed on the last tick.
#[derive(Clone, Copy, Debug, PartialEq, Eq, Structural)]
pub struct Timer {
    pub duration: u64,
    pub elapsed: u64,
    pub mode: TimerMode,
    pub finished: bool,
    pub times_finished_this_tick: u64,
}

impl Timer {
    pub open spec fn wf(self) -> bool {
        &&& self.duration > 0
        &&& self.elapsed <= self.duration
        &&& self.mode == TimerMode::Repeating ==> self.elapsed < self.duration
        &&& self.mode == TimerMode::Once ==> (self.finished <==> self.elapsed == self.duration)
    }

    pub open spec fn new_spec(duration: u64, mode: TimerMode) -> Timer {
        Timer { duration, elapsed: 0, mode, finished: false, times_finished_this_tick: 0 }
    }

    /// The timer after `delta` more milliseconds have passed.
    pub open spec fn after_tick(self, delta: u64) -> Timer {
        let total = self.elapsed + delta;
        if self.mode == TimerMode::Once && self.finished {
            Timer { times_finished_this_tick: 0, ..self }
        } else if total < self.duration {
            Timer { elapsed: total as u64, finished: false, times_finished_this_tick: 0, ..self }
        } else if self.mode == TimerMode::Repeating {
            Timer {
                elapsed: (total % (self.duration as int)) as u64,
                finished: true,
                times_finished_this_tick: (total / (self.duration as int)) as u64,
                ..self
            }
        } else {
            Timer { elapsed: self.duration, finished: true, times_finished_this_tick: 1, ..self }
        }
    }

    /// The timer put back to zero elapsed time.
    pub open spec fn after_reset(self) -> Timer {
        Timer { elapsed: 0, finished: false, times_finished_this_tick: 0, ..self }
    }

    /// Ticking and resetting keep a timer well formed.
    pub proof fn lemma_steps_wf(self, delta: u64)
        requires
            self.wf(),
        ensures
            self.after_tick(delta).wf(),
            self.after_reset().wf(),
            self.after_tick(delta).duration == self.duration,
            self.after_tick(delta).mode == self.mode,
    {
        lemma_mod_bound(self.elapsed + delta, self.duration as int);
    }

    pub fn new(duration: u64, mode: TimerMode) -> (t: Timer)
        requires
            duration > 0,
        ensures
            t.wf(),
            t == Timer::new_spec(duration, mode),
    {
        Timer { duration, elapsed: 0, mode, finished: false, times_finished_this_tick: 0 }
    }

    /// Advances the timer by `delta` milliseconds.
    pub fn tick(&mut self, delta: u64)
        requires
            old(self).wf(),
        ensures
            final(self).wf(),
            *final(self) == old(self).after_tick(delta),
    {
        if self.mode == TimerMode::Once && self.finished {
            self.times_finished_this_tick = 0;
            return;
        }
        let room = self.duration - self.elapsed;
        if delta < room {
            self.elapsed = self.elapsed + delta;
            self.finished = false;
            self.times_finished_this_tick = 0;
        } else {
            match self.mode {
                TimerMode::Repeating => {
                    let over = delta - room;
                    proof {
                        let d = self.duration as int;
                        lemma_div_plus_one(over as int, d);
                        lemma_mod_add_multiples_vanish(over as int, d);
                        assert(self.elapsed + delta == d + over);
                    }
                    self.elapsed = over % self.duration;
                    self.times_finished_this_tick = 1 + over / self.duration;
                    self.finished = true;
                },
                TimerMode::Once => {
                    self.elapsed = self.duration;
                    self.times_finished_this_tick = 1;
                    self.finished = true;
                },
            }
        }
    }

    /// Puts the elapsed time back to zero.
    pub fn reset(&mut self)
        requires
            old(self).wf(),
        ensures
            final(self).wf(),
            *final(self) == old(self).after_reset(),
    {
        self.elapsed = 0;
        self.finished = false;
        self.times_finished_this_tick = 0;
    }

    /// True once the elapsed time has reached the duration (a repeating
    /// timer: on the tick that crossed it).
    pub fn finished(&self) -> (r: bool)
        ensures
            r == self.finished,
    {
        self.finished
    }

    /// True only on a tick that crossed the duration.
    pub fn just_finished(&self) -> (r: bool)
        ensures
            r == (self.times_finished_this_tick > 0),
    {
        self.times_finished_this_tick > 0
    }

    /// True while no time has accumulated since the last reset.
    pub fn at_start(&self) -> (r: bool)
        ensures
            r == (self.elapsed == 0),
    {
        self.elapsed == 0
    }
}

} // verus!
