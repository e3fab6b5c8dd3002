//! The 60 Hz countdown timers (delay and sound).
use vstd::prelude::*;

verus! {

/// What a timer holds: its count and whether it has been started.
pub struct TimerState {
    pub value: u8,
    pub running: bool,
}

/// One period of the timer: a started timer above zero counts down by one.
pub open spec fn ticked(s: TimerState) -> TimerState {
    if s.running && s.value > 0 {
        TimerState { value: (s.value - 1) as u8, running: s.running }
    } else {
        s
    }
}

/// `n` periods of the timer.
pub open spec fn ticked_n(s: TimerState, n: nat) -> TimerState
    decreases n,
{
    if n == 0 {
        s
    } else {
        ticked(ticked_n(s, (n - 1) as nat))
    }
}

/// A countdown counter that, once started, loses one every 1/60 s, down to 0.
/// The host calls `tick` once per period; `set` overrides the count at any time.
pub struct Timer {
    value: u8,
    running: bool,
}

impl View for Timer {
    type V = TimerState;

    closed spec fn view(&self) -> TimerState {
        TimerState { value: self.value, running: self.running }
    }
}

impl Timer {
    /// A stopped timer at zero.
    pub fn new() -> (r: Timer)
        ensures
            r@ == (TimerState { value: 0, running: false }),
    {
        Timer { value: 0, running: false }
    }

    /// Overwrites the count at once.
    pub fn set(&mut self, value: u8)
        ensures
            final(self)@ == (TimerState { value, running: old(self)@.running }),
    {
        self.value = value;
    }

    /// The current count.
    pub fn get(&self) -> (r: u8)
        ensures
            r == self@.value,
    {
        self.value
    }

    /// Whether the countdown has begun.
    pub fn is_running(&self) -> (r: bool)
        ensures
            r == self@.running,
    {
        self.running
    }

    /// Begins the countdown; from now on each `tick` counts down.
    pub fn start(&mut self)
        ensures
            final(self)@ == (TimerState { value: old(self)@.value, running: true }),
    {
        self.running = true;
    }

    /// One period elapsed.
    pub fn tick(&mut self)
        ensures
            final(self)@ == ticked(old(self)@),
    {
        if self.running && self.value > 0 {
            self.value = self.value - 1;
        }
    }
}

/// A started timer set to `v` reads `v - n` after `n` periods, and 0 once
/// `n >= v`: it never goes below zero.
pub proof fn lemma_timer_decay(v: u8, n: nat)
    ensures
        ticked_n(TimerState { value: v, running: true }, n).value == if n >= v {
            0
        } else {
            v - n
        },
        ticked_n(TimerState { value: v, running: true }, n).running,
    decreases n,
{
    if n > 0 {
        lemma_timer_decay(v, (n - 1) as nat);
    }
}

} // verus!
