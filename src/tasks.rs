use vstd::prelude::*;

use crate::clock::TICKS_PER_SECOND;
use crate::gpio::{led_level, level_for_led, InputLine, Level};

verus! {

/// Interval at which the toggle task re-arms itself: one second.
pub const TOGGLE_PERIOD: u64 = TICKS_PER_SECOND;

/// LED state after `n` runs of the toggle task from boot, where it is off.
pub open spec fn led_on_after(n: nat) -> bool
    decreases n,
{
    if n == 0 {
        false
    } else {
        !led_on_after((n - 1) as nat)
    }
}

/// State owned by the toggle task alone.
#[derive(Clone, Copy, Debug, PartialEq, Eq, Structural)]
pub struct ToggleTask {
    pub led_on: bool,
}

impl ToggleTask {
    /// The state at boot: LED off.
    pub fn new() -> (r: Self)
        ensures
            r.led_on == led_on_after(0),
    {
        ToggleTask { led_on: false }
    }

    /// One run: negates the state and gives the level to drive the LED to.
    pub fn toggle(&mut self) -> (r: Level)
        ensures
            final(self).led_on == !old(self).led_on,
            r == led_level(final(self).led_on),
    {
        self.led_on = !self.led_on;
        level_for_led(self.led_on)
    }
}

/// The LED alternates strictly over consecutive runs of the toggle task,
/// starting from off at boot: it is on after an odd number of runs.
pub proof fn led_alternates(n: nat)
    ensures
        !led_on_after(0),
        led_on_after(n + 1) != led_on_after(n),
        led_on_after(n) == (n % 2 == 1),
        led_level(led_on_after(n + 1)) != led_level(led_on_after(n)),
    decreases n,
{
    if n > 0 {
        led_alternates((n - 1) as nat);
    }
}

/// State owned by the button task: how often it has run.
#[derive(Clone, Copy, Debug, PartialEq, Eq, Structural)]
pub struct ButtonTask {
    pub runs: u64,
}

impl ButtonTask {
    pub fn new() -> (r: Self)
        ensures
            r.runs == 0,
    {
        ButtonTask { runs: 0 }
    }

    /// One run on an edge interrupt: clears the line's pending flag first,
    /// then samples and reports the line's level. There is no debounce: each
    /// invocation runs and reports.
    pub fn on_edge(&mut self, line: &mut InputLine) -> (r: Level)
        requires
            old(self).runs < u64::MAX,
        ensures
            final(self).runs == old(self).runs + 1,
            *final(line) == (InputLine { level: old(line).level, pending: false }),
            r == old(line).level,
    {
        line.clear_interrupt();
        self.runs = self.runs + 1;
        if line.is_high() {
            Level::High
        } else {
            Level::Low
        }
    }
}

} // verus!
