use vstd::prelude::*;

verus! {

/// Logical level of a GPIO line.
#[derive(Clone, Copy, Debug, PartialEq, Eq, Structural)]
pub enum Level {
    Low,
    High,
}

/// The LED is wired active-low: driving the line low lights it.
pub open spec fn led_level(on: bool) -> Level {
    if on { Level::Low } else { Level::High }
}

/// Level to drive the LED line to for the given on/off state.
pub fn level_for_led(on: bool) -> (r: Level)
    ensures
        r == led_level(on),
{
    if on { Level::Low } else { Level::High }
}

/// A push-pull output line.
#[derive(Clone, Copy, Debug, PartialEq, Eq, Structural)]
pub struct OutputLine {
    pub level: Level,
}

impl OutputLine {
    pub fn set(&mut self, level: Level)
        ensures
            final(self).level == level,
    {
        self.level = level;
    }
}

/// A pulled-up input line with an edge-interrupt pending flag.
#[derive(Clone, Copy, Debug, PartialEq, Eq, Structural)]
pub struct InputLine {
    pub level: Level,
    pub pending: bool,
}

impl InputLine {
    /// An idle pulled-up line: high, nothing pending.
    pub fn pulled_up() -> (r: Self)
        ensures
            r == (InputLine { level: Level::High, pending: false }),
    {
        InputLine { level: Level::High, pending: false }
    }

    /// The line is driven to `level` and raises its edge flag.
    pub fn edge(&mut self, level: Level)
        ensures
            *final(self) == (InputLine { level, pending: true }),
    {
        self.level = level;
        self.pending = true;
    }

    pub fn clear_interrupt(&mut self)
        ensures
            *final(self) == (InputLine { level: old(self).level, pending: false }),
    {
        self.pending = false;
    }

    pub fn is_high(&self) -> (r: bool)
        ensures
            r == (self.level == Level::High),
    {
        self.level == Level::High
    }
}

} // verus!
