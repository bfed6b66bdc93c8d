use vstd::prelude::*;

verus! {

/// Rate of the monotonic tick counter.
pub const TICKS_PER_SECOND: u64 = 1_000_000;

/// A free-running tick counter with one compare alarm.
///
/// The counter never moves backwards and is never reset; the alarm, when
/// armed, asks for an interrupt at or after the given tick.
pub struct MonotonicClock {
    ticks: u64,
    alarm: Option<u64>,
}

impl MonotonicClock {
    /// Current tick count.
    pub closed spec fn time(&self) -> u64 {
        self.ticks
    }

    /// Tick at which the alarm is programmed to fire, if armed.
    pub closed spec fn armed(&self) -> Option<u64> {
        self.alarm
    }

    /// A counter at tick zero with no alarm.
    pub fn new() -> (r: Self)
        ensures
            r.time() == 0,
            r.armed() is None,
    {
        MonotonicClock { ticks: 0, alarm: None }
    }

    pub fn now(&self) -> (r: u64)
        ensures
            r == self.time(),
    {
        self.ticks
    }

    pub fn alarm(&self) -> (r: Option<u64>)
        ensures
            r == self.armed(),
    {
        self.alarm
    }

    /// Programs the alarm for `at`, replacing any earlier setting; a tick in
    /// the past fires at once.
    pub fn arm(&mut self, at: u64)
        ensures
            final(self).time() == old(self).time(),
            final(self).armed() == Some(at),
    {
        self.alarm = Some(at);
    }

    pub fn disarm(&mut self)
        ensures
            final(self).time() == old(self).time(),
            final(self).armed() is None,
    {
        self.alarm = None;
    }

    /// Whether the alarm interrupt is raised: armed for a tick already reached.
    pub fn alarm_fired(&self) -> (r: bool)
        ensures
            r == (self.armed() is Some && self.armed()->0 <= self.time()),
    {
        match self.alarm {
            Some(at) => at <= self.ticks,
            None => false,
        }
    }

    /// The counter moves on by `d` ticks.
    pub fn advance(&mut self, d: u64)
        requires
            old(self).time() + d <= u64::MAX,
        ensures
            final(self).time() == old(self).time() + d,
            final(self).armed() == old(self).armed(),
    {
        self.ticks = self.ticks + d;
    }
}

} // verus!
