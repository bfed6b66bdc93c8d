use vstd::prelude::*;

use crate::dispatcher::{due_of, is_ready, Binding, Dispatcher, SlotState, SpawnError, TaskSlot};
use crate::gpio::{led_level, level_for_led, InputLine, Level, OutputLine};
use crate::tasks::{led_alternates, led_on_after, ButtonTask, ToggleTask, TOGGLE_PERIOD};

verus! {

/// Slot of the periodic LED toggle task.
pub const TOGGLE_TASK: usize = 0;

/// Slot of the button task, run by the GPIO bank interrupt.
pub const BUTTON_TASK: usize = 1;

/// Interrupt vector of the GPIO bank that the button line raises.
pub const BUTTON_VECTOR: u16 = 13;

/// Priority of both application tasks.
pub const TASK_PRIORITY: u8 = 1;

/// The board as the dispatcher sees it: the clock and task queue, the two
/// tasks with the state each owns, the LED and button lines, and a count of
/// task runs.
pub struct System {
    dispatcher: Dispatcher,
    toggle: ToggleTask,
    led: OutputLine,
    button: ButtonTask,
    button_line: InputLine,
    work: u64,
    toggles: u64,
    last_toggle: Option<u64>,
}

impl System {
    pub closed spec fn queue(&self) -> Dispatcher {
        self.dispatcher
    }

    pub closed spec fn led_is_on(&self) -> bool {
        self.toggle.led_on
    }

    pub closed spec fn led_line(&self) -> OutputLine {
        self.led
    }

    pub closed spec fn line(&self) -> InputLine {
        self.button_line
    }

    pub closed spec fn button_run_count(&self) -> u64 {
        self.button.runs
    }

    /// Runs of any task.
    pub closed spec fn work(&self) -> u64 {
        self.work
    }

    /// Runs of the toggle task.
    pub closed spec fn toggles(&self) -> u64 {
        self.toggles
    }

    /// Tick of the latest toggle-task run.
    pub closed spec fn last_toggle_at(&self) -> Option<u64> {
        self.last_toggle
    }

    pub open spec fn toggle_slot(&self) -> SlotState {
        self.queue().tasks()[TOGGLE_TASK as int].state
    }

    /// Whether the toggle task is ready to run at the current tick.
    pub open spec fn toggle_ready(&self) -> bool {
        is_ready(self.queue().tasks()[TOGGLE_TASK as int], self.queue().time())
    }

    /// Everything the invariant holds but how the toggle task's last run and
    /// its next due tick relate.
    pub open spec fn wf_state(&self) -> bool {
        &&& self.queue().wf()
        &&& self.queue().tasks().len() == 2
        &&& self.queue().tasks()[TOGGLE_TASK as int].priority == TASK_PRIORITY
        &&& self.queue().tasks()[BUTTON_TASK as int] == (TaskSlot { priority: TASK_PRIORITY, state: SlotState::Idle })
        &&& self.queue().vectors() == seq![Binding { vector: BUTTON_VECTOR, task: BUTTON_TASK }]
        &&& self.led_is_on() == led_on_after(self.toggles() as nat)
        &&& self.led_line().level == led_level(self.led_is_on())
        &&& self.work() == self.toggles() + self.button_run_count()
    }

    pub open spec fn wf(&self) -> bool {
        &&& self.wf_state()
        &&& match self.last_toggle_at() {
            None => self.toggles() == 0 && self.toggle_slot() == SlotState::Queued(None),
            Some(a) => {
                &&& a <= self.queue().time()
                &&& (self.toggle_slot() == SlotState::Idle || (a + TOGGLE_PERIOD <= u64::MAX
                    && self.toggle_slot() == SlotState::Queued(Some((a + TOGGLE_PERIOD) as u64))))
            },
        }
    }

    /// Boot: the LED off, the button line pulled up, the button task bound to
    /// its interrupt vector and the toggle task queued to run at once.
    pub fn init() -> (r: System)
        ensures
            r.wf(),
            r.queue().time() == 0,
            r.queue().armed() is None,
            r.work() == 0,
            r.toggles() == 0,
            r.button_run_count() == 0,
            !r.led_is_on(),
            r.led_line().level == Level::High,
            r.line() == (InputLine { level: Level::High, pending: false }),
            r.last_toggle_at() is None,
            r.toggle_slot() == SlotState::Queued(None),
    {
        let mut priorities: Vec<u8> = Vec::new();
        priorities.push(TASK_PRIORITY);
        priorities.push(TASK_PRIORITY);
        let mut dispatcher = Dispatcher::new(&priorities);
        let bound = dispatcher.bind(BUTTON_VECTOR, BUTTON_TASK);
        assert(bound is Ok);
        let spawned = dispatcher.spawn_now(TOGGLE_TASK);
        assert(spawned is Ok);
        let toggle = ToggleTask::new();
        let mut led = OutputLine { level: Level::High };
        led.set(level_for_led(toggle.led_on));
        let r = System {
            dispatcher,
            toggle,
            led,
            button: ButtonTask::new(),
            button_line: InputLine::pulled_up(),
            work: 0,
            toggles: 0,
            last_toggle: None,
        };
        assert(r.queue().vectors() =~= seq![Binding { vector: BUTTON_VECTOR, task: BUTTON_TASK }]);
        r
    }

    /// One run of the toggle task, taken off the queue: negate the state,
    /// drive the LED, and re-arm for one period from now. A rejected re-arm
    /// is handed back and leaves the task unscheduled.
    fn toggle_task(&mut self) -> (r: Result<u64, SpawnError>)
        requires
            old(self).wf_state(),
            old(self).toggle_slot() == SlotState::Idle,
            old(self).work() < u64::MAX,
        ensures
            final(self).wf_state(),
            final(self).queue().time() == old(self).queue().time(),
            final(self).toggles() == old(self).toggles() + 1,
            final(self).work() == old(self).work() + 1,
            final(self).led_is_on() == !old(self).led_is_on(),
            final(self).button_run_count() == old(self).button_run_count(),
            final(self).line() == old(self).line(),
            final(self).last_toggle_at() == Some(old(self).queue().time()),
            old(self).queue().time() + TOGGLE_PERIOD <= u64::MAX ==> {
                &&& r == Ok::<u64, SpawnError>((old(self).queue().time() + TOGGLE_PERIOD) as u64)
                &&& final(self).toggle_slot() == SlotState::Queued(Some(r->Ok_0))
            },
            old(self).queue().time() + TOGGLE_PERIOD > u64::MAX ==> {
                &&& r == Err::<u64, SpawnError>(SpawnError::BeyondHorizon)
                &&& final(self).toggle_slot() == SlotState::Idle
            },
    {
        let level = self.toggle.toggle();
        self.led.set(level);
        self.toggles = self.toggles + 1;
        self.work = self.work + 1;
        self.last_toggle = Some(self.dispatcher.now());
        proof {
            led_alternates(old(self).toggles() as nat);
        }
        self.dispatcher.spawn_after(TOGGLE_TASK, TOGGLE_PERIOD)
    }

    /// Dispatch on the timer alarm: runs the task that is ready at the
    /// current tick, if any. Only the toggle task is ever queued. A task is
    /// never handed out before its due tick, so consecutive toggle runs lie at
    /// least one period apart.
    pub fn dispatch(&mut self) -> (r: Result<Option<usize>, SpawnError>)
        requires
            old(self).wf(),
            old(self).work() < u64::MAX,
        ensures
            final(self).wf(),
            final(self).queue().time() == old(self).queue().time(),
            !old(self).toggle_ready() ==> r == Ok::<Option<usize>, SpawnError>(None),
            !old(self).toggle_ready() ==> *final(self) == *old(self),
            old(self).toggle_ready() ==> {
                &&& final(self).toggles() == old(self).toggles() + 1
                &&& final(self).work() == old(self).work() + 1
                &&& final(self).led_is_on() == !old(self).led_is_on()
                &&& final(self).button_run_count() == old(self).button_run_count()
                &&& final(self).line() == old(self).line()
                &&& final(self).last_toggle_at() == Some(old(self).queue().time())
                &&& (old(self).last_toggle_at() matches Some(a) ==> a + TOGGLE_PERIOD
                    <= old(self).queue().time())
                &&& (old(self).queue().time() + TOGGLE_PERIOD <= u64::MAX ==> {
                    &&& r == Ok::<Option<usize>, SpawnError>(Some(TOGGLE_TASK))
                    &&& final(self).queue().armed() == Some(
                        (old(self).queue().time() + TOGGLE_PERIOD) as u64,
                    )
                    &&& final(self).toggle_slot() == SlotState::Queued(
                        Some((old(self).queue().time() + TOGGLE_PERIOD) as u64),
                    )
                })
                &&& (old(self).queue().time() + TOGGLE_PERIOD > u64::MAX ==> {
                    &&& r == Err::<Option<usize>, SpawnError>(SpawnError::BeyondHorizon)
                    &&& final(self).toggle_slot() == SlotState::Idle
                })
            },
            !final(self).toggle_ready(),
    {
        proof {
            assert(!is_ready(self.queue().tasks()[BUTTON_TASK as int], self.queue().time()));
        }
        match self.dispatcher.take_ready() {
            None => Ok(None),
            Some(t) => {
                assert(t == TOGGLE_TASK);
                let r = self.toggle_task();
                proof {
                    alarm_is_toggle_due(self.queue());
                }
                match r {
                    Ok(_) => Ok(Some(t)),
                    Err(e) => Err(e),
                }
            },
        }
    }

    /// Interrupt prologue: runs the task bound to `vector`, if any. The button
    /// task reports the level of its line.
    pub fn interrupt(&mut self, vector: u16) -> (r: Option<Level>)
        requires
            old(self).wf(),
            old(self).work() < u64::MAX,
        ensures
            final(self).wf(),
            vector != BUTTON_VECTOR ==> r is None,
            vector != BUTTON_VECTOR ==> *final(self) == *old(self),
            vector == BUTTON_VECTOR ==> {
                &&& r == Some(old(self).line().level)
                &&& final(self).line() == (InputLine { level: old(self).line().level, pending: false })
                &&& final(self).button_run_count() == old(self).button_run_count() + 1
                &&& final(self).work() == old(self).work() + 1
                &&& final(self).toggles() == old(self).toggles()
                &&& final(self).led_is_on() == old(self).led_is_on()
                &&& final(self).queue() == old(self).queue()
                &&& final(self).last_toggle_at() == old(self).last_toggle_at()
            },
    {
        match self.dispatcher.bound_task(vector) {
            Some(t) => {
                assert(self.queue().vectors()[0] == Binding { vector: BUTTON_VECTOR, task: BUTTON_TASK });
                assert(t == BUTTON_TASK);
                Some(self.button_irq())
            },
            None => {
                assert(self.queue().vectors()[0].vector != vector);
                None
            },
        }
    }

    /// The button line sees an edge to `level` and raises its interrupt, which
    /// runs the button task at once. Edges are neither debounced nor merged.
    pub fn edge_interrupt(&mut self, level: Level) -> (r: Option<Level>)
        requires
            old(self).wf(),
            old(self).work() < u64::MAX,
        ensures
            final(self).wf(),
            r == Some(level),
            final(self).line() == (InputLine { level, pending: false }),
            final(self).button_run_count() == old(self).button_run_count() + 1,
            final(self).work() == old(self).work() + 1,
            final(self).toggles() == old(self).toggles(),
            final(self).led_is_on() == old(self).led_is_on(),
            final(self).queue() == old(self).queue(),
            final(self).last_toggle_at() == old(self).last_toggle_at(),
    {
        self.button_line.edge(level);
        self.interrupt(BUTTON_VECTOR)
    }

    /// Service routine of the button line: clear the pending flag, then
    /// sample the line.
    fn button_irq(&mut self) -> (r: Level)
        requires
            old(self).wf(),
            old(self).work() < u64::MAX,
        ensures
            final(self).wf(),
            r == old(self).line().level,
            final(self).line() == (InputLine { level: old(self).line().level, pending: false }),
            final(self).button_run_count() == old(self).button_run_count() + 1,
            final(self).work() == old(self).work() + 1,
            final(self).toggles() == old(self).toggles(),
            final(self).led_is_on() == old(self).led_is_on(),
            final(self).queue() == old(self).queue(),
            final(self).last_toggle_at() == old(self).last_toggle_at(),
    {
        self.work = self.work + 1;
        self.button.on_edge(&mut self.button_line)
    }

    /// Idle loop: with no task ready, wait without running any task until
    /// the alarm's tick or `limit`, whichever comes first, and return the tick
    /// reached. With a task ready there is no wait.
    pub fn idle(&mut self, limit: u64) -> (r: u64)
        requires
            old(self).wf(),
        ensures
            final(self).wf(),
            r == final(self).queue().time(),
            final(self).work() == old(self).work(),
            final(self).toggles() == old(self).toggles(),
            final(self).button_run_count() == old(self).button_run_count(),
            final(self).led_is_on() == old(self).led_is_on(),
            final(self).line() == old(self).line(),
            final(self).last_toggle_at() == old(self).last_toggle_at(),
            final(self).queue().tasks() == old(self).queue().tasks(),
            final(self).queue().armed() == old(self).queue().armed(),
            old(self).toggle_ready() ==> r == old(self).queue().time(),
            !old(self).toggle_ready() ==> r == wake_tick(
                old(self).queue().time(),
                old(self).queue().armed(),
                limit,
            ),
    {
        let now = self.dispatcher.now();
        if self.toggle_ready_now() {
            return now;
        }
        let target = match self.dispatcher.alarm() {
            Some(at) => if at < limit { at } else { limit },
            None => limit,
        };
        if target > now {
            self.dispatcher.advance(target - now);
        }
        self.dispatcher.now()
    }

    fn toggle_ready_now(&self) -> (r: bool)
        requires
            self.wf(),
        ensures
            r == self.toggle_ready(),
    {
        let now = self.dispatcher.now();
        match self.dispatcher.slot(TOGGLE_TASK).state {
            SlotState::Idle => false,
            SlotState::Queued(None) => true,
            SlotState::Queued(Some(due)) => due <= now,
        }
    }

    pub fn now(&self) -> (r: u64)
        ensures
            r == self.queue().time(),
    {
        self.dispatcher.now()
    }

    pub fn alarm(&self) -> (r: Option<u64>)
        ensures
            r == self.queue().armed(),
    {
        self.dispatcher.alarm()
    }

    pub fn toggle_state(&self) -> (r: SlotState)
        requires
            self.wf(),
        ensures
            r == self.toggle_slot(),
    {
        self.dispatcher.slot(TOGGLE_TASK).state
    }

    pub fn work_count(&self) -> (r: u64)
        ensures
            r == self.work(),
    {
        self.work
    }

    pub fn toggle_count(&self) -> (r: u64)
        ensures
            r == self.toggles(),
    {
        self.toggles
    }

    pub fn last_toggle(&self) -> (r: Option<u64>)
        ensures
            r == self.last_toggle_at(),
    {
        self.last_toggle
    }

    pub fn led_on(&self) -> (r: bool)
        ensures
            r == self.led_is_on(),
    {
        self.toggle.led_on
    }

    pub fn led_level(&self) -> (r: Level)
        ensures
            r == self.led_line().level,
    {
        self.led.level
    }

    pub fn button_runs(&self) -> (r: u64)
        ensures
            r == self.button_run_count(),
    {
        self.button.runs
    }

    pub fn button_line(&self) -> (r: InputLine)
        ensures
            r == self.line(),
    {
        self.button_line
    }
}

/// The tick at which the idle wait from `now` ends: the alarm's tick when it
/// comes before `limit`, else `limit`, and never earlier than `now`.
pub open spec fn wake_tick(now: u64, alarm: Option<u64>, limit: u64) -> u64 {
    let target = match alarm {
        Some(at) => if at < limit { at } else { limit },
        None => limit,
    };
    if target > now { target } else { now }
}

/// In every reachable state the LED is on exactly when the toggle task has
/// run an odd number of times: it starts off at boot and each run flips it.
pub proof fn led_follows_toggle_runs(s: System)
    requires
        s.wf(),
    ensures
        s.led_is_on() == (s.toggles() % 2 == 1),
        s.led_line().level == led_level(s.toggles() % 2 == 1),
{
    led_alternates(s.toggles() as nat);
}

/// With the button slot idle, the alarm is the toggle task's due tick.
proof fn alarm_is_toggle_due(d: Dispatcher)
    requires
        d.wf(),
        d.tasks().len() == 2,
        d.tasks()[BUTTON_TASK as int].state == SlotState::Idle,
    ensures
        d.armed() == due_of(d.tasks()[TOGGLE_TASK as int]),
{
    let s = d.tasks();
    assert(due_of(s[1]) is None);
    match d.armed() {
        Some(t) => {
            let i = choose|i: int| 0 <= i < s.len() && #[trigger] due_of(s[i]) == Some(t);
            assert(i == 0);
        },
        None => {
            assert(due_of(s[0]) is None);
        },
    }
}

} // verus!
