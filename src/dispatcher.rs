use vstd::prelude::*;

use crate::clock::MonotonicClock;

verus! {

/// Scheduling state of one task. A task that `take_ready` hands out is no
/// longer queued while it runs, so it may queue itself again.
#[derive(Clone, Copy, Debug, PartialEq, Eq, Structural)]
pub enum SlotState {
    Idle,
    /// Waiting to run: at once (`None`) or from the given tick on.
    Queued(Option<u64>),
}

#[derive(Clone, Copy, Debug, PartialEq, Eq, Structural)]
pub struct TaskSlot {
    pub priority: u8,
    pub state: SlotState,
}

/// Static association of an interrupt vector with the task it runs.
#[derive(Clone, Copy, Debug, PartialEq, Eq, Structural)]
pub struct Binding {
    pub vector: u16,
    pub task: usize,
}

#[derive(Clone, Copy, Debug, PartialEq, Eq, Structural)]
pub enum SpawnError {
    UnknownTask,
    /// The task is already queued; the earlier request stands.
    AlreadyScheduled,
    /// The due tick would not fit in the counter.
    BeyondHorizon,
}

#[derive(Clone, Copy, Debug, PartialEq, Eq, Structural)]
pub enum BindError {
    UnknownTask,
    VectorTaken,
}

pub open spec fn is_ready(s: TaskSlot, now: u64) -> bool {
    match s.state {
        SlotState::Idle => false,
        SlotState::Queued(None) => true,
        SlotState::Queued(Some(due)) => due <= now,
    }
}

pub open spec fn due_of(s: TaskSlot) -> Option<u64> {
    match s.state {
        SlotState::Queued(Some(due)) => Some(due),
        _ => None,
    }
}

/// `alarm` is the earliest due tick among the timed slots, or `None` when
/// there is none.
pub open spec fn is_earliest_due(slots: Seq<TaskSlot>, alarm: Option<u64>) -> bool {
    match alarm {
        None => forall|i: int| 0 <= i < slots.len() ==> (#[trigger] due_of(slots[i])) is None,
        Some(t) => {
            &&& exists|i: int| 0 <= i < slots.len() && #[trigger] due_of(slots[i]) == Some(t)
            &&& forall|i: int|
                0 <= i < slots.len() && (#[trigger] due_of(slots[i])) is Some ==> t <= due_of(
                    slots[i],
                )->0
        },
    }
}

pub open spec fn earlier(a: Option<u64>, t: u64) -> Option<u64> {
    match a {
        Some(x) => if x <= t { Some(x) } else { Some(t) },
        None => Some(t),
    }
}

pub open spec fn vectors_unique(b: Seq<Binding>) -> bool {
    forall|i: int, j: int| 0 <= i < j < b.len() ==> (#[trigger] b[i]).vector != (#[trigger] b[j]).vector
}

/// Single-core, priority-ordered, run-to-completion task dispatcher over a
/// monotonic clock.
pub struct Dispatcher {
    clock: MonotonicClock,
    slots: Vec<TaskSlot>,
    bindings: Vec<Binding>,
}

impl Dispatcher {
    pub closed spec fn time(&self) -> u64 {
        self.clock.time()
    }

    pub closed spec fn armed(&self) -> Option<u64> {
        self.clock.armed()
    }

    pub closed spec fn tasks(&self) -> Seq<TaskSlot> {
        self.slots@
    }

    pub closed spec fn vectors(&self) -> Seq<Binding> {
        self.bindings@
    }

    pub open spec fn wf(&self) -> bool {
        &&& is_earliest_due(self.tasks(), self.armed())
        &&& vectors_unique(self.vectors())
        &&& forall|i: int|
            0 <= i < self.vectors().len() ==> (#[trigger] self.vectors()[i]).task < self.tasks().len()
    }

    /// The outcome that `spawn_now` owes.
    pub open spec fn spawned_now(
        before: Dispatcher,
        after: Dispatcher,
        task: usize,
        r: Result<(), SpawnError>,
    ) -> bool {
        if task >= before.tasks().len() {
            r == Err::<(), SpawnError>(SpawnError::UnknownTask) && after == before
        } else if before.tasks()[task as int].state != SlotState::Idle {
            r == Err::<(), SpawnError>(SpawnError::AlreadyScheduled) && after == before
        } else {
            &&& r is Ok
            &&& after.tasks() == before.tasks().update(
                task as int,
                TaskSlot { priority: before.tasks()[task as int].priority, state: SlotState::Queued(None) },
            )
            &&& after.time() == before.time()
            &&& after.armed() == before.armed()
            &&& after.vectors() == before.vectors()
        }
    }

    /// The outcome that `spawn_after` owes.
    pub open spec fn spawned_after(
        before: Dispatcher,
        after: Dispatcher,
        task: usize,
        d: u64,
        r: Result<u64, SpawnError>,
    ) -> bool {
        if task >= before.tasks().len() {
            r == Err::<u64, SpawnError>(SpawnError::UnknownTask) && after == before
        } else if before.tasks()[task as int].state != SlotState::Idle {
            r == Err::<u64, SpawnError>(SpawnError::AlreadyScheduled) && after == before
        } else if before.time() + d > u64::MAX {
            r == Err::<u64, SpawnError>(SpawnError::BeyondHorizon) && after == before
        } else {
            &&& r == Ok::<u64, SpawnError>((before.time() + d) as u64)
            &&& after.tasks() == before.tasks().update(
                task as int,
                TaskSlot {
                    priority: before.tasks()[task as int].priority,
                    state: SlotState::Queued(Some((before.time() + d) as u64)),
                },
            )
            &&& after.time() == before.time()
            &&& after.armed() == earlier(before.armed(), (before.time() + d) as u64)
            &&& after.vectors() == before.vectors()
        }
    }

    /// A dispatcher at tick zero with one idle slot per priority given.
    pub fn new(priorities: &Vec<u8>) -> (r: Self)
        ensures
            r.wf(),
            r.time() == 0,
            r.armed() is None,
            r.vectors().len() == 0,
            r.tasks().len() == priorities@.len(),
            forall|i: int|
                0 <= i < priorities@.len() ==> #[trigger] r.tasks()[i] == (TaskSlot {
                    priority: priorities@[i],
                    state: SlotState::Idle,
                }),
    {
        let mut slots: Vec<TaskSlot> = Vec::new();
        let mut i: usize = 0;
        while i < priorities.len()
            invariant
                i <= priorities@.len(),
                slots@.len() == i,
                forall|k: int|
                    0 <= k < i ==> #[trigger] slots@[k] == (TaskSlot {
                        priority: priorities@[k],
                        state: SlotState::Idle,
                    }),
            decreases priorities@.len() - i,
        {
            slots.push(TaskSlot { priority: priorities[i], state: SlotState::Idle });
            i = i + 1;
        }
        Dispatcher { clock: MonotonicClock::new(), slots, bindings: Vec::new() }
    }

    pub fn now(&self) -> (r: u64)
        ensures
            r == self.time(),
    {
        self.clock.now()
    }

    pub fn alarm(&self) -> (r: Option<u64>)
        ensures
            r == self.armed(),
    {
        self.clock.alarm()
    }

    pub fn task_count(&self) -> (r: usize)
        ensures
            r == self.tasks().len(),
    {
        self.slots.len()
    }

    pub fn slot(&self, task: usize) -> (r: TaskSlot)
        requires
            task < self.tasks().len(),
        ensures
            r == self.tasks()[task as int],
    {
        self.slots[task]
    }

    /// Whether some task waits to run, now or later.
    pub fn any_queued(&self) -> (r: bool)
        ensures
            r == exists|i: int|
                0 <= i < self.tasks().len() && (#[trigger] self.tasks()[i]).state != SlotState::Idle,
    {
        let mut i: usize = 0;
        while i < self.slots.len()
            invariant
                i <= self.slots@.len(),
                forall|k: int| 0 <= k < i ==> (#[trigger] self.slots@[k]).state == SlotState::Idle,
            decreases self.slots@.len() - i,
        {
            if self.slots[i].state != SlotState::Idle {
                return true;
            }
            i = i + 1;
        }
        false
    }

    /// The counter moves on by `d` ticks; no task runs.
    pub fn advance(&mut self, d: u64)
        requires
            old(self).time() + d <= u64::MAX,
        ensures
            final(self).time() == old(self).time() + d,
            final(self).armed() == old(self).armed(),
            final(self).tasks() == old(self).tasks(),
            final(self).vectors() == old(self).vectors(),
    {
        self.clock.advance(d);
    }

    /// Queues an idle task to run as soon as the processor is free.
    pub fn spawn_now(&mut self, task: usize) -> (r: Result<(), SpawnError>)
        requires
            old(self).wf(),
        ensures
            final(self).wf(),
            Self::spawned_now(*old(self), *final(self), task, r),
    {
        if task >= self.slots.len() {
            return Err(SpawnError::UnknownTask);
        }
        if self.slots[task].state != SlotState::Idle {
            return Err(SpawnError::AlreadyScheduled);
        }
        let priority = self.slots[task].priority;
        self.slots.set(task, TaskSlot { priority, state: SlotState::Queued(None) });
        proof {
            let s = self.slots@;
            assert forall|i: int| 0 <= i < s.len() implies #[trigger] due_of(s[i]) == due_of(
                old(self).slots@[i],
            ) by {
                if i == task {
                    assert(due_of(old(self).slots@[i]) is None);
                }
            }
            if let Some(t) = self.clock.armed() {
                let j = choose|j: int|
                    0 <= j < old(self).slots@.len() && #[trigger] due_of(old(self).slots@[j]) == Some(
                        t,
                    );
                assert(due_of(s[j]) == Some(t));
            }
        }
        Ok(())
    }

    /// Queues an idle task to run `d` ticks from now, and re-arms the alarm
    /// when that is the earliest due tick.
    pub fn spawn_after(&mut self, task: usize, d: u64) -> (r: Result<u64, SpawnError>)
        requires
            old(self).wf(),
        ensures
            final(self).wf(),
            Self::spawned_after(*old(self), *final(self), task, d, r),
    {
        if task >= self.slots.len() {
            return Err(SpawnError::UnknownTask);
        }
        if self.slots[task].state != SlotState::Idle {
            return Err(SpawnError::AlreadyScheduled);
        }
        let now = self.clock.now();
        if d > u64::MAX - now {
            return Err(SpawnError::BeyondHorizon);
        }
        let due = now + d;
        let priority = self.slots[task].priority;
        self.slots.set(task, TaskSlot { priority, state: SlotState::Queued(Some(due)) });
        let rearm = match self.clock.alarm() {
            Some(at) => due < at,
            None => true,
        };
        if rearm {
            self.clock.arm(due);
        }
        proof {
            let s = self.slots@;
            let o = old(self).slots@;
            assert(due_of(s[task as int]) == Some(due));
            assert forall|i: int| 0 <= i < s.len() && i != task implies #[trigger] due_of(s[i])
                == due_of(o[i]) by {}
            if !rearm {
                let t = old(self).clock.armed()->0;
                let j = choose|j: int| 0 <= j < o.len() && #[trigger] due_of(o[j]) == Some(t);
                assert(due_of(s[j]) == Some(t));
            }
        }
        Ok(due)
    }

    /// The outcome that `take_ready` owes: the highest-priority task ready at
    /// the current tick (the lowest index among equals) leaves the queue, or
    /// nothing changes when no task is ready.
    pub open spec fn took_ready(before: Dispatcher, after: Dispatcher, r: Option<usize>) -> bool {
        let s = before.tasks();
        let now = before.time();
        match r {
            None => {
                &&& forall|i: int| 0 <= i < s.len() ==> !is_ready(#[trigger] s[i], now)
                &&& after == before
            },
            Some(t) => {
                &&& t < s.len()
                &&& is_ready(s[t as int], now)
                &&& forall|i: int|
                    0 <= i < s.len() && is_ready(#[trigger] s[i], now) ==> s[i].priority
                        <= s[t as int].priority
                &&& forall|i: int|
                    0 <= i < t && is_ready(#[trigger] s[i], now) ==> s[i].priority < s[t as int].priority
                &&& after.tasks() == s.update(
                    t as int,
                    TaskSlot { priority: s[t as int].priority, state: SlotState::Idle },
                )
                &&& after.time() == now
                &&& after.vectors() == before.vectors()
            },
        }
    }

    /// Takes the task to run next off the queue. The alarm is re-armed for
    /// the earliest due tick that remains.
    pub fn take_ready(&mut self) -> (r: Option<usize>)
        requires
            old(self).wf(),
        ensures
            final(self).wf(),
            Self::took_ready(*old(self), *final(self), r),
    {
        let now = self.clock.now();
        let mut best: Option<usize> = None;
        let mut i: usize = 0;
        while i < self.slots.len()
            invariant
                i <= self.slots@.len(),
                now == self.clock.time(),
                match best {
                    None => forall|k: int| 0 <= k < i ==> !is_ready(#[trigger] self.slots@[k], now),
                    Some(b) => {
                        &&& b < i
                        &&& is_ready(self.slots@[b as int], now)
                        &&& forall|k: int|
                            0 <= k < i && is_ready(#[trigger] self.slots@[k], now)
                                ==> self.slots@[k].priority <= self.slots@[b as int].priority
                        &&& forall|k: int|
                            0 <= k < b && is_ready(#[trigger] self.slots@[k], now)
                                ==> self.slots@[k].priority < self.slots@[b as int].priority
                    },
                },
            decreases self.slots@.len() - i,
        {
            let slot = self.slots[i];
            let ready = match slot.state {
                SlotState::Idle => false,
                SlotState::Queued(None) => true,
                SlotState::Queued(Some(due)) => due <= now,
            };
            if ready {
                let better = match best {
                    Some(b) => self.slots[b].priority < slot.priority,
                    None => true,
                };
                if better {
                    best = Some(i);
                }
            }
            i = i + 1;
        }
        match best {
            None => None,
            Some(t) => {
                let priority = self.slots[t].priority;
                self.slots.set(t, TaskSlot { priority, state: SlotState::Idle });
                self.rearm();
                Some(t)
            },
        }
    }

    /// On the alarm: takes every task that is ready at the current tick off
    /// the queue, in the order they run: by priority, highest first, and by
    /// slot among equals.
    pub fn take_all_ready(&mut self) -> (r: Vec<usize>)
        requires
            old(self).wf(),
        ensures
            final(self).wf(),
            final(self).time() == old(self).time(),
            final(self).vectors() == old(self).vectors(),
            final(self).tasks().len() == old(self).tasks().len(),
            r@.no_duplicates(),
            forall|k: int|
                0 <= k < r@.len() ==> #[trigger] r@[k] < old(self).tasks().len() && is_ready(
                    old(self).tasks()[r@[k] as int],
                    old(self).time(),
                ),
            forall|i: int|
                0 <= i < old(self).tasks().len() && is_ready(#[trigger] old(self).tasks()[i], old(self).time())
                    ==> r@.contains(i as usize),
            forall|k: int, l: int|
                0 <= k < l < r@.len() ==> old(self).tasks()[#[trigger] r@[k] as int].priority
                    >= old(self).tasks()[#[trigger] r@[l] as int].priority,
            forall|i: int|
                0 <= i < old(self).tasks().len() ==> #[trigger] final(self).tasks()[i] == if r@.contains(
                    i as usize,
                ) {
                    TaskSlot { priority: old(self).tasks()[i].priority, state: SlotState::Idle }
                } else {
                    old(self).tasks()[i]
                },
    {
        let ghost start = self.tasks();
        let ghost now = self.time();
        let count = self.slots.len();
        let mut out: Vec<usize> = Vec::new();
        loop
            invariant
                self.wf(),
                self.time() == now,
                self.vectors() == old(self).vectors(),
                start == old(self).tasks(),
                now == old(self).time(),
                self.tasks().len() == start.len(),
                start.len() == count,
                out@.no_duplicates(),
                forall|k: int|
                    0 <= k < out@.len() ==> #[trigger] out@[k] < start.len() && is_ready(
                        start[out@[k] as int],
                        now,
                    ),
                forall|k: int, l: int|
                    0 <= k < l < out@.len() ==> start[#[trigger] out@[k] as int].priority
                        >= start[#[trigger] out@[l] as int].priority,
                forall|i: int|
                    0 <= i < start.len() && is_ready(#[trigger] self.tasks()[i], now) && out@.len() > 0
                        ==> start[i].priority <= start[out@.last() as int].priority,
                forall|i: int|
                    0 <= i < start.len() ==> #[trigger] self.tasks()[i] == if out@.contains(i as usize) {
                        TaskSlot { priority: start[i].priority, state: SlotState::Idle }
                    } else {
                        start[i]
                    },
            ensures
                forall|i: int| 0 <= i < start.len() ==> !is_ready(#[trigger] self.tasks()[i], now),
            decreases queued_count(self.tasks()),
        {
            let ghost before = self.tasks();
            match self.take_ready() {
                None => {
                    break;
                },
                Some(t) => {
                    proof {
                        queued_count_drops(before, t as int);
                        assert(!out@.contains(t)) by {
                            if out@.contains(t) {
                                assert(before[t as int].state == SlotState::Idle);
                            }
                        }
                        assert(before[t as int] == start[t as int]);
                    }
                    let ghost prev = out@;
                    out.push(t);
                    proof {
                        assert forall|i: int| 0 <= i < start.len() implies #[trigger] self.tasks()[i]
                            == if out@.contains(i as usize) {
                            TaskSlot { priority: start[i].priority, state: SlotState::Idle }
                        } else {
                            start[i]
                        } by {
                            if i != t {
                                assert(out@.contains(i as usize) == prev.contains(i as usize)) by {
                                    if out@.contains(i as usize) {
                                        let k = choose|k: int| 0 <= k < out@.len() && out@[k] == i as usize;
                                        assert(out@[prev.len() as int] == t);
                                        assert(k < prev.len());
                                        assert(prev[k] == out@[k]);
                                    }
                                    if prev.contains(i as usize) {
                                        let k = choose|k: int| 0 <= k < prev.len() && prev[k] == i as usize;
                                        assert(out@[k] == prev[k]);
                                    }
                                }
                            } else {
                                assert(out@[prev.len() as int] == t);
                            }
                        }
                        assert forall|i: int|
                            0 <= i < start.len() && is_ready(#[trigger] self.tasks()[i], now)
                                implies start[i].priority <= start[out@.last() as int].priority by {
                            assert(i != t);
                            assert(self.tasks()[i] == before[i]);
                            assert(is_ready(before[i], now));
                        }
                        assert forall|k: int, l: int| 0 <= k < l < out@.len() implies start[
                            #[trigger] out@[k] as int].priority >= start[#[trigger] out@[l] as int].priority by {
                            if l == prev.len() {
                                assert(out@[k] == prev[k]);
                                assert(is_ready(before[prev[k] as int], now) || before[prev[k] as int].state
                                    == SlotState::Idle);
                                if k == prev.len() - 1 {
                                } else {
                                    assert(start[prev[k] as int].priority >= start[prev.last() as int].priority);
                                }
                            } else {
                                assert(out@[k] == prev[k]);
                                assert(out@[l] == prev[l]);
                            }
                        }
                        assert forall|i: int, j: int| 0 <= i < j < out@.len() implies out@[i] != out@[j] by {
                            if j == prev.len() {
                                assert(out@[i] == prev[i]);
                                assert(prev.contains(prev[i]));
                            } else {
                                assert(out@[i] == prev[i]);
                                assert(out@[j] == prev[j]);
                            }
                        }
                    }
                },
            }
        }
        proof {
            assert forall|i: int|
                0 <= i < start.len() && is_ready(#[trigger] start[i], now) implies out@.contains(
                i as usize,
            ) by {
                if !out@.contains(i as usize) {
                    assert(self.tasks()[i] == start[i]);
                }
            }
        }
        out
    }

    /// Binds an interrupt vector to the task it runs; each vector runs one
    /// task.
    pub fn bind(&mut self, vector: u16, task: usize) -> (r: Result<(), BindError>)
        requires
            old(self).wf(),
        ensures
            final(self).wf(),
            final(self).tasks() == old(self).tasks(),
            final(self).time() == old(self).time(),
            final(self).armed() == old(self).armed(),
            task >= old(self).tasks().len() ==> r == Err::<(), BindError>(BindError::UnknownTask),
            task < old(self).tasks().len() && (exists|i: int|
                0 <= i < old(self).vectors().len() && (#[trigger] old(self).vectors()[i]).vector
                    == vector) ==> r == Err::<(), BindError>(BindError::VectorTaken),
            task < old(self).tasks().len() && (forall|i: int|
                0 <= i < old(self).vectors().len() ==> (#[trigger] old(self).vectors()[i]).vector
                    != vector) ==> r is Ok,
            r is Err ==> final(self).vectors() == old(self).vectors(),
            r is Ok ==> final(self).vectors() == old(self).vectors().push(
                Binding { vector, task },
            ),
    {
        if task >= self.slots.len() {
            return Err(BindError::UnknownTask);
        }
        match self.bound_task(vector) {
            Some(_) => Err(BindError::VectorTaken),
            None => {
                self.bindings.push(Binding { vector, task });
                Ok(())
            },
        }
    }

    /// The task bound to an interrupt vector.
    pub fn bound_task(&self, vector: u16) -> (r: Option<usize>)
        requires
            self.wf(),
        ensures
            r is None <==> forall|i: int|
                0 <= i < self.vectors().len() ==> (#[trigger] self.vectors()[i]).vector != vector,
            r matches Some(t) ==> exists|i: int|
                0 <= i < self.vectors().len() && #[trigger] self.vectors()[i] == (Binding {
                    vector,
                    task: t,
                }),
            r matches Some(t) ==> t < self.tasks().len(),
    {
        let mut i: usize = 0;
        while i < self.bindings.len()
            invariant
                i <= self.bindings@.len(),
                self.wf(),
                forall|k: int| 0 <= k < i ==> (#[trigger] self.bindings@[k]).vector != vector,
            decreases self.bindings@.len() - i,
        {
            let b = self.bindings[i];
            if b.vector == vector {
                assert(self.vectors()[i as int] == b);
                assert(self.vectors()[i as int].task < self.tasks().len());
                return Some(b.task);
            }
            i = i + 1;
        }
        None
    }

    /// Recomputes the alarm as the earliest due tick over all slots.
    fn rearm(&mut self)
        ensures
            final(self).time() == old(self).time(),
            final(self).tasks() == old(self).tasks(),
            final(self).vectors() == old(self).vectors(),
            is_earliest_due(final(self).tasks(), final(self).armed()),
    {
        let mut best: Option<u64> = None;
        let mut i: usize = 0;
        while i < self.slots.len()
            invariant
                i <= self.slots@.len(),
                is_earliest_due(self.slots@.take(i as int), best),
            decreases self.slots@.len() - i,
        {
            let ghost prev = self.slots@.take(i as int);
            let ghost next = self.slots@.take(i + 1);
            assert forall|k: int| 0 <= k < i implies next[k] == #[trigger] prev[k] by {}
            if let SlotState::Queued(Some(due)) = self.slots[i].state {
                let take = match best {
                    Some(b) => due < b,
                    None => true,
                };
                proof {
                    if !take {
                        let b = best->0;
                        let j = choose|j: int| 0 <= j < prev.len() && #[trigger] due_of(prev[j]) == Some(b);
                        assert(due_of(next[j]) == Some(b));
                    }
                    assert(due_of(next[i as int]) == Some(due));
                    assert forall|k: int| 0 <= k < next.len() && (#[trigger] due_of(next[k])) is Some
                        implies (if take { due } else { best->0 }) <= due_of(next[k])->0 by {
                        if k < i {
                            assert(due_of(prev[k]) is Some);
                        }
                    }
                }
                if take {
                    best = Some(due);
                }
            } else {
                proof {
                    assert(due_of(next[i as int]) is None);
                    if let Some(b) = best {
                        let j = choose|j: int| 0 <= j < prev.len() && #[trigger] due_of(prev[j]) == Some(b);
                        assert(due_of(next[j]) == Some(b));
                    }
                    assert forall|k: int| 0 <= k < next.len() && (#[trigger] due_of(next[k])) is Some
                        implies best is Some && best->0 <= due_of(next[k])->0 by {
                        assert(due_of(prev[k]) is Some);
                    }
                }
            }
            i = i + 1;
        }
        assert(self.slots@.take(self.slots@.len() as int) == self.slots@);
        match best {
            Some(at) => self.clock.arm(at),
            None => self.clock.disarm(),
        }
    }
}

/// Number of slots that are not idle.
pub open spec fn queued_count(s: Seq<TaskSlot>) -> nat
    decreases s.len(),
{
    if s.len() == 0 {
        0
    } else {
        queued_count(s.drop_last()) + if s.last().state == SlotState::Idle { 0nat } else { 1nat }
    }
}

proof fn queued_count_drops(s: Seq<TaskSlot>, t: int)
    requires
        0 <= t < s.len(),
        s[t].state != SlotState::Idle,
    ensures
        queued_count(s.update(t, TaskSlot { priority: s[t].priority, state: SlotState::Idle }))
            < queued_count(s),
    decreases s.len(),
{
    let u = s.update(t, TaskSlot { priority: s[t].priority, state: SlotState::Idle });
    if t == s.len() - 1 {
        assert(u.drop_last() == s.drop_last());
    } else {
        queued_count_drops(s.drop_last(), t);
        assert(u.drop_last() == s.drop_last().update(
            t,
            TaskSlot { priority: s[t].priority, state: SlotState::Idle },
        ));
    }
}

/// A task spawned `d` ticks after tick `T` is due at exactly `T + d`: it is
/// not ready before that tick, it is ready from then on, and a dispatch that
/// hands it out while that request stands happens no earlier.
pub proof fn spawn_after_is_exact(
    before: Dispatcher,
    after: Dispatcher,
    task: usize,
    d: u64,
    r: Result<u64, SpawnError>,
    t: u64,
    later: Dispatcher,
    dispatched: Dispatcher,
)
    requires
        Dispatcher::spawned_after(before, after, task, d, r),
        r is Ok,
        task < later.tasks().len(),
        later.tasks()[task as int] == after.tasks()[task as int],
        Dispatcher::took_ready(later, dispatched, Some(task)),
    ensures
        r->Ok_0 == before.time() + d,
        is_ready(after.tasks()[task as int], t) <==> before.time() + d <= t,
        before.time() + d <= later.time(),
{
}

/// A task that is already queued cannot be queued again: a second
/// `spawn_after`, or a `spawn_now`, is rejected and leaves the first request
/// in place.
pub proof fn respawn_is_rejected(
    d0: Dispatcher,
    d1: Dispatcher,
    task: usize,
    a: u64,
    r1: Result<u64, SpawnError>,
    d2: Dispatcher,
    b: u64,
    r2: Result<u64, SpawnError>,
    d3: Dispatcher,
    r3: Result<(), SpawnError>,
)
    requires
        Dispatcher::spawned_after(d0, d1, task, a, r1),
        r1 is Ok,
        Dispatcher::spawned_after(d1, d2, task, b, r2),
        Dispatcher::spawned_now(d1, d3, task, r3),
    ensures
        r2 == Err::<u64, SpawnError>(SpawnError::AlreadyScheduled),
        r3 == Err::<(), SpawnError>(SpawnError::AlreadyScheduled),
        d2 == d1,
        d3 == d1,
        d2.tasks()[task as int].state == SlotState::Queued(Some((d0.time() + a) as u64)),
{
}

} // verus!
