use pico_blink::clock::{MonotonicClock, TICKS_PER_SECOND};
use pico_blink::dispatcher::{BindError, Dispatcher, SlotState, SpawnError, TaskSlot};
use pico_blink::gpio::{level_for_led, InputLine, Level, OutputLine};
use pico_blink::system::{System, BUTTON_VECTOR, TOGGLE_TASK};
use pico_blink::tasks::{ButtonTask, ToggleTask, TOGGLE_PERIOD};

#[test]
fn led_alternates_from_off_at_boot() {
    let mut s = System::init();
    assert!(!s.led_on());
    assert_eq!(s.led_level(), Level::High);
    let mut expected_on = true;
    for _ in 0..8 {
        assert_eq!(s.dispatch(), Ok(Some(TOGGLE_TASK)));
        assert_eq!(s.led_on(), expected_on);
        assert_eq!(s.led_level(), level_for_led(expected_on));
        expected_on = !expected_on;
        s.idle(u64::MAX);
    }
    assert_eq!(s.toggle_count(), 8);
}

#[test]
fn toggle_runs_are_one_period_apart() {
    let mut s = System::init();
    assert_eq!(s.dispatch(), Ok(Some(TOGGLE_TASK)));
    assert_eq!(s.last_toggle(), Some(0));
    let mut prev = 0u64;
    for _ in 0..5 {
        // Waking early finds nothing to run.
        assert_eq!(s.idle(prev + TOGGLE_PERIOD - 1), prev + TOGGLE_PERIOD - 1);
        assert_eq!(s.dispatch(), Ok(None));
        assert_eq!(s.idle(u64::MAX), prev + TOGGLE_PERIOD);
        assert_eq!(s.dispatch(), Ok(Some(TOGGLE_TASK)));
        let at = s.last_toggle().unwrap();
        assert!(at >= prev + TOGGLE_PERIOD);
        assert_eq!(at, prev + 1_000_000);
        prev = at;
    }
}

#[test]
fn toggle_run_late_still_rearms_one_period_on() {
    let mut s = System::init();
    s.dispatch().unwrap();
    assert_eq!(s.idle(1_300_000), 1_000_000);
    assert_eq!(s.dispatch(), Ok(Some(TOGGLE_TASK)));
    assert_eq!(s.toggle_state(), SlotState::Queued(Some(2_000_000)));
    assert_eq!(s.alarm(), Some(2_000_000));
}

#[test]
fn spawn_after_is_due_at_exactly_now_plus_delay() {
    let mut d = Dispatcher::new(&vec![1]);
    d.advance(250);
    assert_eq!(d.spawn_after(0, 1000), Ok(1250));
    assert_eq!(d.slot(0).state, SlotState::Queued(Some(1250)));
    assert_eq!(d.alarm(), Some(1250));
    d.advance(999);
    assert_eq!(d.now(), 1249);
    assert_eq!(d.take_ready(), None);
    d.advance(1);
    assert_eq!(d.take_ready(), Some(0));
    assert_eq!(d.slot(0).state, SlotState::Idle);
    assert_eq!(d.alarm(), None);
}

#[test]
fn second_spawn_after_is_rejected() {
    let mut d = Dispatcher::new(&vec![1, 1]);
    assert_eq!(d.spawn_after(0, TICKS_PER_SECOND), Ok(1_000_000));
    assert_eq!(d.spawn_after(0, TICKS_PER_SECOND), Err(SpawnError::AlreadyScheduled));
    assert_eq!(d.spawn_after(0, 5), Err(SpawnError::AlreadyScheduled));
    assert_eq!(d.spawn_now(0), Err(SpawnError::AlreadyScheduled));
    assert_eq!(d.slot(0).state, SlotState::Queued(Some(1_000_000)));
    assert_eq!(d.alarm(), Some(1_000_000));
}

#[test]
fn second_spawn_now_is_rejected() {
    let mut d = Dispatcher::new(&vec![1]);
    assert_eq!(d.spawn_now(0), Ok(()));
    assert_eq!(d.spawn_now(0), Err(SpawnError::AlreadyScheduled));
    assert_eq!(d.spawn_after(0, 3), Err(SpawnError::AlreadyScheduled));
    assert_eq!(d.slot(0).state, SlotState::Queued(None));
    assert_eq!(d.take_ready(), Some(0));
    assert_eq!(d.spawn_now(0), Ok(()));
}

#[test]
fn spawn_unknown_task_is_rejected() {
    let mut d = Dispatcher::new(&vec![1]);
    assert_eq!(d.spawn_now(1), Err(SpawnError::UnknownTask));
    assert_eq!(d.spawn_after(7, 1), Err(SpawnError::UnknownTask));
}

#[test]
fn spawn_beyond_counter_width_is_rejected() {
    let mut d = Dispatcher::new(&vec![1]);
    d.advance(u64::MAX - 10);
    assert_eq!(d.spawn_after(0, 11), Err(SpawnError::BeyondHorizon));
    assert_eq!(d.slot(0).state, SlotState::Idle);
    assert_eq!(d.spawn_after(0, 10), Ok(u64::MAX));
}

#[test]
fn alarm_tracks_earliest_due() {
    let mut d = Dispatcher::new(&vec![1, 1, 1]);
    assert_eq!(d.spawn_after(0, 500), Ok(500));
    assert_eq!(d.alarm(), Some(500));
    assert_eq!(d.spawn_after(1, 200), Ok(200));
    assert_eq!(d.alarm(), Some(200));
    assert_eq!(d.spawn_after(2, 900), Ok(900));
    assert_eq!(d.alarm(), Some(200));
    d.advance(200);
    assert_eq!(d.take_ready(), Some(1));
    assert_eq!(d.alarm(), Some(500));
}

#[test]
fn highest_priority_runs_first() {
    let mut d = Dispatcher::new(&vec![1, 3, 2, 3]);
    for t in 0..4 {
        assert_eq!(d.spawn_now(t), Ok(()));
    }
    assert_eq!(d.take_ready(), Some(1));
    assert_eq!(d.take_ready(), Some(3));
    assert_eq!(d.take_ready(), Some(2));
    assert_eq!(d.take_ready(), Some(0));
    assert_eq!(d.take_ready(), None);
    assert!(!d.any_queued());
}

#[test]
fn bind_and_look_up_vectors() {
    let mut d = Dispatcher::new(&vec![1, 1]);
    assert_eq!(d.bind(13, 1), Ok(()));
    assert_eq!(d.bind(13, 0), Err(BindError::VectorTaken));
    assert_eq!(d.bind(4, 2), Err(BindError::UnknownTask));
    assert_eq!(d.bind(0, 0), Ok(()));
    assert_eq!(d.bound_task(13), Some(1));
    assert_eq!(d.bound_task(0), Some(0));
    assert_eq!(d.bound_task(5), None);
}

#[test]
fn three_button_edges_run_three_times() {
    let mut s = System::init();
    s.dispatch().unwrap();
    let before = s.work_count();
    assert_eq!(s.edge_interrupt(Level::Low), Some(Level::Low));
    assert_eq!(s.idle(1000), 1000);
    assert_eq!(s.edge_interrupt(Level::High), Some(Level::High));
    assert_eq!(s.idle(1900), 1900);
    assert_eq!(s.edge_interrupt(Level::Low), Some(Level::Low));
    assert_eq!(s.button_runs(), 3);
    assert_eq!(s.work_count(), before + 3);
    assert_eq!(s.button_line(), InputLine { level: Level::Low, pending: false });
    assert_eq!(s.toggle_count(), 1);
}

#[test]
fn unbound_vector_runs_nothing() {
    let mut s = System::init();
    assert_eq!(s.interrupt(BUTTON_VECTOR + 1), None);
    assert_eq!(s.work_count(), 0);
    assert_eq!(s.interrupt(BUTTON_VECTOR), Some(Level::High));
    assert_eq!(s.button_runs(), 1);
}

#[test]
fn idle_does_no_task_work() {
    let mut s = System::init();
    assert_eq!(s.dispatch(), Ok(Some(TOGGLE_TASK)));
    assert_eq!(s.work_count(), 1);
    assert_eq!(s.idle(400_000), 400_000);
    assert_eq!(s.work_count(), 1);
    assert_eq!(s.dispatch(), Ok(None));
    assert_eq!(s.idle(900_000), 900_000);
    assert_eq!(s.dispatch(), Ok(None));
    assert_eq!(s.work_count(), 1);
    assert!(s.led_on());
}

#[test]
fn idle_with_ready_task_does_not_wait() {
    let mut s = System::init();
    assert_eq!(s.idle(5_000), 0);
    assert_eq!(s.toggle_state(), SlotState::Queued(None));
    assert_eq!(s.work_count(), 0);
}

#[test]
fn boot_state() {
    let s = System::init();
    assert_eq!(s.now(), 0);
    assert_eq!(s.alarm(), None);
    assert_eq!(s.last_toggle(), None);
    assert_eq!(s.button_line(), InputLine::pulled_up());
    assert_eq!(s.work_count(), 0);
}

#[test]
fn toggle_task_state_flips() {
    let mut t = ToggleTask::new();
    assert!(!t.led_on);
    assert_eq!(t.toggle(), Level::Low);
    assert!(t.led_on);
    assert_eq!(t.toggle(), Level::High);
    assert!(!t.led_on);
}

#[test]
fn button_task_clears_then_samples() {
    let mut b = ButtonTask::new();
    let mut line = InputLine::pulled_up();
    line.edge(Level::Low);
    assert!(line.pending);
    assert_eq!(b.on_edge(&mut line), Level::Low);
    assert!(!line.pending);
    assert_eq!(b.runs, 1);
}

#[test]
fn led_is_active_low() {
    assert_eq!(level_for_led(true), Level::Low);
    assert_eq!(level_for_led(false), Level::High);
    let mut led = OutputLine { level: Level::High };
    led.set(Level::Low);
    assert_eq!(led.level, Level::Low);
}

#[test]
fn clock_alarm_fires_once_reached() {
    let mut c = MonotonicClock::new();
    assert!(!c.alarm_fired());
    c.arm(10);
    assert!(!c.alarm_fired());
    c.advance(10);
    assert_eq!(c.now(), 10);
    assert!(c.alarm_fired());
    c.disarm();
    assert!(!c.alarm_fired());
    c.arm(3);
    assert!(c.alarm_fired());
}

#[test]
fn dispatcher_rejects_nothing_at_start() {
    let d = Dispatcher::new(&vec![2, 5]);
    assert_eq!(d.task_count(), 2);
    assert_eq!(d.slot(1), TaskSlot { priority: 5, state: SlotState::Idle });
    assert!(!d.any_queued());
}

#[test]
fn alarm_runs_every_due_task_by_priority() {
    let mut d = Dispatcher::new(&vec![1, 3, 2, 3]);
    assert_eq!(d.spawn_after(0, 10), Ok(10));
    assert_eq!(d.spawn_now(1), Ok(()));
    assert_eq!(d.spawn_after(2, 5), Ok(5));
    assert_eq!(d.spawn_after(3, 20), Ok(20));
    d.advance(10);
    assert_eq!(d.take_all_ready(), vec![1, 2, 0]);
    assert_eq!(d.slot(3).state, SlotState::Queued(Some(20)));
    assert_eq!(d.alarm(), Some(20));
    assert!(d.any_queued());
    assert_eq!(d.take_all_ready(), Vec::<usize>::new());
    d.advance(10);
    assert_eq!(d.take_all_ready(), vec![3]);
    assert_eq!(d.alarm(), None);
    assert!(!d.any_queued());
}
