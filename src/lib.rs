//! A single-core, interrupt-driven task scheduler for a board that blinks an
//! LED once a second and reports a push button.
//!
//! - `clock`: the monotonic tick counter and its one alarm.
//! - `dispatcher`: task slots, spawning now or after a delay, dispatch by
//!   priority, and the table that binds interrupt vectors to tasks.
//! - `gpio`: line levels and the LED and button lines.
//! - `tasks`: the state the toggle and button tasks own, and one run of each.
//! - `system`: the board put together: boot, timer dispatch, interrupts and
//!   the idle wait.
pub mod clock;
pub mod dispatcher;
pub mod gpio;
pub mod system;
pub mod tasks;
