//! What the runtime asks of the platform it runs on: a back-end that opens
//! windows and runs the event loop, and a clock.

use vstd::prelude::*;

verus! {

/// How the event loop should terminate.
#[derive(Debug, Clone, Copy, PartialEq, Eq, Structural)]
pub enum EventLoopQuitBehavior {
    /// Terminate the event loop when the last window was closed.
    QuitOnLastWindowClosed,
    /// Keep the event loop running until it is told to quit.
    QuitOnlyExplicitly,
}

/// The way to reach the event loop from another thread. A back-end hands one
/// out where its event loop can be reached at all.
pub trait EventLoopProxy: Send + Sync {
    /// Exits the event loop.
    fn quit_event_loop(&self);

    /// Invokes `event` from the event loop.
    fn invoke_from_event_loop<F: FnOnce() + Send + 'static>(&self, event: F);
}

/// A point in time, in milliseconds since the start of the program.
#[derive(Debug, Clone, Copy, PartialEq, Eq, Structural)]
pub struct Instant(pub u64);

/// The time between `since_start`, the milliseconds that have passed since
/// the start of the program, and `timeout`: zero where the timeout has
/// passed. Of the milliseconds only the lowest 64 bits count.
pub open spec fn millis_until(timeout: Instant, since_start: u128) -> u64 {
    let now = since_start as u64;
    if timeout.0 >= now {
        (timeout.0 - now) as u64
    } else {
        0
    }
}

/// The time in milliseconds before the next timer should be activated: the
/// longest that the event loop may sleep before it updates timers and
/// animations again. `next_timeout` is when the next timer is due, if a timer
/// is running at all, and `duration_since_start` what the platform's clock
/// says, in milliseconds, or zero where no platform is set.
///
/// Animations do not count.
pub fn duration_until_next_timer_update(
    next_timeout: Option<Instant>,
    duration_since_start: u128,
) -> (duration: Option<u64>)
    ensures
        duration == (match next_timeout {
            Some(timeout) => Some(millis_until(timeout, duration_since_start)),
            None => None,
        }),
{
    match next_timeout {
        Some(timeout) => {
            let now = #[verifier::truncate]
            (duration_since_start as u64);
            Some(timeout.0.saturating_sub(now))
        },
        None => None,
    }
}

} // verus!
