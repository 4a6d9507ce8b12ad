//! Startup rendezvous between a test and the application it launches.
//!
//! The test holds a listener on an ephemeral loopback port and waits, for a
//! bounded time, until the application connects and sends a fixed
//! notification. This crate holds the parts of that protocol that decide:
//! the notification bytes and their check, a span of time, and the wait
//! loop as a state machine driven by what the socket reported.

mod notification;
mod span;
mod wait;

pub use notification::{done_payload, is_done, Client};
pub use span::{nanos_per_sec, Span};
pub use wait::{
    idle_in_time, in_time, lemma_idle_passes, lemma_no_connection_times_out,
    lemma_notification_ends_wait, lemma_pending_notification_found_at_once,
    lemma_timeout_only_at_deadline, lemma_wrong_payload_fails, outcome, phase_after, poll_action,
    poll_interval, replay, clock_action,
    Action, Phase, Poll, Round, WaitError, Waiter,
};
