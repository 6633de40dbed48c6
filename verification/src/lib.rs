//! Room auto-join with capped exponential backoff.
//!
//! A chat agent receives membership notifications from its transport. A
//! notification that invites the agent itself into a room starts an
//! independent retry task: the task attempts to join the room, and on each
//! failure sleeps for a delay that starts at two seconds and doubles after
//! every attempt, until a join succeeds or the doubled delay exceeds one hour,
//! at which point the invite is abandoned.
//!
//! The crate holds the decision logic of that protocol: the filter that
//! decides which notifications start a task ([`event`]), the per-task state
//! machine ([`retry`]), and a mathematical model of a whole task run together
//! with the proofs that tie the executable code to it ([`trace`]). The
//! surrounding runtime performs the join calls and the sleeps and feeds their
//! outcomes back into the state machine.

pub mod event;
pub mod retry;
pub mod trace;
