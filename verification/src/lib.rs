//! Core of a terminal dashboard that folds events from several asynchronous
//! producers — a one-shot backlog load, a polled log tail, an animation
//! ticker, and streamed subprocess output — into one single-writer
//! application state, routes free-form command text to program invocations,
//! and drives a two-state keyboard input machine.
//!
//! Everything here is pure: producers are represented by the events they
//! emit, and the surrounding program performs the file reads, process
//! spawns and terminal drawing that those events and invocations call for.

pub mod input;
pub mod process;
pub mod router;
pub mod state;
pub mod tail;
pub mod text;
