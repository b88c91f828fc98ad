//! The core of a terminal chess front-end that drives a UCI engine.
//!
//! The engine is a separate process that speaks a line protocol. This crate
//! holds everything about driving it that can be decided without touching
//! the process: what its lines mean, what to write to it and when, and how a
//! result reaches the caller who waits for it.
//!
//! - [`text`], [`decimal`] and [`numeral`]: tokens, lines and numbers in
//!   text.
//! - [`options`]: the options that the engine declares during the handshake.
//! - [`eval`]: the result of a static evaluation, read off the engine's dump.
//! - [`command`]: the requests of a caller and the instructions they become.
//! - [`driver`]: the driver as a state machine, from event to action, and
//!   [`session`]: what holds of whole runs of it.
//! - [`queue`], [`rendezvous`] and [`engine`]: the command queue, the cell
//!   through which an evaluation is handed over, and the callers' handle.
//! - [`position`]: the chess position that the front-end shows.
//!
//! Running the engine process and drawing on the terminal is left to the
//! application: each step of the driver tells it what to do next.

pub mod command;
pub mod decimal;
pub mod driver;
pub mod engine;
pub mod eval;
pub mod numeral;
pub mod options;
pub mod position;
pub mod queue;
pub mod rendezvous;
pub mod session;
pub mod text;
