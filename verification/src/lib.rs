//! A declarative HTTP load tester, as a library.
//!
//! A plan is a document that lists steps: HTTP calls, delays, shell commands,
//! assignments and assertions. It is compiled into a flat list of steps
//! (`expandable`, `benchmark::compile`), and that list is run many times over,
//! each run an iteration with a variable store of its own (`iteration`), as
//! many at a time as the scheduler admits (`benchmark::Scheduler`). Steps may
//! hold templates, which are resolved against the store (`interpolator`).
//!
//! The library computes and decides; it reads no file, opens no connection and
//! starts no process. Files come in as `reader::Files`. Of a step that needs
//! the outside world the iteration says what is to be done
//! (`iteration::Effect`) and is told how it went (`iteration::Event`).

pub mod actions;
pub mod benchmark;
pub mod checker;
pub mod config;
pub mod error;
pub mod expandable;
pub mod interpolator;
pub mod iteration;
pub mod pool;
pub mod reader;
pub mod stats;
pub mod tags;
pub mod text;
pub mod value;
