//! Core of a synthetic load-generation benchmark driver: statistical key and
//! value generators, a workload engine that turns an operation-mix
//! configuration into concrete backend operations, and the planning and
//! accounting half of the execution harness.
//!
//! Everything here is deterministic and free of I/O: the surrounding binary
//! owns the backend connections, the clock and the task runtime, and feeds
//! their results back in as plain values.

pub mod config;
pub mod errors;
pub mod generator;
pub mod harness;
pub mod rng;
pub mod text;
pub mod workload;
pub mod zipfian;

pub use errors::BenchError;
