//! Benchmark execution and measurement engine for comparing two workload
//! engines: an in-process Starlark interpreter driven call by call, and an
//! external Python process driven batch by batch. The library reconciles the
//! two control surfaces into one measurement model with uniform semantics for
//! warmup, iteration indexing, and timing boundaries, and emits one
//! self-describing record per completed iteration.

pub mod checksum;
pub mod config;
pub mod driver;
pub mod errors;
pub mod memory;
pub mod protocol;
pub mod python_engine;
pub mod record;
pub mod starlark_engine;
