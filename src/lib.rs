//! A synthetic workload generator for benchmarking table-like data stores:
//! generators that shape keys, field lengths and the operation mix, the
//! retry policy applied to each store operation, the partitioning of an
//! operation budget across workers, and a windowed latency/success collector.

pub mod db;
pub mod generator;
pub mod harness;
pub mod retry;
pub mod stats;
pub mod workload;
