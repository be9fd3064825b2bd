//! A harness that measures the throughput of bounded asynchronous channels
//! under two task topologies and several task-scheduling runtimes.

pub mod bench;
pub mod cli;
pub mod executor_shims;
pub mod funnel;
pub mod mock;
pub mod pinball;
pub mod registry;
pub mod report;
pub mod result;
pub mod script;
pub mod text;

pub use crate::result::BenchResult;
