//! Verified core of a load generator for serverless benchmarks: the decisions,
//! text processing and bookkeeping that surround launching benchmark commands.

pub mod text;
pub mod number;
pub mod draw;
pub mod ids;
pub mod asvisor_job;
pub mod faastlane_job;
pub mod pattern;
pub mod task;
pub mod openloop;
pub mod closeloop;
pub mod monitor;
pub mod cleanup;
pub mod latency;
pub mod cli;
