//! Host resource sampling: turns cumulative operating-system counters into
//! per-tick snapshots with per-second network rates.

pub mod model;
pub mod process;
pub mod rate;
pub mod sampler;
pub mod units;
