//! Frame capture and persistence for a real-time simulation host.
//!
//! Once per simulated frame the host hands over its dynamic world entities;
//! the library turns them into an immutable snapshot, encodes the snapshot
//! as delimited text rows for two append-only logs, and keeps a rolling
//! window of frame metrics that is summarised into periodic health reports.
//!
//! Times are fixed-point integers: one unit is `10^-8` seconds.
use vstd::prelude::*;

pub mod config;
pub mod dcs;
pub mod decimal;
pub mod gui;
pub mod monitor;
pub mod perf_monitor;
pub mod record;
pub mod session;
pub mod worker;

verus! {

} // verus!
