//! Periodic host-metrics sampling and aggregation core.
//!
//! The library turns raw point-in-time host readings (per-core CPU usage,
//! memory totals, cumulative network byte counters, the live process table)
//! into one coherent metrics snapshot per tick: it averages CPU across cores,
//! derives byte-per-second rates from cumulative counters, ranks or passes
//! through processes, and drives the cyclic sampling state machine.
//!
//! Gathering the readings and delivering the snapshots is left to the caller:
//! the library works on plain values and is verified end to end.

pub mod aggregator;
pub mod driver;
pub mod models;
pub mod select;

pub use aggregator::build_snapshot;
pub use aggregator::compute_cpu_average;
pub use aggregator::compute_rate;
pub use aggregator::RateState;
pub use driver::Driver;
pub use driver::DriverAction;
pub use driver::DriverEvent;
pub use driver::DriverState;
pub use select::select_processes;
pub use models::ProcessInfo;
pub use models::RawReading;
pub use models::SelectionPolicy;
pub use models::SystemInfo;
pub use models::SystemMetrics;
