//! Plain data carried between the sampler, the aggregator and the sink.
//!
//! CPU usage is held in hundredths of a percent (`2000` is `20.00%`), so the
//! whole model is exact integer data.

use vstd::prelude::*;

verus! {

/// One live process as observed at a single tick.
///
/// Recreated fully every tick; no cross-tick identity is preserved beyond the
/// pid value itself (pids may be reused after a process exits).
pub struct ProcessInfo {
    /// Process identifier, unique per live process.
    pub pid: u32,
    /// Display name.
    pub name: String,
    /// Instantaneous CPU usage, hundredths of a percent.
    pub cpu: u64,
    /// Resident memory in bytes.
    pub memory: u64,
}

/// The complete, self-consistent set of metrics produced for a single tick.
///
/// Constructed fresh each tick, handed to the publish sink, then discarded.
pub struct SystemMetrics {
    /// Average usage across all logical cores, hundredths of a percent;
    /// `0` when no cores were detected.
    pub cpu_usage: u64,
    /// Total memory in bytes.
    pub ram_total: u64,
    /// Used memory in bytes.
    pub ram_used: u64,
    /// Free memory in bytes.
    pub ram_free: u64,
    /// Disk read rate, bytes per second.  No genuine per-platform counter
    /// source is integrated, so this is reported as a constant `0` rather
    /// than a fabricated number.
    pub disk_read_speed: u64,
    /// Disk write rate, bytes per second; constant `0`, as above.
    pub disk_write_speed: u64,
    /// Network receive rate, bytes per second.
    pub net_rx_speed: u64,
    /// Network transmit rate, bytes per second.
    pub net_tx_speed: u64,
    /// The selected processes, ordered as the configured policy demands.
    pub all_processes: Vec<ProcessInfo>,
}

/// Static identity of the host, gathered once rather than per tick.
pub struct SystemInfo {
    pub username: String,
    pub hostname: String,
    pub os: String,
}

/// A raw point-in-time host reading, handed in by the sampler each tick.
///
/// A reading with fewer processes or cores than expected is valid, not an
/// error: entities that disappear between enumeration and read are simply
/// absent.
pub struct RawReading {
    /// Per-core instantaneous usage, hundredths of a percent.
    pub cores: Vec<u64>,
    /// Total memory in bytes.
    pub ram_total: u64,
    /// Used memory in bytes.
    pub ram_used: u64,
    /// Free memory in bytes, when the platform reports it independently;
    /// `None` when it must be derived from total and used.
    pub ram_free: Option<u64>,
    /// Cumulative bytes received since boot, across all interfaces.
    pub net_rx_total: u64,
    /// Cumulative bytes transmitted since boot, across all interfaces.
    pub net_tx_total: u64,
    /// Monotonic timestamp of the reading, in milliseconds.
    pub timestamp_ms: u64,
    /// The live process table.
    pub processes: Vec<ProcessInfo>,
}

/// Which processes a snapshot carries.  A static configuration choice made
/// when the driver is built, not a per-tick decision.
#[derive(Clone, Copy)]
pub enum SelectionPolicy {
    /// Every process, in enumeration order.
    All,
    /// The `count` highest CPU consumers, descending, ties kept in
    /// enumeration order.
    TopByCpu { count: usize },
}

/// Assemble the host identity, falling back to a fixed name when the
/// hostname could not be determined.
pub fn system_info(username: String, hostname: Option<String>, os: String) -> (info: SystemInfo)
    ensures
        info.username == username,
        (match hostname {
            Some(h) => info.hostname == h,
            None => info.hostname@ == "Unknown Host"@,
        }),
        info.os == os,
{
    let host = match hostname {
        Some(h) => h,
        None => "Unknown Host".to_string(),
    };
    SystemInfo { username, hostname: host, os }
}

} // verus!
