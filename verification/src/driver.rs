//! The periodic driver: a cyclic state machine with no terminal state.
//!
//! The cycle is `Idle -> Sampling -> Aggregating -> Publishing -> Idle`.
//! Outside work (sleeping out the interval, refreshing the host handle,
//! handing the snapshot to the sink) is done by the caller, which feeds
//! each outcome back in as an event; every decision is made here.

use vstd::prelude::*;
use crate::aggregator::RateState;
use crate::aggregator::build_snapshot;
use crate::aggregator::elapsed_seconds_spec;
use crate::aggregator::free_spec;
use crate::aggregator::mean_spec;
use crate::aggregator::rate_spec;
use crate::models::RawReading;
use crate::models::SelectionPolicy;
use crate::models::SystemMetrics;
use crate::select::select_spec;

verus! {

/// Default minimum spacing between tick starts, in milliseconds.
pub const DEFAULT_INTERVAL_MS: u64 = 2000;

/// Where the driver stands in the current tick.
#[derive(Clone, Copy)]
pub enum DriverState {
    /// Waiting out the interval until the next tick starts.
    Idle,
    /// A sample has been requested from the host handle.
    Sampling,
    /// A raw reading is held and the snapshot is to be built.
    Aggregating,
    /// The snapshot has been handed out for publishing.
    Publishing,
}

/// What happened outside since the last step.
pub enum DriverEvent {
    /// The fixed interval elapsed; a new tick begins.
    TickElapsed,
    /// The host handle was refreshed and produced a reading.
    ReadingReady(RawReading),
    /// The publish attempt finished; `true` on success.  Failure is
    /// non-fatal: the tick is abandoned, never retried mid-cycle.
    PublishAttempted(bool),
}

/// What the caller is to do next.
pub enum DriverAction {
    /// Refresh the host handle and feed back `ReadingReady`.
    Sample,
    /// Call `aggregate` to build this tick's snapshot.
    Aggregate,
    /// Sleep until the next tick and feed back `TickElapsed`.
    Wait,
    /// The event did not apply to the current state; nothing to do.
    Ignore,
}

/// The periodic driver.  Exactly one instance runs per process; it owns the
/// only cross-tick mutable state.
pub struct Driver {
    /// Minimum spacing between tick starts, milliseconds.  Processing time
    /// is not subtracted: drift is acceptable.
    pub interval_ms: u64,
    /// Which processes each snapshot carries.
    pub policy: SelectionPolicy,
    /// Where the driver stands in the cycle.
    pub state: DriverState,
    /// The previous tick's cumulative counters and timestamp.
    pub rate: RateState,
    /// The reading accepted this tick, held until the snapshot is built.
    pub pending: Option<RawReading>,
}

/// The whole transition relation of the cycle.  An event that does not
/// apply to the current state changes nothing and asks for nothing.
pub open spec fn step_spec(pre: Driver, event: DriverEvent) -> (Driver, DriverAction) {
    match (pre.state, event) {
        (DriverState::Idle, DriverEvent::TickElapsed) => (
            Driver { state: DriverState::Sampling, ..pre },
            DriverAction::Sample,
        ),
        (DriverState::Sampling, DriverEvent::ReadingReady(raw)) => (
            Driver { state: DriverState::Aggregating, pending: Some(raw), ..pre },
            DriverAction::Aggregate,
        ),
        (DriverState::Publishing, DriverEvent::PublishAttempted(_)) => (
            Driver { state: DriverState::Idle, ..pre },
            DriverAction::Wait,
        ),
        _ => (pre, DriverAction::Ignore),
    }
}

impl Driver {
    /// A driver before its first tick: idle, with no previous sample.
    pub fn new(interval_ms: u64, policy: SelectionPolicy) -> (d: Driver)
        ensures
            d.interval_ms == interval_ms,
            d.policy == policy,
            d.state is Idle,
            !d.rate.initialized,
            d.pending is None,
    {
        Driver {
            interval_ms,
            policy,
            state: DriverState::Idle,
            rate: RateState::new(),
            pending: None,
        }
    }

    /// Advance the cycle on one outside event.
    pub fn step(&mut self, event: DriverEvent) -> (action: DriverAction)
        ensures
            (*final(self), action) == step_spec(*old(self), event),
    {
        match event {
            DriverEvent::TickElapsed => {
                match self.state {
                    DriverState::Idle => {
                        self.state = DriverState::Sampling;
                        DriverAction::Sample
                    },
                    _ => DriverAction::Ignore,
                }
            },
            DriverEvent::ReadingReady(raw) => {
                match self.state {
                    DriverState::Sampling => {
                        self.state = DriverState::Aggregating;
                        self.pending = Some(raw);
                        DriverAction::Aggregate
                    },
                    _ => DriverAction::Ignore,
                }
            },
            DriverEvent::PublishAttempted(_) => {
                match self.state {
                    DriverState::Publishing => {
                        self.state = DriverState::Idle;
                        DriverAction::Wait
                    },
                    _ => DriverAction::Ignore,
                }
            },
        }
    }

    /// Build this tick's snapshot from the pending reading and advance the
    /// rate state; `None`, with nothing changed, when no reading is held.
    pub fn aggregate(&mut self) -> (r: Option<SystemMetrics>)
        ensures
            (match old(self).state {
                DriverState::Aggregating => match old(self).pending {
                    Some(raw) => {
                        &&& r is Some
                        &&& r->0.cpu_usage as int == mean_spec(raw.cores@)
                        &&& r->0.ram_total == raw.ram_total
                        &&& r->0.ram_used == raw.ram_used
                        &&& r->0.ram_free == free_spec(raw.ram_total, raw.ram_used, raw.ram_free)
                        &&& r->0.disk_read_speed == 0
                        &&& r->0.disk_write_speed == 0
                        &&& r->0.net_rx_speed == rate_spec(
                            raw.net_rx_total,
                            old(self).rate.prev_rx,
                            elapsed_seconds_spec(raw.timestamp_ms, old(self).rate),
                        )
                        &&& r->0.net_tx_speed == rate_spec(
                            raw.net_tx_total,
                            old(self).rate.prev_tx,
                            elapsed_seconds_spec(raw.timestamp_ms, old(self).rate),
                        )
                        &&& r->0.all_processes@ == select_spec(raw.processes@, old(self).policy)
                        &&& final(self).state is Publishing
                        &&& final(self).pending is None
                        &&& final(self).rate == (RateState {
                            initialized: true,
                            prev_rx: raw.net_rx_total,
                            prev_tx: raw.net_tx_total,
                            prev_time_ms: raw.timestamp_ms,
                        })
                        &&& final(self).interval_ms == old(self).interval_ms
                        &&& final(self).policy == old(self).policy
                    },
                    None => r is None && *final(self) == *old(self),
                },
                _ => r is None && *final(self) == *old(self),
            }),
    {
        match self.state {
            DriverState::Aggregating => {
                let taken = self.pending.take();
                match taken {
                    Some(raw) => {
                        let policy = self.policy;
                        let snapshot = build_snapshot(raw, &mut self.rate, policy);
                        self.state = DriverState::Publishing;
                        Some(snapshot)
                    },
                    None => None,
                }
            },
            _ => None,
        }
    }
}

/// Well-formedness of the driver: a pending reading is held only while the
/// driver stands in `Aggregating`.  Outside that phase nothing but the rate
/// state is carried from tick to tick.
pub open spec fn wf(d: Driver) -> bool {
    !(d.state is Aggregating) ==> d.pending is None
}

/// Every step preserves well-formedness; `Driver::new` establishes it and
/// `aggregate` clears the pending reading, so it holds throughout a run.
pub proof fn lemma_step_preserves_wf(d: Driver, event: DriverEvent)
    requires
        wf(d),
    ensures
        wf(step_spec(d, event).0),
{
}

/// A tick whose publish fails does not end the driver: it returns to idle
/// with a `Wait`, and the following tick still begins with a fresh sample.
/// The same holds of a successful publish.
pub proof fn lemma_publish_outcome_keeps_cycle(d: Driver, ok: bool)
    requires
        d.state is Publishing,
    ensures
        ({
            let (after_publish, action) = step_spec(d, DriverEvent::PublishAttempted(ok));
            &&& after_publish.state is Idle
            &&& action is Wait
            &&& step_spec(after_publish, DriverEvent::TickElapsed).0.state is Sampling
            &&& step_spec(after_publish, DriverEvent::TickElapsed).1 is Sample
        }),
{
}

} // verus!
