//! Aggregation: CPU averaging, rate derivation from cumulative counters,
//! and assembly of the per-tick snapshot.

use vstd::prelude::*;
use crate::models::RawReading;
use crate::models::SelectionPolicy;
use crate::models::SystemMetrics;
use crate::select::select_processes;
use crate::select::select_spec;

verus! {

/// Sum of a sequence of core usages, as an unbounded integer.
pub open spec fn sum_spec(s: Seq<u64>) -> int
    decreases s.len(),
{
    if s.len() == 0 {
        0
    } else {
        sum_spec(s.drop_last()) + s.last()
    }
}

/// Arithmetic mean across all cores, truncated; `0` when the core list is
/// empty, so an empty host reading never divides by zero.
pub open spec fn mean_spec(s: Seq<u64>) -> int {
    if s.len() == 0 {
        0
    } else {
        sum_spec(s) / (s.len() as int)
    }
}

/// The sum of `s` is at most `s.len()` times any bound on its elements.
proof fn lemma_sum_bounded(s: Seq<u64>, bound: int)
    requires
        forall|i: int| 0 <= i < s.len() ==> s[i] <= bound,
    ensures
        sum_spec(s) <= s.len() * bound,
        sum_spec(s) >= 0,
    decreases s.len(),
{
    if s.len() > 0 {
        lemma_sum_bounded(s.drop_last(), bound);
        assert((s.len() - 1) * bound + bound == s.len() * bound) by (nonlinear_arith);
    }
}

/// Average the per-core usages: arithmetic mean truncated to an integer,
/// `0` for an empty list.
pub fn compute_cpu_average(cores: &Vec<u64>) -> (avg: u64)
    ensures
        avg as int == mean_spec(cores@),
{
    if cores.len() == 0 {
        return 0;
    }
    let n: usize = cores.len();
    let mut acc: u128 = 0;
    let mut i: usize = 0;
    while i < n
        invariant
            0 < n == cores@.len(),
            i <= n,
            acc as int == sum_spec(cores@.subrange(0, i as int)),
            acc as int <= (i as int) * (u64::MAX as int),
        decreases n - i,
    {
        proof {
            assert(cores@.subrange(0, i as int + 1).drop_last() == cores@.subrange(0, i as int));
            assert((i as int) * (u64::MAX as int) + (u64::MAX as int) == (i as int + 1) * (
            u64::MAX as int)) by (nonlinear_arith);
            assert((i as int + 1) * (u64::MAX as int) <= (n as int) * (u64::MAX as int))
                by (nonlinear_arith)
                requires
                    0 <= i as int + 1 <= n as int,
            ;
            assert((n as int) * (u64::MAX as int) < u128::MAX as int) by (nonlinear_arith)
                requires
                    n as int <= usize::MAX as int,
            ;
        }
        acc = acc + cores[i] as u128;
        i = i + 1;
    }
    proof {
        assert(cores@.subrange(0, n as int) == cores@);
        lemma_sum_bounded(cores@, u64::MAX as int);
        vstd::arithmetic::div_mod::lemma_div_is_ordered(
            acc as int,
            (n as int) * (u64::MAX as int),
            n as int,
        );
        vstd::arithmetic::div_mod::lemma_div_by_multiple(u64::MAX as int, n as int);
        assert((u64::MAX as int) * (n as int) == (n as int) * (u64::MAX as int))
            by (nonlinear_arith);
    }
    (acc / (n as u128)) as u64
}

/// The byte-per-second rate derived from two samples of a cumulative counter.
///
/// Zero when no time has elapsed (a rate cannot be formed) and zero on a
/// counter rollback (`current < previous`), so a reset counter never yields
/// a huge wrapped-around rate.
pub open spec fn rate_spec(current: u64, previous: u64, elapsed_seconds: u64) -> u64 {
    if elapsed_seconds == 0 || current < previous {
        0u64
    } else {
        (((current - previous) as u64) / elapsed_seconds) as u64
    }
}

/// Derive a bytes-per-second rate from two temporally ordered readings of a
/// cumulative counter, truncated to an integer.
pub fn compute_rate(current: u64, previous: u64, elapsed_seconds: u64) -> (rate: u64)
    ensures
        rate == rate_spec(current, previous, elapsed_seconds),
{
    if elapsed_seconds == 0 || current < previous {
        0
    } else {
        (current - previous) / elapsed_seconds
    }
}

/// The only cross-tick state: the previous tick's cumulative counters and
/// timestamp.  Owned by the aggregation side, updated once per tick, never
/// exposed to the sink.
pub struct RateState {
    /// Whether a previous tick's counters are held; `false` before the
    /// first tick, so the first tick reports zero rates.
    pub initialized: bool,
    /// Cumulative bytes received at the previous tick.
    pub prev_rx: u64,
    /// Cumulative bytes transmitted at the previous tick.
    pub prev_tx: u64,
    /// Monotonic timestamp of the previous tick, milliseconds.
    pub prev_time_ms: u64,
}

impl RateState {
    /// The state before any tick: no previous sample.
    pub fn new() -> (s: RateState)
        ensures
            !s.initialized,
            s.prev_rx == 0,
            s.prev_tx == 0,
            s.prev_time_ms == 0,
    {
        RateState { initialized: false, prev_rx: 0, prev_tx: 0, prev_time_ms: 0 }
    }
}

/// Whole seconds since the previous sample: zero on the first tick (there
/// is no previous sample) and zero when the clock did not advance.
pub open spec fn elapsed_seconds_spec(now_ms: u64, st: RateState) -> u64 {
    if !st.initialized || now_ms < st.prev_time_ms {
        0u64
    } else {
        ((((now_ms - st.prev_time_ms) as u64) / 1000u64) as u64)
    }
}

/// Free memory: the independently reported figure when the platform gives
/// one, otherwise total minus used (clamped at zero).
pub open spec fn free_spec(total: u64, used: u64, reported: Option<u64>) -> u64 {
    match reported {
        Some(f) => f,
        None => if used <= total {
            ((total - used) as u64)
        } else {
            0u64
        },
    }
}

/// Turn one raw reading plus the previous tick's rate state into one
/// coherent snapshot, and advance the rate state to this reading's
/// counters and timestamp as the only side effect.
///
/// Disk rates are reported as a constant `0`: no genuine per-platform disk
/// counter source is integrated, and numbers are never fabricated.
pub fn build_snapshot(raw: RawReading, state: &mut RateState, policy: SelectionPolicy) -> (m:
    SystemMetrics)
    ensures
        m.cpu_usage as int == mean_spec(raw.cores@),
        m.ram_total == raw.ram_total,
        m.ram_used == raw.ram_used,
        m.ram_free == free_spec(raw.ram_total, raw.ram_used, raw.ram_free),
        m.disk_read_speed == 0,
        m.disk_write_speed == 0,
        m.net_rx_speed == rate_spec(
            raw.net_rx_total,
            old(state).prev_rx,
            elapsed_seconds_spec(raw.timestamp_ms, *old(state)),
        ),
        m.net_tx_speed == rate_spec(
            raw.net_tx_total,
            old(state).prev_tx,
            elapsed_seconds_spec(raw.timestamp_ms, *old(state)),
        ),
        m.all_processes@ == select_spec(raw.processes@, policy),
        *final(state) == (RateState {
            initialized: true,
            prev_rx: raw.net_rx_total,
            prev_tx: raw.net_tx_total,
            prev_time_ms: raw.timestamp_ms,
        }),
{
    let elapsed: u64 = if !state.initialized || raw.timestamp_ms < state.prev_time_ms {
        0
    } else {
        (raw.timestamp_ms - state.prev_time_ms) / 1000
    };
    let net_rx_speed = compute_rate(raw.net_rx_total, state.prev_rx, elapsed);
    let net_tx_speed = compute_rate(raw.net_tx_total, state.prev_tx, elapsed);
    let cpu_usage = compute_cpu_average(&raw.cores);
    let ram_free = match raw.ram_free {
        Some(f) => f,
        None => if raw.ram_used <= raw.ram_total {
            raw.ram_total - raw.ram_used
        } else {
            0
        },
    };
    state.initialized = true;
    state.prev_rx = raw.net_rx_total;
    state.prev_tx = raw.net_tx_total;
    state.prev_time_ms = raw.timestamp_ms;
    let all_processes = select_processes(raw.processes, policy);
    SystemMetrics {
        cpu_usage,
        ram_total: raw.ram_total,
        ram_used: raw.ram_used,
        ram_free,
        disk_read_speed: 0,
        disk_write_speed: 0,
        net_rx_speed,
        net_tx_speed,
        all_processes,
    }
}

/// The mean of no cores is zero, the mean of one core is that core, and the
/// mean of two cores is half their sum (truncated).
pub proof fn lemma_mean_small()
    ensures
        mean_spec(Seq::<u64>::empty()) == 0,
        forall|x: u64| mean_spec(#[trigger] seq![x]) == x,
        forall|a: u64, b: u64| mean_spec(#[trigger] seq![a, b]) == (a + b) / 2,
{
    assert(sum_spec(Seq::<u64>::empty()) == 0);
    assert forall|x: u64| mean_spec(#[trigger] seq![x]) == x by {
        assert(seq![x].drop_last() == Seq::<u64>::empty());
        assert(sum_spec(seq![x]) == sum_spec(seq![x].drop_last()) + seq![x].last());
        assert(sum_spec(seq![x]) == x);
    }
    assert forall|a: u64, b: u64| mean_spec(#[trigger] seq![a, b]) == (a + b) / 2 by {
        assert(seq![a, b].drop_last() == seq![a]);
        assert(seq![a].drop_last() == Seq::<u64>::empty());
        assert(sum_spec(seq![a]) == sum_spec(seq![a].drop_last()) + seq![a].last());
        assert(sum_spec(seq![a, b]) == sum_spec(seq![a, b].drop_last()) + seq![a, b].last());
        assert(sum_spec(seq![a, b]) == a + b);
    }
}

/// A counter rollback (`current < previous`) yields a rate of zero, never a
/// huge wrapped-around value.
pub proof fn lemma_rate_rollback(current: u64, previous: u64, elapsed_seconds: u64)
    requires
        current < previous,
    ensures
        rate_spec(current, previous, elapsed_seconds) == 0,
{
}

/// When no time has elapsed the rate is zero, regardless of the counter
/// deltas.
pub proof fn lemma_rate_zero_elapsed(current: u64, previous: u64)
    ensures
        rate_spec(current, previous, 0) == 0,
{
}

/// A delta of 1000 bytes over 10 seconds is always 100 bytes per second.
pub proof fn lemma_rate_fixed_delta(current: u64, previous: u64)
    requires
        current >= previous,
        current - previous == 1000,
    ensures
        rate_spec(current, previous, 10) == 100,
{
}

} // verus!
