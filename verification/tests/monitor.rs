use nexmon::aggregator::build_snapshot;
use nexmon::aggregator::compute_cpu_average;
use nexmon::aggregator::compute_rate;
use nexmon::aggregator::RateState;
use nexmon::driver::Driver;
use nexmon::driver::DriverAction;
use nexmon::driver::DriverEvent;
use nexmon::driver::DriverState;
use nexmon::models::system_info;
use nexmon::models::ProcessInfo;
use nexmon::models::RawReading;
use nexmon::models::SelectionPolicy;
use nexmon::select::select_processes;

fn proc_with(pid: u32, cpu: u64) -> ProcessInfo {
    ProcessInfo { pid, name: format!("proc-{}", pid), cpu, memory: 1024 * pid as u64 }
}

fn reading(
    cores: Vec<u64>,
    ram_total: u64,
    ram_used: u64,
    rx: u64,
    tx: u64,
    t_ms: u64,
) -> RawReading {
    RawReading {
        cores,
        ram_total,
        ram_used,
        ram_free: None,
        net_rx_total: rx,
        net_tx_total: tx,
        timestamp_ms: t_ms,
        processes: Vec::new(),
    }
}

#[test]
fn cpu_average_of_no_cores_is_zero() {
    assert_eq!(compute_cpu_average(&Vec::new()), 0);
}

#[test]
fn cpu_average_of_one_core_is_that_core() {
    assert_eq!(compute_cpu_average(&vec![4275]), 4275);
}

#[test]
fn cpu_average_of_two_cores_is_half_the_sum() {
    assert_eq!(compute_cpu_average(&vec![1000, 3000]), 2000);
    // Truncated, never rounded up.
    assert_eq!(compute_cpu_average(&vec![1, 2]), 1);
}

#[test]
fn cpu_average_of_many_cores() {
    assert_eq!(compute_cpu_average(&vec![100, 200, 300, 400]), 250);
}

#[test]
fn rate_on_counter_rollback_is_zero() {
    assert_eq!(compute_rate(5, 100, 10), 0);
    assert_eq!(compute_rate(0, u64::MAX, 1), 0);
}

#[test]
fn rate_with_zero_elapsed_is_zero() {
    assert_eq!(compute_rate(1_000_000, 0, 0), 0);
}

#[test]
fn rate_of_thousand_bytes_over_ten_seconds() {
    assert_eq!(compute_rate(1500, 500, 10), 100);
    assert_eq!(compute_rate(1000, 0, 10), 100);
}

#[test]
fn top_five_of_eight_sorted_descending_stable() {
    let input = vec![
        proc_with(1, 500),
        proc_with(2, 300),
        proc_with(3, 500),
        proc_with(4, 100),
        proc_with(5, 500),
        proc_with(6, 200),
        proc_with(7, 400),
        proc_with(8, 50),
    ];
    let top = select_processes(input, SelectionPolicy::TopByCpu { count: 5 });
    assert_eq!(top.len(), 5);
    let cpus: Vec<u64> = top.iter().map(|p| p.cpu).collect();
    assert_eq!(cpus, vec![500, 500, 500, 400, 300]);
    // The three tied processes keep their enumeration order.
    let pids: Vec<u32> = top.iter().map(|p| p.pid).collect();
    assert_eq!(pids, vec![1, 3, 5, 7, 2]);
}

#[test]
fn top_n_larger_than_input_returns_all_sorted() {
    let input = vec![proc_with(1, 10), proc_with(2, 30), proc_with(3, 20)];
    let top = select_processes(input, SelectionPolicy::TopByCpu { count: 10 });
    let pids: Vec<u32> = top.iter().map(|p| p.pid).collect();
    assert_eq!(pids, vec![2, 3, 1]);
}

#[test]
fn all_policy_keeps_enumeration_order() {
    let input = vec![proc_with(9, 1), proc_with(4, 99), proc_with(7, 50)];
    let all = select_processes(input, SelectionPolicy::All);
    let pids: Vec<u32> = all.iter().map(|p| p.pid).collect();
    assert_eq!(pids, vec![9, 4, 7]);
}

#[test]
fn snapshot_end_to_end() {
    let mut state = RateState::new();
    let raw = reading(vec![1000, 3000], 16_000_000_000, 8_000_000_000, 0, 0, 1000);
    let snap = build_snapshot(raw, &mut state, SelectionPolicy::All);
    assert_eq!(snap.cpu_usage, 2000);
    assert_eq!(snap.ram_total, 16_000_000_000);
    assert_eq!(snap.ram_used, 8_000_000_000);
    assert_eq!(snap.ram_free, 8_000_000_000);
    assert_eq!(snap.disk_read_speed, 0);
    assert_eq!(snap.disk_write_speed, 0);
}

#[test]
fn reported_free_memory_passes_through() {
    let mut state = RateState::new();
    let mut raw = reading(vec![], 100, 40, 0, 0, 0);
    raw.ram_free = Some(55);
    let snap = build_snapshot(raw, &mut state, SelectionPolicy::All);
    assert_eq!(snap.ram_free, 55);
}

#[test]
fn derived_free_memory_clamps_at_zero() {
    let mut state = RateState::new();
    let snap = build_snapshot(reading(vec![], 100, 150, 0, 0, 0), &mut state, SelectionPolicy::All);
    assert_eq!(snap.ram_free, 0);
}

#[test]
fn first_tick_reports_zero_rates() {
    let mut state = RateState::new();
    let snap = build_snapshot(
        reading(vec![], 1, 0, 999_999, 888_888, 5000),
        &mut state,
        SelectionPolicy::All,
    );
    assert_eq!(snap.net_rx_speed, 0);
    assert_eq!(snap.net_tx_speed, 0);
}

#[test]
fn two_ticks_two_seconds_apart() {
    let mut state = RateState::new();
    let first = build_snapshot(reading(vec![], 1, 0, 0, 0, 1000), &mut state, SelectionPolicy::All);
    assert_eq!(first.net_rx_speed, 0);
    let second = build_snapshot(
        reading(vec![], 1, 0, 4096, 1024, 3000),
        &mut state,
        SelectionPolicy::All,
    );
    assert_eq!(second.net_rx_speed, 2048);
    assert_eq!(second.net_tx_speed, 512);
}

#[test]
fn driver_runs_a_full_tick() {
    let mut driver = Driver::new(2000, SelectionPolicy::TopByCpu { count: 5 });
    assert!(matches!(driver.state, DriverState::Idle));
    let action = driver.step(DriverEvent::TickElapsed);
    assert!(matches!(action, DriverAction::Sample));
    let raw = reading(vec![5000], 100, 60, 2048, 0, 1000);
    let action = driver.step(DriverEvent::ReadingReady(raw));
    assert!(matches!(action, DriverAction::Aggregate));
    let snap = driver.aggregate().unwrap();
    assert_eq!(snap.cpu_usage, 5000);
    assert_eq!(snap.ram_free, 40);
    let action = driver.step(DriverEvent::PublishAttempted(true));
    assert!(matches!(action, DriverAction::Wait));
    assert!(matches!(driver.state, DriverState::Idle));
}

#[test]
fn publish_failure_does_not_end_the_cycle() {
    let mut driver = Driver::new(2000, SelectionPolicy::All);
    driver.step(DriverEvent::TickElapsed);
    driver.step(DriverEvent::ReadingReady(reading(vec![], 1, 0, 0, 0, 1000)));
    driver.aggregate().unwrap();
    // The sink rejects the snapshot: the tick is abandoned for this cycle only.
    let action = driver.step(DriverEvent::PublishAttempted(false));
    assert!(matches!(action, DriverAction::Wait));
    assert!(matches!(driver.state, DriverState::Idle));
    // The following tick still executes.
    let action = driver.step(DriverEvent::TickElapsed);
    assert!(matches!(action, DriverAction::Sample));
    driver.step(DriverEvent::ReadingReady(reading(vec![], 1, 0, 0, 0, 3000)));
    assert!(driver.aggregate().is_some());
}

#[test]
fn mismatched_events_are_ignored() {
    let mut driver = Driver::new(2000, SelectionPolicy::All);
    let action = driver.step(DriverEvent::PublishAttempted(true));
    assert!(matches!(action, DriverAction::Ignore));
    assert!(matches!(driver.state, DriverState::Idle));
    assert!(driver.aggregate().is_none());
    let action = driver.step(DriverEvent::TickElapsed);
    assert!(matches!(action, DriverAction::Sample));
    let action = driver.step(DriverEvent::TickElapsed);
    assert!(matches!(action, DriverAction::Ignore));
    assert!(matches!(driver.state, DriverState::Sampling));
}

#[test]
fn host_identity_falls_back_on_unknown_hostname() {
    let info = system_info(String::from("ada"), None, String::from("linux"));
    assert_eq!(info.username, "ada");
    assert_eq!(info.hostname, "Unknown Host");
    assert_eq!(info.os, "linux");
    let info = system_info(String::from("ada"), Some(String::from("box")), String::from("linux"));
    assert_eq!(info.hostname, "box");
}
