use esnode_core::scheduler::{k8s_events_from_load, tsdb_write_due, TickLedger};
use esnode_core::state::{degradation_score, GpuHealth, GpuStatus, StatusSnapshot, StatusState, TemperatureReading};

#[test]
fn error_ring_keeps_latest_ten_in_order() {
    let mut s = StatusState::new(true);
    for i in 0..15u64 {
        s.record_error("cpu", format!("e{i}"), i);
    }
    let snap = s.snapshot();
    assert_eq!(snap.last_errors.len(), 10);
    for (k, e) in snap.last_errors.iter().enumerate() {
        assert_eq!(e.unix_ms, 5 + k as u64);
        assert_eq!(e.message, format!("e{}", 5 + k));
        assert_eq!(e.collector, "cpu");
    }
}

#[test]
fn snapshot_is_a_detached_copy() {
    let mut s = StatusState::new(true);
    s.set_gpu_statuses(vec![GpuStatus { gpu: "0".to_string(), ..Default::default() }]);
    s.set_cpu_temperatures(vec![TemperatureReading { sensor: "pkg".to_string(), milli_celsius: 40_000 }]);
    let snap = s.snapshot();
    s.set_healthy(false);
    s.set_gpu_statuses(vec![]);
    s.record_error("gpu", "boom".to_string(), 7);
    assert!(snap.healthy);
    assert_eq!(snap.gpus.len(), 1);
    assert_eq!(snap.gpus[0].gpu, "0");
    assert!(snap.last_errors.is_empty());
    assert_eq!(snap.cpu_temperatures[0].milli_celsius, 40_000);
    assert!(!s.snapshot().healthy);
}

#[test]
fn setters_reach_the_snapshot() {
    let mut s = StatusState::new(false);
    s.set_node_power(0);
    assert_eq!(s.snapshot().node_power_mw, None);
    s.set_node_power(350_000);
    s.set_last_scrape(1234);
    s.set_cpu_summary(Some(8), Some(12_500), 1_500, Some(1_000), None, Some(60));
    s.set_memory_summary(Some(100), Some(40), Some(60), None);
    s.set_disk_summary(Some(1000), Some(10), Some(5));
    s.set_network_summary(Some("eth0".to_string()), Some(1), Some(2), None);
    s.set_cpu_package_power("pkg0".to_string(), 10);
    s.set_cpu_package_power("pkg1".to_string(), 20);
    s.set_cpu_package_power("pkg0".to_string(), 30);
    let snap = s.snapshot();
    assert_eq!(snap.node_power_mw, Some(350_000));
    assert_eq!(snap.last_scrape_unix_ms, 1234);
    assert_eq!(snap.load_avg_1m_milli, 1_500);
    assert_eq!(snap.host.cpu_cores, Some(8));
    assert_eq!(snap.host.mem_free_bytes, Some(60));
    assert_eq!(snap.host.disk_root_io_time_ms, Some(5));
    assert_eq!(snap.primary_nic.as_deref(), Some("eth0"));
    assert_eq!(snap.cpu_package_power.len(), 2);
    assert_eq!(snap.cpu_package_power[0].package, "pkg0");
    assert_eq!(snap.cpu_package_power[0].milliwatts, 30);
    assert_eq!(snap.cpu_package_power[1].milliwatts, 20);
    assert!(!snap.healthy);
}

#[test]
fn degradation_score_formula() {
    let clean = StatusSnapshot::default();
    assert_eq!(degradation_score(&clean), 0);
    let gpu = GpuStatus {
        thermal_throttle: true,
        power_throttle: true,
        health: Some(GpuHealth { ecc_uncorrected_aggregate: Some(1), ..Default::default() }),
        ..Default::default()
    };
    let mut s = StatusState::new(true);
    s.set_gpu_statuses(vec![gpu]);
    s.record_error("a", "x".to_string(), 1);
    s.record_error("b", "y".to_string(), 2);
    s.update_degradation_score();
    // 2 errors * 5 + 15 + 5 + 30
    assert_eq!(s.snapshot().degradation_score, 60);
    let hot = || GpuStatus { thermal_throttle: true, ..Default::default() };
    let many = StatusSnapshot { gpus: (0..10).map(|_| hot()).collect(), ..Default::default() };
    assert_eq!(degradation_score(&many), 100);
}

#[test]
fn clean_ticks_stay_healthy_with_zero_errors() {
    let mut ledger = TickLedger::new(3);
    for _ in 0..5 {
        assert!(ledger.run_tick(&vec![true, true, true]));
    }
    assert!(ledger.healthy());
    for c in 0..3 {
        assert_eq!(ledger.error_count(c), 0);
    }
    assert!(!ledger.run_tick(&vec![true, false, true]));
    assert!(!ledger.healthy());
    assert_eq!(ledger.error_count(1), 1);
    assert!(ledger.run_tick(&vec![true, true, true]));
    assert_eq!(ledger.error_count(1), 1);
}

#[test]
fn tick_side_rules() {
    assert!(!k8s_events_from_load(8_000));
    assert!(k8s_events_from_load(8_001));
    assert!(tsdb_write_due(30_000, 0));
    assert!(!tsdb_write_due(29_999, 0));
}
