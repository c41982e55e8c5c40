use esnode_core::predictive::{assess, FailureRiskPredictor, RiskInputs};
use esnode_core::rca::{AnalysisWindow, RcaEngine, RootCause};
use esnode_core::state::{GpuHealth, GpuStatus, StatusSnapshot, StatusState};

#[test]
fn test_window_logic() {
    let mut window = AnalysisWindow::new(10_000, 1_000);
    assert_eq!(window.capacity(), 10);

    let status = StatusState::new(true);
    for _ in 0..15 {
        window.add(status.snapshot());
    }
    assert_eq!(window.len(), 10);
}

#[test]
fn window_capacity_rounds_up() {
    assert_eq!(AnalysisWindow::new(10_500, 1_000).capacity(), 11);
    assert_eq!(AnalysisWindow::new(300_000, 15_000).capacity(), 20);
}

#[test]
fn test_predictor_high_risk() {
    let mut predictor = FailureRiskPredictor::new();
    let health = GpuHealth {
        ecc_uncorrected_aggregate: Some(5),
        retired_pages: Some(2),
        ..Default::default()
    };
    let gpu = GpuStatus {
        uuid: Some("GPU-TEST-1".to_string()),
        health: Some(health),
        ..Default::default()
    };
    let snapshot = StatusSnapshot { gpus: vec![gpu], ..Default::default() };

    let analysis = predictor.analyze(&snapshot, 0);
    let result = &analysis.iter().find(|(id, _)| id == "GPU-TEST-1").unwrap().1;

    assert!(result.risk_score >= 80);
    assert!(result.failure_probability_bp >= 5_000);
    assert!(result.factors.iter().any(|f| f.contains("uncorrected ECC")));
    assert!(result.factors.iter().any(|f| f.contains("Memory page retirement")));
}

#[test]
fn risk_score_formula() {
    let a = assess(RiskInputs {
        uncorrected_ecc: Some(5),
        corrected_ecc_delta: 0,
        thermal_samples: 0,
        retired_pages: Some(2),
    });
    assert_eq!(a.risk_score, 100);
    assert_eq!(a.failure_probability_bp, 100 + 5_000 + 1_500);
    assert_eq!(a.factors, vec![
        "Has 5 uncorrected ECC errors (Critical)".to_string(),
        "Memory page retirement detected (2 pages)".to_string(),
    ]);
    let b = assess(RiskInputs {
        uncorrected_ecc: Some(0),
        corrected_ecc_delta: 150,
        thermal_samples: 11,
        retired_pages: Some(1),
    });
    assert_eq!(b.risk_score, 50);
    assert_eq!(b.failure_probability_bp, 100 + 500 + 1_000);
    assert_eq!(b.factors, vec![
        "Moderate corrected ECC errors (150 in 1h)".to_string(),
        "Persistent thermal throttling detected (11 samples)".to_string(),
    ]);
    let c = assess(RiskInputs {
        uncorrected_ecc: None,
        corrected_ecc_delta: 1001,
        thermal_samples: 10,
        retired_pages: None,
    });
    assert_eq!(c.risk_score, 50);
    assert_eq!(c.failure_probability_bp, 2_100);
    let all = assess(RiskInputs {
        uncorrected_ecc: Some(1),
        corrected_ecc_delta: 5000,
        thermal_samples: 50,
        retired_pages: Some(9),
    });
    assert_eq!(all.failure_probability_bp, 9_600);
    assert_eq!(all.risk_score, 100);
}

fn health_gpu(corrected: u64, reasons: &[&str]) -> StatusSnapshot {
    let gpu = GpuStatus {
        gpu: "0".to_string(),
        health: Some(GpuHealth {
            ecc_corrected_aggregate: Some(corrected),
            throttle_reasons: reasons.iter().map(|r| r.to_string()).collect(),
            ..Default::default()
        }),
        ..Default::default()
    };
    StatusSnapshot { gpus: vec![gpu], ..Default::default() }
}

#[test]
fn predictor_uses_history_window() {
    let mut p = FailureRiskPredictor::new();
    p.analyze(&health_gpu(100, &[]), 0);
    let r = p.analyze(&health_gpu(1_200, &[]), 60_000);
    assert_eq!(r[0].0, "0");
    assert_eq!(r[0].1.risk_score, 50);
    // two hours later the first reading has left the window
    let r = p.analyze(&health_gpu(1_250, &[]), 7_200_000);
    assert_eq!(r[0].1.risk_score, 0);
    for t in 0..11u64 {
        p.analyze(&health_gpu(1_250, &["hw_thermal_slowdown"]), 7_200_000 + t);
    }
    let r = p.analyze(&health_gpu(1_250, &["power_cap"]), 7_200_100);
    assert_eq!(r[0].1.risk_score, 30);
}

fn util_snapshot(util: u64, thermal: bool, net: bool, k8s: bool) -> StatusSnapshot {
    let gpu = GpuStatus { util_milli_pct: Some(util), thermal_throttle: thermal, ..Default::default() };
    StatusSnapshot { gpus: vec![gpu], network_degraded: net, k8s_events_detected: k8s, ..Default::default() }
}

#[test]
fn rca_causes_in_priority_order() {
    let mut e = RcaEngine::new(300_000, 15_000);
    e.add_snapshot(util_snapshot(90_000, false, false, false));
    assert!(e.analyze().is_empty());
    e.add_snapshot(util_snapshot(60_000, true, false, true));
    let ev = e.analyze();
    assert_eq!(ev.len(), 1);
    assert_eq!(ev[0].cause, RootCause::ThermalThrottling);
    assert_eq!(ev[0].confidence_pct, 100);
    assert_eq!(ev[0].gpu_index, 0);
    assert_eq!(ev[0].description, "GPU-0 utilization dropped due to thermal throttling");

    let mut e = RcaEngine::new(300_000, 15_000);
    e.add_snapshot(util_snapshot(90_000, false, true, false));
    e.add_snapshot(util_snapshot(60_000, true, false, true));
    let ev = e.analyze();
    assert_eq!(ev[0].cause, RootCause::NetworkLatency);
    assert_eq!(ev[0].confidence_pct, 80);
    assert_eq!(
        ev[0].description,
        "GPU-0 utilization dropped from 90.0% to 60.0% coincident with network degradation"
    );

    let mut e = RcaEngine::new(300_000, 15_000);
    e.add_snapshot(util_snapshot(90_000, false, false, false));
    e.add_snapshot(util_snapshot(60_000, false, false, true));
    let ev = e.analyze();
    assert_eq!(ev[0].cause, RootCause::KubernetesEvents);
    assert_eq!(ev[0].confidence_pct, 90);
}

#[test]
fn rca_ignores_small_drops() {
    let mut e = RcaEngine::new(300_000, 15_000);
    e.add_snapshot(util_snapshot(90_000, true, true, true));
    e.add_snapshot(util_snapshot(70_000, true, true, true));
    assert!(e.analyze().is_empty());
    let mut e = RcaEngine::new(300_000, 15_000);
    e.add_snapshot(util_snapshot(50_000, true, true, true));
    e.add_snapshot(util_snapshot(0, true, true, true));
    assert!(e.analyze().is_empty());
}

#[test]
fn repeated_gpu_id_continues_its_history() {
    let mut p = FailureRiskPredictor::new();
    let mut snap = health_gpu(100, &[]);
    let second = health_gpu(1_200, &[]).gpus.pop().unwrap();
    snap.gpus.push(second);
    let r = p.analyze(&snap, 0);
    assert_eq!(r[0].1.risk_score, 0);
    assert_eq!(r[1].1.risk_score, 50);
}
