use esnode_core::derivations::PcieLinkSpeed;
use esnode_core::gpu::build_filter;
use esnode_core::gpu_events::{tally, EventQueue, GpuEvent, GpuEventKind, EVENT_QUEUE_DEPTH};
use esnode_core::gpu_tracker::{GpuReading, GpuTracker, NvLinkReading};

fn reading(index: u32, uuid: &str, power_mw: u64, ecc: u64, replay: u64, link_rx: u64) -> GpuReading {
    GpuReading {
        index,
        uuid: Some(uuid.to_string()),
        power_mw: Some(power_mw),
        ecc_corrected_aggregate: Some(ecc),
        ecc_uncorrected_aggregate: None,
        pcie_tx_kbps: Some(7_812_500),
        pcie_rx_kbps: Some(0),
        pcie_link: Some((PcieLinkSpeed::Gen3, 16)),
        pcie_replay: Some(replay),
        nvlinks: vec![NvLinkReading { link: 0, rx_bytes: link_rx, tx_bytes: 10, errors: 1 }],
        throttle_bits: Some(0x40),
    }
}

#[test]
fn gpu_tick_derives_deltas_energy_and_bandwidth() {
    let mut t = GpuTracker::new();
    let first = t.observe(&None, &vec![reading(0, "GPU-a", 250_000, 100, 5, 1_000)], 1_000);
    let d = &first.devices[0];
    assert_eq!(d.energy_joules, 0);
    assert_eq!(d.ecc_corrected_delta, Some(100));
    assert_eq!(d.pcie_replay_delta, Some(5));
    assert_eq!(d.pcie_bandwidth_milli_pct, Some(6_250));
    assert_eq!(d.nvlinks[0].rx_bytes, None);
    assert!(d.thermal_throttle);
    assert!(!d.power_throttle);

    let second = t.observe(&None, &vec![reading(0, "GPU-a", 300_000, 90, 8, 1_500)], 3_000);
    let d = &second.devices[0];
    // 250 W for 2 s
    assert_eq!(d.energy_joules, 500);
    assert_eq!(d.ecc_corrected_delta, Some(0));
    assert_eq!(d.pcie_replay_delta, Some(3));
    assert_eq!(d.nvlinks[0].rx_bytes, Some(500));
    assert_eq!(d.nvlinks[0].errors, Some(0));
    assert_eq!(d.uuid.as_deref(), Some("GPU-a"));
}

#[test]
fn hidden_gpus_are_skipped() {
    let mut t = GpuTracker::new();
    let filter = build_filter(Some("1,GPU-c"));
    let tick = t.observe(
        &filter,
        &vec![reading(0, "GPU-a", 1, 0, 0, 0), reading(1, "GPU-b", 1, 0, 0, 0), reading(2, "GPU-c", 1, 0, 0, 0)],
        0,
    );
    let indices: Vec<u32> = tick.devices.iter().map(|d| d.index).collect();
    assert_eq!(indices, vec![1, 2]);
}

fn event(kind: GpuEventKind, ts: u64) -> GpuEvent {
    GpuEvent { uuid: "GPU-a".to_string(), index: 0, kind, xid_code: None, ts_ms: ts }
}

#[test]
fn event_queue_drops_oldest_and_drains_in_order() {
    let mut q = EventQueue::new();
    for ts in 0..(EVENT_QUEUE_DEPTH as u64 + 4) {
        q.push(event(GpuEventKind::Xid, ts));
    }
    assert_eq!(q.len(), EVENT_QUEUE_DEPTH);
    let first = q.drain(2);
    assert_eq!(first[0].ts_ms, 4);
    assert_eq!(first[1].ts_ms, 5);
    assert_eq!(q.len(), EVENT_QUEUE_DEPTH - 2);
    let rest = q.drain(10_000);
    assert_eq!(rest.len(), EVENT_QUEUE_DEPTH - 2);
    assert_eq!(q.len(), 0);
}

#[test]
fn events_are_counted_by_kind() {
    let evs = vec![
        event(GpuEventKind::Xid, 1),
        event(GpuEventKind::EccDouble, 2),
        event(GpuEventKind::Xid, 3),
        event(GpuEventKind::Clock, 4),
    ];
    let c = tally(&evs);
    assert_eq!((c.xid, c.ecc_single, c.ecc_double, c.pstate, c.clock), (2, 0, 1, 0, 1));
}
