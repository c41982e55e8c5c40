use esnode_core::orchestrator::{
    check_thermals, device_from_gpu, Device, DeviceKind, Orchestrator, PlacementConfig, Task,
};
use esnode_core::state::GpuStatus;

fn device(id: &str, temp: i64, power: u64) -> Device {
    Device {
        id: id.to_string(),
        kind: DeviceKind::Cpu,
        peak_tflops: 1,
        mem_gib: 32,
        power_idle_mw: 40_000,
        power_max_mw: 100_000,
        current_load: 100,
        last_seen: 0,
        temperature_milli_c: Some(temp),
        real_power_mw: Some(power),
        assigned_tasks: vec![],
    }
}

fn config() -> PlacementConfig {
    PlacementConfig { enable_turbo_mode: false, enable_zombie_reaper: false, enable_thermal_management: true }
}

#[test]
fn test_thermal_avoidance() {
    let dev1 = device("cpu1", 30_000, 45_000);
    let dev2 = device("cpu2", 95_000, 95_000);
    let orch = Orchestrator::new(vec![dev1, dev2], config());
    let task = Task { id: "hot_task".to_string(), preferred_kinds: None };
    let chosen = orch.pick_device_for_task(&task).expect("Should pick a device");
    assert_eq!(chosen, "cpu1", "Should have picked cpu1 (30C) over cpu2 (95C)");
}

#[test]
fn thermal_tick_raises_hot_load() {
    let mut orch = Orchestrator::new(vec![device("cpu1", 30_000, 1), device("cpu2", 95_000, 1)], config());
    check_thermals(&mut orch);
    assert_eq!(orch.devices[0].current_load, 100);
    assert_eq!(orch.devices[1].current_load, 600);
    check_thermals(&mut orch);
    assert_eq!(orch.devices[1].current_load, 1000);
    let task = Task { id: "t".to_string(), preferred_kinds: None };
    assert_eq!(orch.pick_device_for_task(&task).as_deref(), Some("cpu1"));
}

#[test]
fn placement_prefers_least_load_and_kind() {
    let mut a = device("a", 20_000, 1);
    a.current_load = 500;
    let mut b = device("b", 20_000, 1);
    b.current_load = 200;
    b.kind = DeviceKind::Gpu;
    let orch = Orchestrator::new(vec![a, b], config());
    let any = Task { id: "t".to_string(), preferred_kinds: None };
    assert_eq!(orch.pick_device_for_task(&any).as_deref(), Some("b"));
    let cpu_only = Task { id: "t".to_string(), preferred_kinds: Some(vec![DeviceKind::Cpu]) };
    assert_eq!(orch.pick_device_for_task(&cpu_only).as_deref(), Some("a"));
    let empty = Orchestrator::new(vec![], config());
    assert_eq!(empty.pick_device_for_task(&any), None);
    let hot_only = Orchestrator::new(vec![device("h", 99_000, 1)], config());
    assert_eq!(hot_only.pick_device_for_task(&any).as_deref(), Some("h"));
}

#[test]
fn update_device_replaces_by_id() {
    let mut orch = Orchestrator::new(vec![device("a", 1, 1)], config());
    let mut a2 = device("a", 2, 2);
    a2.current_load = 7;
    orch.update_device(a2);
    orch.update_device(device("b", 3, 3));
    assert_eq!(orch.devices.len(), 2);
    assert_eq!(orch.devices[0].current_load, 7);
}

#[test]
fn gpu_becomes_device_record() {
    let g = GpuStatus {
        gpu: "0".to_string(),
        uuid: Some("GPU-abc".to_string()),
        memory_total_bytes: Some(80 * 1_073_741_824),
        util_milli_pct: Some(55_000),
        power_mw: Some(50_000),
        temperature_milli_c: Some(61_000),
        ..Default::default()
    };
    let d = device_from_gpu(&g, 42);
    assert_eq!(d.id, "GPU-abc");
    assert_eq!(d.kind, DeviceKind::Gpu);
    assert_eq!(d.mem_gib, 80);
    assert_eq!(d.current_load, 550);
    assert_eq!(d.power_max_mw, 100_000);
    assert_eq!(d.power_idle_mw, 20_000);
    assert_eq!(d.last_seen, 42);
    assert_eq!(d.temperature_milli_c, Some(61_000));
    let bare = GpuStatus { gpu: "1".to_string(), ..Default::default() };
    let d = device_from_gpu(&bare, 0);
    assert_eq!(d.id, "1");
    assert_eq!(d.power_max_mw, 250_000);
}

#[test]
fn update_device_appends_new_ids() {
    let mut orch = Orchestrator::new(vec![], config());
    orch.update_device(device("x", 1, 1));
    orch.update_device(device("y", 1, 1));
    orch.update_device(device("x", 2, 2));
    assert_eq!(orch.devices.len(), 2);
    assert_eq!(orch.devices[0].temperature_milli_c, Some(2));
    assert_eq!(orch.devices[1].id, "y");
}
