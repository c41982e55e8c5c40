use vstd::prelude::*;
use vstd::string::*;
use crate::numtext::str_eq;
use crate::state::GpuStatus;

verus! {

/// Temperature above which a device counts as overheating, in thousandths of a degree.
pub const HOT_MILLI_C: i64 = 85_000;

/// Load is held in thousandths; this is a fully loaded device.
pub const FULL_LOAD: u64 = 1000;

#[derive(Clone, Copy, Debug, PartialEq, Eq, Structural)]
pub enum DeviceKind {
    Cpu,
    Gpu,
}

/// A compute device as the orchestrator models it. Power is in milliwatts, load in
/// thousandths (0 to 1000).
#[derive(Debug)]
pub struct Device {
    pub id: String,
    pub kind: DeviceKind,
    pub peak_tflops: u64,
    pub mem_gib: u64,
    pub power_idle_mw: u64,
    pub power_max_mw: u64,
    pub current_load: u64,
    pub last_seen: u64,
    pub temperature_milli_c: Option<i64>,
    pub real_power_mw: Option<u64>,
    pub assigned_tasks: Vec<String>,
}

/// Switches of the placement logic.
#[derive(Clone, Copy, Debug, PartialEq, Eq, Structural)]
pub struct PlacementConfig {
    pub enable_turbo_mode: bool,
    pub enable_zombie_reaper: bool,
    pub enable_thermal_management: bool,
}

/// A unit of work to place.
#[derive(Debug)]
pub struct Task {
    pub id: String,
    pub preferred_kinds: Option<Vec<DeviceKind>>,
}

/// The devices and the settings of the orchestrator.
#[derive(Debug)]
pub struct Orchestrator {
    pub devices: Vec<Device>,
    pub config: PlacementConfig,
}

pub open spec fn is_hot(d: Device) -> bool {
    d.temperature_milli_c matches Some(t) && t > HOT_MILLI_C
}

/// The load after a thermal tick: raised by half of full load where the device is hot,
/// never above full load.
pub open spec fn cooled_load(d: Device) -> u64 {
    if is_hot(d) {
        if d.current_load + 500 > FULL_LOAD { FULL_LOAD } else { (d.current_load + 500) as u64 }
    } else {
        d.current_load
    }
}

/// Raises the load of every overheating device so that new work avoids it.
pub fn check_thermals(orch: &mut Orchestrator)
    ensures
        final(orch).devices@.len() == old(orch).devices@.len(),
        final(orch).config == old(orch).config,
        forall|i: int| 0 <= i < final(orch).devices@.len() ==> (#[trigger] final(orch).devices@[i])
            == (Device { current_load: cooled_load(old(orch).devices@[i]), ..old(orch).devices@[i] }),
{
    let mut i: usize = 0;
    while i < orch.devices.len()
        invariant
            i <= orch.devices@.len(),
            orch.devices@.len() == old(orch).devices@.len(),
            orch.config == old(orch).config,
            forall|k: int| 0 <= k < i ==> (#[trigger] orch.devices@[k]) == (Device {
                current_load: cooled_load(old(orch).devices@[k]),
                ..old(orch).devices@[k]
            }),
            forall|k: int| i <= k < orch.devices@.len() ==> (#[trigger] orch.devices@[k])
                == old(orch).devices@[k],
        decreases orch.devices@.len() - i,
    {
        let hot = match orch.devices[i].temperature_milli_c {
            Some(t) => t > HOT_MILLI_C,
            None => false,
        };
        if hot {
            let mut d = orch.devices.remove(i);
            let raised = d.current_load.saturating_add(500);
            d.current_load = if raised > FULL_LOAD { FULL_LOAD } else { raised };
            orch.devices.insert(i, d);
        }
        i = i + 1;
    }
}

/// Whether the task may run on the device.
pub open spec fn kind_ok(t: Task, d: Device) -> bool {
    match t.preferred_kinds {
        None => true,
        Some(ks) => ks@.contains(d.kind),
    }
}

/// Whether some device that the task may run on is not overheating.
pub open spec fn has_cool_candidate(devs: Seq<Device>, t: Task) -> bool {
    exists|j: int| 0 <= j < devs.len() && kind_ok(t, #[trigger] devs[j]) && !is_hot(devs[j])
}

/// Whether device `j` is considered: its kind fits, and with thermal management on it is
/// not overheating unless every fitting device is.
pub open spec fn eligible(devs: Seq<Device>, t: Task, thermal: bool, j: int) -> bool {
    &&& 0 <= j < devs.len()
    &&& kind_ok(t, devs[j])
    &&& !(thermal && is_hot(devs[j]) && has_cool_candidate(devs, t))
}

/// Whether `i` is the device to pick: eligible, least loaded, and first among equals.
pub open spec fn best_choice(devs: Seq<Device>, t: Task, thermal: bool, i: int) -> bool {
    &&& eligible(devs, t, thermal, i)
    &&& forall|j: int| #[trigger] eligible(devs, t, thermal, j) ==> devs[i].current_load <= devs[j].current_load
    &&& forall|j: int| 0 <= j < i && #[trigger] eligible(devs, t, thermal, j) ==> devs[j].current_load
        > devs[i].current_load
}

fn kind_matches(t: &Task, d: &Device) -> (r: bool)
    ensures
        r == kind_ok(*t, *d),
{
    match &t.preferred_kinds {
        None => true,
        Some(ks) => {
            let mut i: usize = 0;
            while i < ks.len()
                invariant
                    i <= ks@.len(),
                    t.preferred_kinds == Some(*ks),
                    forall|k: int| 0 <= k < i ==> ks@[k] != d.kind,
                decreases ks@.len() - i,
            {
                if ks[i] == d.kind {
                    assert(ks@[i as int] == d.kind);
                    assert(ks@.contains(d.kind));
                    return true;
                }
                i = i + 1;
            }
            false
        },
    }
}

impl Orchestrator {
    pub fn new(devices: Vec<Device>, config: PlacementConfig) -> (r: Self)
        ensures
            r.devices@ == devices@,
            r.config == config,
    {
        Orchestrator { devices, config }
    }

    /// Picks the device for a task: the least loaded one that the task may run on, the first
    /// among equals; with thermal management on, overheating devices only when nothing else
    /// fits. Returns its id; `None` where no device fits.
    pub fn pick_device_for_task(&self, task: &Task) -> (r: Option<String>)
        ensures
            match r {
                Some(id) => exists|i: int| best_choice(self.devices@, *task,
                    self.config.enable_thermal_management, i) && id@ == self.devices@[i].id@,
                None => forall|j: int| 0 <= j < self.devices@.len() ==> !kind_ok(*task,
                    #[trigger] self.devices@[j]),
            },
    {
        let devs = &self.devices;
        let thermal = self.config.enable_thermal_management;
        let mut cool = false;
        let mut k: usize = 0;
        while k < devs.len()
            invariant
                k <= devs@.len(),
                cool == exists|j: int| 0 <= j < k && kind_ok(*task, #[trigger] devs@[j]) && !is_hot(devs@[j]),
            decreases devs@.len() - k,
        {
            let hot = match devs[k].temperature_milli_c {
                Some(t) => t > HOT_MILLI_C,
                None => false,
            };
            if kind_matches(task, &devs[k]) && !hot {
                cool = true;
            }
            k = k + 1;
        }
        assert(cool == has_cool_candidate(devs@, *task));
        let mut best: Option<usize> = None;
        let mut i: usize = 0;
        while i < devs.len()
            invariant
                i <= devs@.len(),
                cool == has_cool_candidate(devs@, *task),
                thermal == self.config.enable_thermal_management,
                *devs == self.devices,
                match best {
                    None => forall|j: int| 0 <= j < i ==> !eligible(devs@, *task, thermal, j),
                    Some(b) => b < i && eligible(devs@, *task, thermal, b as int)
                        && (forall|j: int| 0 <= j < i && #[trigger] eligible(devs@, *task, thermal, j)
                            ==> devs@[b as int].current_load <= devs@[j].current_load)
                        && (forall|j: int| 0 <= j < b && #[trigger] eligible(devs@, *task, thermal, j)
                            ==> devs@[j].current_load > devs@[b as int].current_load),
                },
            decreases devs@.len() - i,
        {
            let hot = match devs[i].temperature_milli_c {
                Some(t) => t > HOT_MILLI_C,
                None => false,
            };
            let ok = kind_matches(task, &devs[i]) && !(thermal && hot && cool);
            assert(ok == eligible(devs@, *task, thermal, i as int));
            if ok {
                match best {
                    None => {
                        best = Some(i);
                    },
                    Some(b) => {
                        if devs[i].current_load < devs[b].current_load {
                            best = Some(i);
                        }
                    },
                }
            }
            i = i + 1;
        }
        match best {
            None => {
                proof {
                    assert forall|j: int| 0 <= j < devs@.len() implies !kind_ok(*task, #[trigger] devs@[j]) by {
                        if kind_ok(*task, devs@[j]) {
                            assert(!eligible(devs@, *task, thermal, j));
                            assert(has_cool_candidate(devs@, *task));
                            let c = choose|c: int| 0 <= c < devs@.len() && kind_ok(*task, #[trigger] devs@[c]) && !is_hot(devs@[c]);
                            assert(eligible(devs@, *task, thermal, c));
                        }
                    }
                }
                None
            },
            Some(b) => {
                assert(best_choice(devs@, *task, thermal, b as int));
                Some(devs[b].id.clone())
            },
        }
    }

    /// Replaces the first device with the same id, or adds the device at the end.
    pub fn update_device(&mut self, device: Device)
        ensures
            final(self).config == old(self).config,
            match first_with_id(old(self).devices@, device.id@) {
                Some(k) => final(self).devices@ == old(self).devices@.update(k, device),
                None => final(self).devices@ == old(self).devices@.push(device),
            },
    {
        let mut i: usize = 0;
        while i < self.devices.len()
            invariant
                i <= self.devices@.len(),
                self.devices@ == old(self).devices@,
                self.config == old(self).config,
                forall|j: int| 0 <= j < i ==> self.devices@[j].id@ != device.id@,
            decreases self.devices@.len() - i,
        {
            if str_eq(self.devices[i].id.as_str(), device.id.as_str()) {
                proof {
                    lemma_first_with_id(old(self).devices@, device.id@, i as int);
                }
                self.devices.set(i, device);
                return;
            }
            i = i + 1;
        }
        proof {
            lemma_no_id(old(self).devices@, device.id@);
        }
        self.devices.push(device);
    }
}

/// Position of the first device with the given id.
pub open spec fn first_with_id(devs: Seq<Device>, id: Seq<char>) -> Option<int>
    decreases devs.len(),
{
    if devs.len() == 0 {
        None
    } else {
        match first_with_id(devs.drop_last(), id) {
            Some(k) => Some(k),
            None => if devs.last().id@ == id { Some(devs.len() - 1) } else { None },
        }
    }
}

proof fn lemma_first_with_id(devs: Seq<Device>, id: Seq<char>, i: int)
    requires
        0 <= i < devs.len(),
        devs[i].id@ == id,
        forall|j: int| 0 <= j < i ==> devs[j].id@ != id,
    ensures
        first_with_id(devs, id) == Some(i),
    decreases devs.len(),
{
    if i < devs.len() - 1 {
        lemma_first_with_id(devs.drop_last(), id, i);
    } else {
        lemma_no_id(devs.drop_last(), id);
    }
}

proof fn lemma_no_id(devs: Seq<Device>, id: Seq<char>)
    requires
        forall|j: int| 0 <= j < devs.len() ==> devs[j].id@ != id,
    ensures
        first_with_id(devs, id) is None,
    decreases devs.len(),
{
    if devs.len() > 0 {
        lemma_no_id(devs.drop_last(), id);
    }
}

/// Whole GiB in a byte count.
pub open spec fn gib_of(bytes: u64) -> u64 {
    (bytes / 1_073_741_824) as u64
}

/// The device record that a GPU status yields for the orchestrator: id from the UUID (else
/// the name), a static 100 TFLOPs estimate, memory in whole GiB, 20 W idle, a maximum of at
/// least 100 W (250 W without a reading), load from utilisation, and `last_seen = now_ms`.
pub open spec fn device_matches_gpu(d: Device, g: GpuStatus, now_ms: u64) -> bool {
    let live = match g.power_mw {
        Some(p) => p,
        None => 250_000,
    };
    &&& d.id@ == match g.uuid {
        Some(u) => u@,
        None => g.gpu@,
    }
    &&& d.kind == DeviceKind::Gpu
    &&& d.peak_tflops == 100
    &&& d.mem_gib == gib_of(match g.memory_total_bytes {
        Some(b) => b,
        None => 0,
    })
    &&& d.power_idle_mw == 20_000
    &&& d.power_max_mw == if live < 100_000 { 100_000 } else { live }
    &&& d.current_load == match g.util_milli_pct {
        Some(u) => (u / 100) as u64,
        None => 0,
    }
    &&& d.temperature_milli_c == g.temperature_milli_c
    &&& d.real_power_mw == g.power_mw
    &&& d.assigned_tasks@.len() == 0
    &&& d.last_seen == now_ms
}

/// Builds the orchestrator's record of a GPU.
pub fn device_from_gpu(g: &GpuStatus, now_ms: u64) -> (r: Device)
    ensures
        device_matches_gpu(r, *g, now_ms),
{
    let live: u64 = match g.power_mw {
        Some(p) => p,
        None => 250_000,
    };
    Device {
        id: match &g.uuid {
            Some(u) => u.clone(),
            None => g.gpu.clone(),
        },
        kind: DeviceKind::Gpu,
        peak_tflops: 100,
        mem_gib: match g.memory_total_bytes {
            Some(b) => b / 1_073_741_824,
            None => 0,
        },
        power_idle_mw: 20_000,
        power_max_mw: if live < 100_000 { 100_000 } else { live },
        current_load: match g.util_milli_pct {
            Some(u) => u / 100,
            None => 0,
        },
        last_seen: now_ms,
        temperature_milli_c: g.temperature_milli_c,
        real_power_mw: g.power_mw,
        assigned_tasks: Vec::new(),
    }
}

} // verus!
