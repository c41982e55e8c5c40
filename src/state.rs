use vstd::prelude::*;

verus! {

/// How many collector errors the status keeps.
pub const ERROR_RING_CAPACITY: usize = 10;

/// A failure reported by one collector.
#[derive(Debug, Default)]
pub struct CollectorError {
    pub collector: String,
    pub message: String,
    pub unix_ms: u64,
}

/// Power drawn by one CPU package, in milliwatts.
#[derive(Debug, Default)]
pub struct PackagePower {
    pub package: String,
    pub milliwatts: u64,
}

/// One temperature sensor, in thousandths of a degree Celsius.
#[derive(Debug, Default)]
pub struct TemperatureReading {
    pub sensor: String,
    pub milli_celsius: i64,
}

/// Health counters of one GPU.
#[derive(Debug, Default)]
pub struct GpuHealth {
    pub ecc_corrected_aggregate: Option<u64>,
    pub ecc_uncorrected_aggregate: Option<u64>,
    pub retired_pages: Option<u64>,
    pub throttle_reasons: Vec<String>,
}

/// Live status of one GPU. Temperatures are in thousandths of a degree Celsius, percentages
/// in thousandths of a percent, power in milliwatts.
#[derive(Debug, Default)]
pub struct GpuStatus {
    pub gpu: String,
    pub uuid: Option<String>,
    pub temperature_milli_c: Option<i64>,
    pub power_mw: Option<u64>,
    pub util_milli_pct: Option<u64>,
    pub memory_total_bytes: Option<u64>,
    pub memory_used_bytes: Option<u64>,
    pub fan_milli_pct: Option<u64>,
    pub clock_sm_mhz: Option<u64>,
    pub clock_mem_mhz: Option<u64>,
    pub thermal_throttle: bool,
    pub power_throttle: bool,
    pub health: Option<GpuHealth>,
}

/// Host summary. Load averages are in thousandths, rates in thousandths per second.
#[derive(Clone, Copy, Debug, Default, PartialEq, Eq, Structural)]
pub struct HostMetrics {
    pub load_avg_5m_milli: Option<u64>,
    pub load_avg_15m_milli: Option<u64>,
    pub uptime_seconds: Option<u64>,
    pub cpu_cores: Option<u64>,
    pub cpu_util_milli_pct: Option<u64>,
    pub mem_total_bytes: Option<u64>,
    pub mem_used_bytes: Option<u64>,
    pub mem_free_bytes: Option<u64>,
    pub swap_used_bytes: Option<u64>,
    pub disk_root_total_bytes: Option<u64>,
    pub disk_root_used_bytes: Option<u64>,
    pub disk_root_io_time_ms: Option<u64>,
    pub net_rx_milli_bytes_per_sec: Option<u64>,
    pub net_tx_milli_bytes_per_sec: Option<u64>,
    pub net_drops_milli_per_sec: Option<u64>,
}

/// A root-cause finding as the status shows it.
#[derive(Debug, Default)]
pub struct AiopsRcaEvent {
    pub gpu_id: String,
    pub timestamp_ms: u64,
    pub root_cause: String,
    pub confidence_pct: u64,
    pub details: String,
}

/// A failure-risk assessment as the status shows it. The probability is in basis points.
#[derive(Debug, Default)]
pub struct AiopsRiskAssessment {
    pub gpu_id: String,
    pub failure_probability_bp: u64,
    pub risk_score: u64,
    pub factors: Vec<String>,
}

/// An immutable copy of everything the status holds.
#[derive(Debug, Default)]
pub struct StatusSnapshot {
    pub healthy: bool,
    pub load_avg_1m_milli: u64,
    pub last_scrape_unix_ms: u64,
    pub last_errors: Vec<CollectorError>,
    pub node_power_mw: Option<u64>,
    pub cpu_package_power: Vec<PackagePower>,
    pub cpu_temperatures: Vec<TemperatureReading>,
    pub gpus: Vec<GpuStatus>,
    pub host: HostMetrics,
    pub primary_nic: Option<String>,
    pub degradation_score: u64,
    pub k8s_events_detected: bool,
    pub network_degraded: bool,
    pub rca_events: Vec<AiopsRcaEvent>,
    pub risk_assessments: Vec<AiopsRiskAssessment>,
    /// Inference throughput, in thousandths of a token per second.
    pub app_tokens_per_sec_milli: Option<u64>,
    /// Inference throughput per watt of node power, in thousandths.
    pub app_tokens_per_watt_milli: Option<u64>,
}

pub fn copy_string_opt(s: &Option<String>) -> (r: Option<String>)
    ensures
        r == *s,
{
    match s {
        Some(v) => Some(v.clone()),
        None => None,
    }
}

pub fn copy_strings(v: &Vec<String>) -> (r: Vec<String>)
    ensures
        r@ == v@,
{
    let mut out: Vec<String> = Vec::new();
    let mut i: usize = 0;
    while i < v.len()
        invariant
            i <= v@.len(),
            out@ == v@.subrange(0, i as int),
        decreases v@.len() - i,
    {
        out.push(v[i].clone());
        i = i + 1;
        assert(out@ =~= v@.subrange(0, i as int));
    }
    assert(out@ =~= v@);
    out
}

impl CollectorError {
    pub fn duplicate(&self) -> (r: Self)
        ensures
            r == *self,
    {
        CollectorError {
            collector: self.collector.clone(),
            message: self.message.clone(),
            unix_ms: self.unix_ms,
        }
    }
}

impl PackagePower {
    pub fn duplicate(&self) -> (r: Self)
        ensures
            r == *self,
    {
        PackagePower { package: self.package.clone(), milliwatts: self.milliwatts }
    }
}

impl TemperatureReading {
    pub fn duplicate(&self) -> (r: Self)
        ensures
            r == *self,
    {
        TemperatureReading { sensor: self.sensor.clone(), milli_celsius: self.milli_celsius }
    }
}

impl GpuHealth {
    /// Equal counters and equal throttle reasons.
    pub open spec fn same_as(&self, o: &GpuHealth) -> bool {
        &&& self.ecc_corrected_aggregate == o.ecc_corrected_aggregate
        &&& self.ecc_uncorrected_aggregate == o.ecc_uncorrected_aggregate
        &&& self.retired_pages == o.retired_pages
        &&& self.throttle_reasons@ == o.throttle_reasons@
    }

    pub fn duplicate(&self) -> (r: Self)
        ensures
            r.same_as(self),
    {
        GpuHealth {
            ecc_corrected_aggregate: self.ecc_corrected_aggregate,
            ecc_uncorrected_aggregate: self.ecc_uncorrected_aggregate,
            retired_pages: self.retired_pages,
            throttle_reasons: copy_strings(&self.throttle_reasons),
        }
    }
}

impl GpuStatus {
    /// Equal in every field, the throttle reasons compared as sequences.
    pub open spec fn same_as(&self, o: &GpuStatus) -> bool {
        &&& self.gpu == o.gpu
        &&& self.uuid == o.uuid
        &&& self.temperature_milli_c == o.temperature_milli_c
        &&& self.power_mw == o.power_mw
        &&& self.util_milli_pct == o.util_milli_pct
        &&& self.memory_total_bytes == o.memory_total_bytes
        &&& self.memory_used_bytes == o.memory_used_bytes
        &&& self.fan_milli_pct == o.fan_milli_pct
        &&& self.clock_sm_mhz == o.clock_sm_mhz
        &&& self.clock_mem_mhz == o.clock_mem_mhz
        &&& self.thermal_throttle == o.thermal_throttle
        &&& self.power_throttle == o.power_throttle
        &&& match (self.health, o.health) {
            (Some(a), Some(b)) => a.same_as(&b),
            (None, None) => true,
            _ => false,
        }
    }

    pub fn duplicate(&self) -> (r: Self)
        ensures
            r.same_as(self),
    {
        let health = match &self.health {
            Some(h) => Some(h.duplicate()),
            None => None,
        };
        GpuStatus {
            gpu: self.gpu.clone(),
            uuid: copy_string_opt(&self.uuid),
            temperature_milli_c: self.temperature_milli_c,
            power_mw: self.power_mw,
            util_milli_pct: self.util_milli_pct,
            memory_total_bytes: self.memory_total_bytes,
            memory_used_bytes: self.memory_used_bytes,
            fan_milli_pct: self.fan_milli_pct,
            clock_sm_mhz: self.clock_sm_mhz,
            clock_mem_mhz: self.clock_mem_mhz,
            thermal_throttle: self.thermal_throttle,
            power_throttle: self.power_throttle,
            health,
        }
    }
}

impl AiopsRcaEvent {
    pub fn duplicate(&self) -> (r: Self)
        ensures
            r == *self,
    {
        AiopsRcaEvent {
            gpu_id: self.gpu_id.clone(),
            timestamp_ms: self.timestamp_ms,
            root_cause: self.root_cause.clone(),
            confidence_pct: self.confidence_pct,
            details: self.details.clone(),
        }
    }
}

impl AiopsRiskAssessment {
    pub open spec fn same_as(&self, o: &AiopsRiskAssessment) -> bool {
        &&& self.gpu_id == o.gpu_id
        &&& self.failure_probability_bp == o.failure_probability_bp
        &&& self.risk_score == o.risk_score
        &&& self.factors@ == o.factors@
    }

    pub fn duplicate(&self) -> (r: Self)
        ensures
            r.same_as(self),
    {
        AiopsRiskAssessment {
            gpu_id: self.gpu_id.clone(),
            failure_probability_bp: self.failure_probability_bp,
            risk_score: self.risk_score,
            factors: copy_strings(&self.factors),
        }
    }
}

/// Two GPU lists that hold the same statuses in the same order.
pub open spec fn same_gpus(a: Seq<GpuStatus>, b: Seq<GpuStatus>) -> bool {
    a.len() == b.len() && forall|i: int| 0 <= i < a.len() ==> (#[trigger] a[i]).same_as(&b[i])
}

/// Two assessment lists that hold the same entries in the same order.
pub open spec fn same_risks(a: Seq<AiopsRiskAssessment>, b: Seq<AiopsRiskAssessment>) -> bool {
    a.len() == b.len() && forall|i: int| 0 <= i < a.len() ==> (#[trigger] a[i]).same_as(&b[i])
}

pub fn copy_gpus(v: &Vec<GpuStatus>) -> (r: Vec<GpuStatus>)
    ensures
        same_gpus(r@, v@),
{
    let mut out: Vec<GpuStatus> = Vec::new();
    let mut i: usize = 0;
    while i < v.len()
        invariant
            i <= v@.len(),
            out@.len() == i,
            forall|k: int| 0 <= k < i ==> (#[trigger] out@[k]).same_as(&v@[k]),
        decreases v@.len() - i,
    {
        out.push(v[i].duplicate());
        i = i + 1;
    }
    out
}

pub fn copy_risks(v: &Vec<AiopsRiskAssessment>) -> (r: Vec<AiopsRiskAssessment>)
    ensures
        same_risks(r@, v@),
{
    let mut out: Vec<AiopsRiskAssessment> = Vec::new();
    let mut i: usize = 0;
    while i < v.len()
        invariant
            i <= v@.len(),
            out@.len() == i,
            forall|k: int| 0 <= k < i ==> (#[trigger] out@[k]).same_as(&v@[k]),
        decreases v@.len() - i,
    {
        out.push(v[i].duplicate());
        i = i + 1;
    }
    out
}

pub fn copy_errors(v: &Vec<CollectorError>) -> (r: Vec<CollectorError>)
    ensures
        r@ == v@,
{
    let mut out: Vec<CollectorError> = Vec::new();
    let mut i: usize = 0;
    while i < v.len()
        invariant
            i <= v@.len(),
            out@ == v@.subrange(0, i as int),
        decreases v@.len() - i,
    {
        out.push(v[i].duplicate());
        i = i + 1;
        assert(out@ =~= v@.subrange(0, i as int));
    }
    assert(out@ =~= v@);
    out
}

pub fn copy_package_power(v: &Vec<PackagePower>) -> (r: Vec<PackagePower>)
    ensures
        r@ == v@,
{
    let mut out: Vec<PackagePower> = Vec::new();
    let mut i: usize = 0;
    while i < v.len()
        invariant
            i <= v@.len(),
            out@ == v@.subrange(0, i as int),
        decreases v@.len() - i,
    {
        out.push(v[i].duplicate());
        i = i + 1;
        assert(out@ =~= v@.subrange(0, i as int));
    }
    assert(out@ =~= v@);
    out
}

pub fn copy_temperatures(v: &Vec<TemperatureReading>) -> (r: Vec<TemperatureReading>)
    ensures
        r@ == v@,
{
    let mut out: Vec<TemperatureReading> = Vec::new();
    let mut i: usize = 0;
    while i < v.len()
        invariant
            i <= v@.len(),
            out@ == v@.subrange(0, i as int),
        decreases v@.len() - i,
    {
        out.push(v[i].duplicate());
        i = i + 1;
        assert(out@ =~= v@.subrange(0, i as int));
    }
    assert(out@ =~= v@);
    out
}

pub fn copy_rca_events(v: &Vec<AiopsRcaEvent>) -> (r: Vec<AiopsRcaEvent>)
    ensures
        r@ == v@,
{
    let mut out: Vec<AiopsRcaEvent> = Vec::new();
    let mut i: usize = 0;
    while i < v.len()
        invariant
            i <= v@.len(),
            out@ == v@.subrange(0, i as int),
        decreases v@.len() - i,
    {
        out.push(v[i].duplicate());
        i = i + 1;
        assert(out@ =~= v@.subrange(0, i as int));
    }
    assert(out@ =~= v@);
    out
}

impl StatusSnapshot {
    /// Equal in every field; lists compared element by element.
    pub open spec fn same_as(&self, o: &StatusSnapshot) -> bool {
        &&& self.healthy == o.healthy
        &&& self.load_avg_1m_milli == o.load_avg_1m_milli
        &&& self.last_scrape_unix_ms == o.last_scrape_unix_ms
        &&& self.last_errors@ == o.last_errors@
        &&& self.node_power_mw == o.node_power_mw
        &&& self.cpu_package_power@ == o.cpu_package_power@
        &&& self.cpu_temperatures@ == o.cpu_temperatures@
        &&& same_gpus(self.gpus@, o.gpus@)
        &&& self.host == o.host
        &&& self.primary_nic == o.primary_nic
        &&& self.degradation_score == o.degradation_score
        &&& self.k8s_events_detected == o.k8s_events_detected
        &&& self.network_degraded == o.network_degraded
        &&& self.rca_events@ == o.rca_events@
        &&& same_risks(self.risk_assessments@, o.risk_assessments@)
        &&& self.app_tokens_per_sec_milli == o.app_tokens_per_sec_milli
        &&& self.app_tokens_per_watt_milli == o.app_tokens_per_watt_milli
    }

    /// A deep copy.
    pub fn duplicate(&self) -> (r: Self)
        ensures
            r.same_as(self),
    {
        StatusSnapshot {
            healthy: self.healthy,
            load_avg_1m_milli: self.load_avg_1m_milli,
            last_scrape_unix_ms: self.last_scrape_unix_ms,
            last_errors: copy_errors(&self.last_errors),
            node_power_mw: self.node_power_mw,
            cpu_package_power: copy_package_power(&self.cpu_package_power),
            cpu_temperatures: copy_temperatures(&self.cpu_temperatures),
            gpus: copy_gpus(&self.gpus),
            host: self.host,
            primary_nic: copy_string_opt(&self.primary_nic),
            degradation_score: self.degradation_score,
            k8s_events_detected: self.k8s_events_detected,
            network_degraded: self.network_degraded,
            rca_events: copy_rca_events(&self.rca_events),
            risk_assessments: copy_risks(&self.risk_assessments),
            app_tokens_per_sec_milli: self.app_tokens_per_sec_milli,
            app_tokens_per_watt_milli: self.app_tokens_per_watt_milli,
        }
    }
}

/// The error list after `e` is recorded: appended, and the oldest dropped once there are more
/// than `ERROR_RING_CAPACITY`.
pub open spec fn ring_push(errs: Seq<CollectorError>, e: CollectorError) -> Seq<CollectorError> {
    let s = errs.push(e);
    if s.len() > ERROR_RING_CAPACITY { s.drop_first() } else { s }
}

/// The error list after recording each of `history`, in order, starting empty.
pub open spec fn ring_after(history: Seq<CollectorError>) -> Seq<CollectorError>
    decreases history.len(),
{
    if history.len() == 0 {
        Seq::empty()
    } else {
        ring_push(ring_after(history.drop_last()), history.last())
    }
}

/// The last `ERROR_RING_CAPACITY` entries of `history` (all of them if fewer).
pub open spec fn latest_errors(history: Seq<CollectorError>) -> Seq<CollectorError> {
    if history.len() <= ERROR_RING_CAPACITY {
        history
    } else {
        history.subrange(history.len() - ERROR_RING_CAPACITY, history.len() as int)
    }
}

/// Whatever errors are recorded, the list never holds more than `ERROR_RING_CAPACITY`
/// entries, and it holds the most recent ones, oldest first.
pub proof fn lemma_error_ring_fifo(history: Seq<CollectorError>)
    ensures
        ring_after(history) == latest_errors(history),
        ring_after(history).len() <= ERROR_RING_CAPACITY,
    decreases history.len(),
{
    if history.len() > 0 {
        let prev = history.drop_last();
        lemma_error_ring_fifo(prev);
        assert(ring_after(history) =~= latest_errors(history));
    }
}

/// Degradation points of one GPU: 15 for thermal throttling, 5 for power throttling, 30 for
/// any uncorrected ECC error.
pub open spec fn gpu_penalty(g: GpuStatus) -> nat {
    (if g.thermal_throttle { 15nat } else { 0nat }) + (if g.power_throttle { 5nat } else { 0nat })
        + (match g.health {
        Some(h) => match h.ecc_uncorrected_aggregate {
            Some(u) => if u > 0 { 30nat } else { 0nat },
            None => 0nat,
        },
        None => 0nat,
    })
}

pub open spec fn gpus_penalty(gpus: Seq<GpuStatus>) -> nat
    decreases gpus.len(),
{
    if gpus.len() == 0 {
        0
    } else {
        gpus_penalty(gpus.drop_last()) + gpu_penalty(gpus.last())
    }
}

/// The degradation score of a snapshot: 5 points per recent error plus the GPUs' points,
/// capped at 100.
pub open spec fn degradation_score_of(s: StatusSnapshot) -> nat {
    let raw = 5 * s.last_errors@.len() + gpus_penalty(s.gpus@);
    if raw > 100 { 100 } else { raw }
}

proof fn lemma_same_gpus_penalty(a: Seq<GpuStatus>, b: Seq<GpuStatus>)
    requires
        same_gpus(a, b),
    ensures
        gpus_penalty(a) == gpus_penalty(b),
    decreases a.len(),
{
    if a.len() > 0 {
        assert(a.last().same_as(&b.last()));
        assert(same_gpus(a.drop_last(), b.drop_last())) by {
            assert forall|i: int| 0 <= i < a.drop_last().len() implies
                (#[trigger] a.drop_last()[i]).same_as(&b.drop_last()[i]) by {
                assert(a[i].same_as(&b[i]));
            }
        }
        lemma_same_gpus_penalty(a.drop_last(), b.drop_last());
    }
}

/// The degradation score is a function of the snapshot's contents alone, and lies in
/// `[0, 100]`.
pub proof fn lemma_degradation_score_pure(a: StatusSnapshot, b: StatusSnapshot)
    requires
        a.same_as(&b),
    ensures
        degradation_score_of(a) == degradation_score_of(b),
        degradation_score_of(a) <= 100,
{
    lemma_same_gpus_penalty(a.gpus@, b.gpus@);
}

/// More recent errors never lower the degradation score.
pub proof fn lemma_degradation_monotone_in_errors(a: StatusSnapshot, b: StatusSnapshot)
    requires
        same_gpus(a.gpus@, b.gpus@),
        a.last_errors@.len() <= b.last_errors@.len(),
    ensures
        degradation_score_of(a) <= degradation_score_of(b),
{
    lemma_same_gpus_penalty(a.gpus@, b.gpus@);
}

/// Computes the degradation score of `snapshot`.
pub fn degradation_score(snapshot: &StatusSnapshot) -> (r: u64)
    ensures
        r == degradation_score_of(*snapshot),
        r <= 100,
{
    let mut raw: u64 = if snapshot.last_errors.len() > 20 { 101 } else {
        5 * snapshot.last_errors.len() as u64
    };
    let mut i: usize = 0;
    while i < snapshot.gpus.len() && raw <= 100
        invariant
            i <= snapshot.gpus@.len(),
            raw <= 150,
            raw <= 100 ==> raw == 5 * snapshot.last_errors@.len()
                + gpus_penalty(snapshot.gpus@.subrange(0, i as int)),
            raw > 100 ==> 5 * snapshot.last_errors@.len()
                + gpus_penalty(snapshot.gpus@.subrange(0, i as int)) > 100,
        decreases snapshot.gpus@.len() - i,
    {
        let g = &snapshot.gpus[i];
        let mut p: u64 = 0;
        if g.thermal_throttle {
            p = p + 15;
        }
        if g.power_throttle {
            p = p + 5;
        }
        match &g.health {
            Some(h) => match h.ecc_uncorrected_aggregate {
                Some(u) => if u > 0 {
                    p = p + 30;
                },
                None => {},
            },
            None => {},
        }
        assert(p == gpu_penalty(snapshot.gpus@[i as int]));
        proof {
            let next = snapshot.gpus@.subrange(0, i + 1);
            assert(next.drop_last() =~= snapshot.gpus@.subrange(0, i as int));
        }
        raw = raw + p;
        i = i + 1;
    }
    proof {
        if raw <= 100 {
            assert(snapshot.gpus@.subrange(0, i as int) =~= snapshot.gpus@);
        } else {
            lemma_penalty_prefix_mono(snapshot.gpus@, i as int);
        }
    }
    if raw > 100 { 100 } else { raw }
}

proof fn lemma_penalty_prefix_mono(gpus: Seq<GpuStatus>, i: int)
    requires
        0 <= i <= gpus.len(),
    ensures
        gpus_penalty(gpus.subrange(0, i)) <= gpus_penalty(gpus),
    decreases gpus.len() - i,
{
    if i < gpus.len() {
        lemma_penalty_prefix_mono(gpus, i + 1);
        assert(gpus.subrange(0, i + 1).drop_last() =~= gpus.subrange(0, i));
    } else {
        assert(gpus.subrange(0, i) =~= gpus);
    }
}

/// The shared status of the agent: the latest observed values and the recent errors.
pub struct StatusState {
    snap: StatusSnapshot,
}

impl View for StatusState {
    type V = StatusSnapshot;

    closed spec fn view(&self) -> StatusSnapshot {
        self.snap
    }
}

/// The snapshot of a freshly created status.
pub open spec fn initial_snapshot(s: StatusSnapshot, healthy: bool) -> bool {
    &&& s.healthy == healthy
    &&& s.load_avg_1m_milli == 0
    &&& s.last_scrape_unix_ms == 0
    &&& s.last_errors@.len() == 0
    &&& s.node_power_mw is None
    &&& s.cpu_package_power@.len() == 0
    &&& s.cpu_temperatures@.len() == 0
    &&& s.gpus@.len() == 0
    &&& s.primary_nic is None
    &&& s.degradation_score == 0
    &&& !s.k8s_events_detected
    &&& !s.network_degraded
    &&& s.rca_events@.len() == 0
    &&& s.risk_assessments@.len() == 0
    &&& s.app_tokens_per_sec_milli is None
    &&& s.app_tokens_per_watt_milli is None
}

impl StatusState {
    pub fn new(healthy: bool) -> (r: Self)
        ensures
            initial_snapshot(r@, healthy),
            r@.host == (HostMetrics {
                load_avg_5m_milli: None,
                load_avg_15m_milli: None,
                uptime_seconds: None,
                cpu_cores: None,
                cpu_util_milli_pct: None,
                mem_total_bytes: None,
                mem_used_bytes: None,
                mem_free_bytes: None,
                swap_used_bytes: None,
                disk_root_total_bytes: None,
                disk_root_used_bytes: None,
                disk_root_io_time_ms: None,
                net_rx_milli_bytes_per_sec: None,
                net_tx_milli_bytes_per_sec: None,
                net_drops_milli_per_sec: None,
            }),
    {
        StatusState {
            snap: StatusSnapshot {
                healthy,
                load_avg_1m_milli: 0,
                last_scrape_unix_ms: 0,
                last_errors: Vec::new(),
                node_power_mw: None,
                cpu_package_power: Vec::new(),
                cpu_temperatures: Vec::new(),
                gpus: Vec::new(),
                host: HostMetrics {
                    load_avg_5m_milli: None,
                    load_avg_15m_milli: None,
                    uptime_seconds: None,
                    cpu_cores: None,
                    cpu_util_milli_pct: None,
                    mem_total_bytes: None,
                    mem_used_bytes: None,
                    mem_free_bytes: None,
                    swap_used_bytes: None,
                    disk_root_total_bytes: None,
                    disk_root_used_bytes: None,
                    disk_root_io_time_ms: None,
                    net_rx_milli_bytes_per_sec: None,
                    net_tx_milli_bytes_per_sec: None,
                    net_drops_milli_per_sec: None,
                },
                primary_nic: None,
                degradation_score: 0,
                k8s_events_detected: false,
                network_degraded: false,
                rca_events: Vec::new(),
                risk_assessments: Vec::new(),
                app_tokens_per_sec_milli: None,
                app_tokens_per_watt_milli: None,
            },
        }
    }

    /// A deep copy of the current status; later changes to the state do not reach it.
    pub fn snapshot(&self) -> (r: StatusSnapshot)
        ensures
            r.same_as(&self@),
    {
        self.snap.duplicate()
    }

    pub fn is_healthy(&self) -> (r: bool)
        ensures
            r == self@.healthy,
    {
        self.snap.healthy
    }

    pub fn set_healthy(&mut self, healthy: bool)
        ensures
            final(self)@ == (StatusSnapshot { healthy, ..old(self)@ }),
    {
        self.snap.healthy = healthy;
    }

    /// Records the whole-node power; zero means that no reading is available.
    pub fn set_node_power(&mut self, milliwatts: u64)
        ensures
            final(self)@ == (StatusSnapshot {
                node_power_mw: if milliwatts == 0 { None } else { Some(milliwatts) },
                ..old(self)@
            }),
    {
        self.snap.node_power_mw = if milliwatts == 0 { None } else { Some(milliwatts) };
    }

    pub fn set_load_avg(&mut self, load_milli: u64)
        ensures
            final(self)@ == (StatusSnapshot { load_avg_1m_milli: load_milli, ..old(self)@ }),
    {
        self.snap.load_avg_1m_milli = load_milli;
    }

    pub fn get_load_avg_1m(&self) -> (r: u64)
        ensures
            r == self@.load_avg_1m_milli,
    {
        self.snap.load_avg_1m_milli
    }

    pub fn set_last_scrape(&mut self, unix_ms: u64)
        ensures
            final(self)@ == (StatusSnapshot { last_scrape_unix_ms: unix_ms, ..old(self)@ }),
    {
        self.snap.last_scrape_unix_ms = unix_ms;
    }

    pub fn set_k8s_events_detected(&mut self, detected: bool)
        ensures
            final(self)@ == (StatusSnapshot { k8s_events_detected: detected, ..old(self)@ }),
    {
        self.snap.k8s_events_detected = detected;
    }

    pub fn set_network_degraded(&mut self, degraded: bool)
        ensures
            final(self)@ == (StatusSnapshot { network_degraded: degraded, ..old(self)@ }),
    {
        self.snap.network_degraded = degraded;
    }

    /// Appends an error; once more than `ERROR_RING_CAPACITY` are held the oldest is dropped.
    pub fn record_error(&mut self, collector: &str, message: String, unix_ms: u64)
        ensures
            final(self)@.last_errors@ == ring_push(
                old(self)@.last_errors@,
                final(self)@.last_errors@.last(),
            ),
            final(self)@.last_errors@.last().collector@ == collector@,
            final(self)@.last_errors@.last().message == message,
            final(self)@.last_errors@.last().unix_ms == unix_ms,
            final(self)@ == (StatusSnapshot { last_errors: final(self)@.last_errors, ..old(self)@ }),
    {
        let e = CollectorError { collector: String::from_str(collector), message, unix_ms };
        self.snap.last_errors.push(e);
        if self.snap.last_errors.len() > ERROR_RING_CAPACITY {
            self.snap.last_errors.remove(0);
        }
    }

    /// Sets the power of `package`, replacing its earlier reading or adding it at the end.
    pub fn set_cpu_package_power(&mut self, package: String, milliwatts: u64)
        ensures
            ({
                let old_list = old(self)@.cpu_package_power@;
                let new_list = final(self)@.cpu_package_power@;
                (exists|k: int| 0 <= k < old_list.len() && #[trigger] old_list[k].package@ == package@)
                    ==> (exists|k: int| 0 <= k < old_list.len()
                        && #[trigger] old_list[k].package@ == package@
                        && (forall|j: int| 0 <= j < k ==> old_list[j].package@ != package@)
                        && new_list == old_list.update(k, PackagePower { package, milliwatts }))
            }),
            (forall|k: int| 0 <= k < old(self)@.cpu_package_power@.len()
                ==> #[trigger] old(self)@.cpu_package_power@[k].package@ != package@)
                ==> final(self)@.cpu_package_power@ == old(self)@.cpu_package_power@.push(
                PackagePower { package, milliwatts }),
            final(self)@ == (StatusSnapshot {
                cpu_package_power: final(self)@.cpu_package_power,
                ..old(self)@
            }),
    {
        let mut i: usize = 0;
        while i < self.snap.cpu_package_power.len()
            invariant
                i <= self.snap.cpu_package_power@.len(),
                self.snap == old(self).snap,
                forall|j: int| 0 <= j < i ==> self.snap.cpu_package_power@[j].package@ != package@,
            decreases self.snap.cpu_package_power@.len() - i,
        {
            if self.snap.cpu_package_power[i].package == package {
                let ghost k = i as int;
                let ghost pk = package;
                self.snap.cpu_package_power.set(i, PackagePower { package, milliwatts });
                assert(old(self).snap.cpu_package_power@[k].package@ == pk@);
                return;
            }
            i = i + 1;
        }
        self.snap.cpu_package_power.push(PackagePower { package, milliwatts });
    }

    pub fn set_cpu_temperatures(&mut self, readings: Vec<TemperatureReading>)
        ensures
            final(self)@ == (StatusSnapshot { cpu_temperatures: readings, ..old(self)@ }),
    {
        self.snap.cpu_temperatures = readings;
    }

    pub fn set_gpu_statuses(&mut self, statuses: Vec<GpuStatus>)
        ensures
            final(self)@ == (StatusSnapshot { gpus: statuses, ..old(self)@ }),
    {
        self.snap.gpus = statuses;
    }

    pub fn set_cpu_summary(
        &mut self,
        cores: Option<u64>,
        util_milli_pct: Option<u64>,
        load_1m_milli: u64,
        load_5m_milli: Option<u64>,
        load_15m_milli: Option<u64>,
        uptime_seconds: Option<u64>,
    )
        ensures
            final(self)@ == (StatusSnapshot {
                load_avg_1m_milli: load_1m_milli,
                host: HostMetrics {
                    cpu_cores: cores,
                    cpu_util_milli_pct: util_milli_pct,
                    load_avg_5m_milli: load_5m_milli,
                    load_avg_15m_milli: load_15m_milli,
                    uptime_seconds,
                    ..old(self)@.host
                },
                ..old(self)@
            }),
    {
        self.snap.load_avg_1m_milli = load_1m_milli;
        self.snap.host.cpu_cores = cores;
        self.snap.host.cpu_util_milli_pct = util_milli_pct;
        self.snap.host.load_avg_5m_milli = load_5m_milli;
        self.snap.host.load_avg_15m_milli = load_15m_milli;
        self.snap.host.uptime_seconds = uptime_seconds;
    }

    pub fn set_memory_summary(
        &mut self,
        total_bytes: Option<u64>,
        used_bytes: Option<u64>,
        free_bytes: Option<u64>,
        swap_used_bytes: Option<u64>,
    )
        ensures
            final(self)@ == (StatusSnapshot {
                host: HostMetrics {
                    mem_total_bytes: total_bytes,
                    mem_used_bytes: used_bytes,
                    mem_free_bytes: free_bytes,
                    swap_used_bytes,
                    ..old(self)@.host
                },
                ..old(self)@
            }),
    {
        self.snap.host.mem_total_bytes = total_bytes;
        self.snap.host.mem_used_bytes = used_bytes;
        self.snap.host.mem_free_bytes = free_bytes;
        self.snap.host.swap_used_bytes = swap_used_bytes;
    }

    pub fn set_disk_summary(
        &mut self,
        total_bytes: Option<u64>,
        used_bytes: Option<u64>,
        io_time_ms: Option<u64>,
    )
        ensures
            final(self)@ == (StatusSnapshot {
                host: HostMetrics {
                    disk_root_total_bytes: total_bytes,
                    disk_root_used_bytes: used_bytes,
                    disk_root_io_time_ms: io_time_ms,
                    ..old(self)@.host
                },
                ..old(self)@
            }),
    {
        self.snap.host.disk_root_total_bytes = total_bytes;
        self.snap.host.disk_root_used_bytes = used_bytes;
        self.snap.host.disk_root_io_time_ms = io_time_ms;
    }

    pub fn set_network_summary(
        &mut self,
        primary_nic: Option<String>,
        rx_milli_bytes_per_sec: Option<u64>,
        tx_milli_bytes_per_sec: Option<u64>,
        drops_milli_per_sec: Option<u64>,
    )
        ensures
            final(self)@ == (StatusSnapshot {
                primary_nic,
                host: HostMetrics {
                    net_rx_milli_bytes_per_sec: rx_milli_bytes_per_sec,
                    net_tx_milli_bytes_per_sec: tx_milli_bytes_per_sec,
                    net_drops_milli_per_sec: drops_milli_per_sec,
                    ..old(self)@.host
                },
                ..old(self)@
            }),
    {
        self.snap.primary_nic = primary_nic;
        self.snap.host.net_rx_milli_bytes_per_sec = rx_milli_bytes_per_sec;
        self.snap.host.net_tx_milli_bytes_per_sec = tx_milli_bytes_per_sec;
        self.snap.host.net_drops_milli_per_sec = drops_milli_per_sec;
    }

    /// Recomputes the degradation score from the current contents.
    pub fn update_degradation_score(&mut self)
        ensures
            final(self)@ == (StatusSnapshot {
                degradation_score: degradation_score_of(old(self)@) as u64,
                ..old(self)@
            }),
    {
        let score = degradation_score(&self.snap);
        self.snap.degradation_score = score;
    }

    /// Records the inference throughput and its efficiency, in thousandths.
    pub fn set_app_metrics(&mut self, tokens_per_sec_milli: Option<u64>, tokens_per_watt_milli: Option<u64>)
        ensures
            final(self)@ == (StatusSnapshot {
                app_tokens_per_sec_milli: tokens_per_sec_milli,
                app_tokens_per_watt_milli: tokens_per_watt_milli,
                ..old(self)@
            }),
    {
        self.snap.app_tokens_per_sec_milli = tokens_per_sec_milli;
        self.snap.app_tokens_per_watt_milli = tokens_per_watt_milli;
    }

    pub fn update_rca_events(&mut self, events: Vec<AiopsRcaEvent>)
        ensures
            final(self)@ == (StatusSnapshot { rca_events: events, ..old(self)@ }),
    {
        self.snap.rca_events = events;
    }

    pub fn update_risk_assessments(&mut self, risks: Vec<AiopsRiskAssessment>)
        ensures
            final(self)@ == (StatusSnapshot { risk_assessments: risks, ..old(self)@ }),
    {
        self.snap.risk_assessments = risks;
    }
}

} // verus!
