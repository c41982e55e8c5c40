use vstd::prelude::*;
use vstd::string::*;
use crate::numtext::{decimal_text, fixed1_text, push_decimal, push_fixed1};
use crate::state::{GpuStatus, StatusSnapshot};

verus! {

#[derive(Clone, Copy, Debug, PartialEq, Eq, Structural)]
pub enum RootCause {
    NetworkLatency,
    ThermalThrottling,
    PowerThrottling,
    KubernetesEvents,
    Unknown,
}

/// A correlated explanation of a GPU utilisation dip. Confidence is in percent.
#[derive(Debug)]
pub struct RcaEvent {
    pub gpu_index: usize,
    pub cause: RootCause,
    pub description: String,
    pub confidence_pct: u64,
}

/// The most recent snapshots, oldest first, at most `capacity` of them (at least one once
/// any was added).
pub struct AnalysisWindow {
    capacity: u64,
    samples: Vec<StatusSnapshot>,
}

/// How many snapshots cover `duration_ms` at one per `interval_ms`, rounded up; an interval
/// of zero counts as one millisecond.
pub open spec fn window_capacity(duration_ms: u64, interval_ms: u64) -> nat {
    let i: int = if interval_ms == 0 { 1 } else { interval_ms as int };
    ((duration_ms as int + i - 1) / i) as nat
}

/// The window after `s` is added to `w` with room for `cap`.
pub open spec fn window_push(w: Seq<StatusSnapshot>, s: StatusSnapshot, cap: nat) -> Seq<StatusSnapshot> {
    if w.len() >= cap && w.len() > 0 { w.drop_first().push(s) } else { w.push(s) }
}

impl AnalysisWindow {
    pub closed spec fn view(&self) -> Seq<StatusSnapshot> {
        self.samples@
    }

    pub closed spec fn cap(&self) -> nat {
        self.capacity as nat
    }

    pub closed spec fn wf(&self) -> bool {
        self.samples@.len() <= if self.capacity == 0 { 1 } else { self.capacity as int }
    }

    pub fn new(duration_ms: u64, scrape_interval_ms: u64) -> (r: Self)
        ensures
            r.wf(),
            r.cap() == window_capacity(duration_ms, scrape_interval_ms),
            r.view().len() == 0,
    {
        let i: u64 = if scrape_interval_ms == 0 { 1 } else { scrape_interval_ms };
        let c: u128 = (duration_ms as u128 + i as u128 - 1) / i as u128;
        assert((duration_ms as int + i as int - 1) / (i as int) <= duration_ms as int + 1) by (nonlinear_arith)
            requires i >= 1;
        assert(c <= duration_ms as u128) by {
            if duration_ms == 0 {
                assert((i as int - 1) / (i as int) == 0) by (nonlinear_arith) requires i >= 1;
            } else {
                assert((duration_ms as int + i as int - 1) / (i as int) <= duration_ms as int) by (nonlinear_arith)
                    requires i >= 1, duration_ms >= 1;
            }
        }
        AnalysisWindow { capacity: c as u64, samples: Vec::new() }
    }

    pub fn capacity(&self) -> (r: u64)
        ensures
            r == self.cap(),
    {
        self.capacity
    }

    pub fn len(&self) -> (r: usize)
        ensures
            r == self.view().len(),
    {
        self.samples.len()
    }

    /// Adds a snapshot, dropping the oldest once the window is full.
    pub fn add(&mut self, snapshot: StatusSnapshot)
        requires
            old(self).wf(),
        ensures
            final(self).wf(),
            final(self).cap() == old(self).cap(),
            final(self).view() == window_push(old(self).view(), snapshot, old(self).cap()),
    {
        if self.samples.len() as u64 >= self.capacity && self.samples.len() > 0 {
            self.samples.remove(0);
        }
        self.samples.push(snapshot);
        assert(self.samples@ =~= window_push(old(self).view(), snapshot, old(self).cap()));
    }

    pub fn samples(&self) -> (r: &Vec<StatusSnapshot>)
        ensures
            r@ == self.view(),
    {
        &self.samples
    }
}

/// Utilisation in thousandths of a percent; a missing reading counts as zero.
pub open spec fn util_of(g: GpuStatus) -> nat {
    match g.util_milli_pct {
        Some(u) => u as nat,
        None => 0,
    }
}

/// A utilisation in thousandths of a percent as a signed value, saturated.
pub open spec fn as_milli(v: nat) -> int {
    if v > i64::MAX { i64::MAX as int } else { v as int }
}

/// A dip: the GPU was above 50% and fell by more than 20 points.
pub open spec fn is_dip(prev: nat, cur: nat) -> bool {
    prev > 50_000 && cur + 20_000 < prev
}

/// Whether any of the last three snapshots saw network degradation.
pub open spec fn network_recently_degraded(w: Seq<StatusSnapshot>) -> bool {
    exists|k: int| w.len() - 3 <= k < w.len() && 0 <= k && (#[trigger] w[k]).network_degraded
}

/// The cause found for GPU `idx`, if its utilisation dipped between the last two snapshots
/// and one of the checks explains it: network first, then thermal throttling, then
/// Kubernetes events.
pub open spec fn cause_of(w: Seq<StatusSnapshot>, idx: int) -> Option<RootCause> {
    let latest = w.last();
    let prev = w[w.len() - 2];
    if w.len() < 2 || idx < 0 || idx >= latest.gpus@.len() || idx >= prev.gpus@.len() {
        None
    } else if !is_dip(util_of(prev.gpus@[idx]), util_of(latest.gpus@[idx])) {
        None
    } else if network_recently_degraded(w) {
        Some(RootCause::NetworkLatency)
    } else if latest.gpus@[idx].thermal_throttle {
        Some(RootCause::ThermalThrottling)
    } else if latest.k8s_events_detected {
        Some(RootCause::KubernetesEvents)
    } else {
        None
    }
}

/// The GPU indices below `n` that get an event, in increasing order.
pub open spec fn explained(w: Seq<StatusSnapshot>, n: int) -> Seq<int>
    decreases n,
{
    if n <= 0 {
        Seq::empty()
    } else if cause_of(w, n - 1) is Some {
        explained(w, n - 1).push(n - 1)
    } else {
        explained(w, n - 1)
    }
}

pub open spec fn confidence_of(c: RootCause) -> nat {
    match c {
        RootCause::NetworkLatency => 80,
        RootCause::ThermalThrottling => 100,
        RootCause::KubernetesEvents => 90,
        _ => 0,
    }
}

pub open spec fn description_of(w: Seq<StatusSnapshot>, idx: int, c: RootCause) -> Seq<char> {
    let head = "GPU-"@ + decimal_text(idx as nat);
    match c {
        RootCause::NetworkLatency => head + " utilization dropped from "@ + fixed1_text(
            as_milli(util_of(w[w.len() - 2].gpus@[idx])),
        ) + "% to "@ + fixed1_text(as_milli(util_of(w.last().gpus@[idx])))
            + "% coincident with network degradation"@,
        RootCause::ThermalThrottling => head + " utilization dropped due to thermal throttling"@,
        _ => head + " utilization drop correlates with Kubernetes pod events (evictions/rescheduling)"@,
    }
}

/// Whether `e` is the event for GPU `idx` of the window.
pub open spec fn event_ok(e: RcaEvent, w: Seq<StatusSnapshot>, idx: int) -> bool {
    &&& e.gpu_index == idx
    &&& cause_of(w, idx) == Some(e.cause)
    &&& e.confidence_pct == confidence_of(e.cause)
    &&& e.description@ == description_of(w, idx, e.cause)
}

/// Correlates GPU utilisation dips with their likely causes.
pub struct RcaEngine {
    window: AnalysisWindow,
}

impl RcaEngine {
    pub closed spec fn view(&self) -> Seq<StatusSnapshot> {
        self.window.view()
    }

    pub closed spec fn wf(&self) -> bool {
        self.window.wf()
    }

    pub closed spec fn cap(&self) -> nat {
        self.window.cap()
    }

    pub fn new(window_duration_ms: u64, scrape_interval_ms: u64) -> (r: Self)
        ensures
            r.wf(),
            r.view().len() == 0,
            r.cap() == window_capacity(window_duration_ms, scrape_interval_ms),
    {
        RcaEngine { window: AnalysisWindow::new(window_duration_ms, scrape_interval_ms) }
    }

    pub fn add_snapshot(&mut self, snapshot: StatusSnapshot)
        requires
            old(self).wf(),
        ensures
            final(self).wf(),
            final(self).cap() == old(self).cap(),
            final(self).view() == window_push(old(self).view(), snapshot, old(self).cap()),
    {
        self.window.add(snapshot);
    }

    fn check_network_cause(&self) -> (r: bool)
        ensures
            r == network_recently_degraded(self.view()),
    {
        let s = self.window.samples();
        let n = s.len();
        let start: usize = if n >= 3 { n - 3 } else { 0 };
        let mut k: usize = start;
        while k < n
            invariant
                s@ == self.view(),
                n == s@.len(),
                start <= k <= n,
                start == (if n >= 3 { n - 3 } else { 0 }),
                forall|j: int| start <= j < k ==> !(#[trigger] s@[j]).network_degraded,
            decreases n - k,
        {
            if s[k].network_degraded {
                return true;
            }
            k = k + 1;
        }
        false
    }

    /// One event per GPU whose utilisation dipped between the two latest snapshots and whose
    /// dip one of the checks explains, in GPU order; none with fewer than two snapshots.
    pub fn analyze(&self) -> (r: Vec<RcaEvent>)
        ensures
            r@.len() == explained(self.view(), self.view().last().gpus@.len() as int).len(),
            forall|j: int| 0 <= j < r@.len() ==> event_ok(#[trigger] r@[j], self.view(), explained(
                self.view(),
                self.view().last().gpus@.len() as int,
            )[j]),
    {
        let mut events: Vec<RcaEvent> = Vec::new();
        let s = self.window.samples();
        let ghost w = self.view();
        if s.len() < 2 {
            proof { lemma_nothing_explained(w, w.last().gpus@.len() as int); }
            return events;
        }
        let latest = &s[s.len() - 1];
        let prev = &s[s.len() - 2];
        let network = self.check_network_cause();
        let mut idx: usize = 0;
        while idx < latest.gpus.len()
            invariant
                s@ == w,
                w.len() >= 2,
                *latest == w.last(),
                *prev == w[w.len() - 2],
                network == network_recently_degraded(w),
                idx <= latest.gpus@.len(),
                events@.len() == explained(w, idx as int).len(),
                forall|j: int| 0 <= j < events@.len() ==> event_ok(#[trigger] events@[j], w,
                    explained(w, idx as int)[j]),
            decreases latest.gpus@.len() - idx,
        {
            let ghost before = events@;
            let ghost ci = cause_of(w, idx as int);
            if idx < prev.gpus.len() {
                let gpu = &latest.gpus[idx];
                let cur: u64 = match gpu.util_milli_pct { Some(u) => u, None => 0 };
                let p: u64 = match prev.gpus[idx].util_milli_pct { Some(u) => u, None => 0 };
                assert(cur == util_of(w.last().gpus@[idx as int]));
                assert(p == util_of(w[w.len() - 2].gpus@[idx as int]));
                if p > 50_000 && cur < p - 20_000 {
                    let mut d = String::from_str("GPU-");
                    push_decimal(&mut d, idx as u64);
                    if network {
                        d.append(" utilization dropped from ");
                        push_fixed1(&mut d, if p > i64::MAX as u64 { i64::MAX } else { p as i64 });
                        d.append("% to ");
                        push_fixed1(&mut d, if cur > i64::MAX as u64 { i64::MAX } else { cur as i64 });
                        d.append("% coincident with network degradation");
                        assert(d@ == description_of(w, idx as int, RootCause::NetworkLatency));
                        events.push(RcaEvent {
                            gpu_index: idx,
                            cause: RootCause::NetworkLatency,
                            description: d,
                            confidence_pct: 80,
                        });
                    } else if gpu.thermal_throttle {
                        d.append(" utilization dropped due to thermal throttling");
                        assert(d@ == description_of(w, idx as int, RootCause::ThermalThrottling));
                        events.push(RcaEvent {
                            gpu_index: idx,
                            cause: RootCause::ThermalThrottling,
                            description: d,
                            confidence_pct: 100,
                        });
                    } else if latest.k8s_events_detected {
                        d.append(" utilization drop correlates with Kubernetes pod events (evictions/rescheduling)");
                        assert(d@ == description_of(w, idx as int, RootCause::KubernetesEvents));
                        events.push(RcaEvent {
                            gpu_index: idx,
                            cause: RootCause::KubernetesEvents,
                            description: d,
                            confidence_pct: 90,
                        });
                    } else {
                        assert(ci is None);
                    }
                } else {
                    assert(ci is None);
                }
            } else {
                assert(ci is None);
            }
            proof {
                let ex = explained(w, idx as int);
                if ci is Some {
                    assert(explained(w, idx + 1) == ex.push(idx as int));
                    assert(events@.len() == before.len() + 1);
                    assert(event_ok(events@[before.len() as int], w, idx as int));
                } else {
                    assert(explained(w, idx + 1) == ex);
                    assert(events@ == before);
                }
                assert forall|j: int| 0 <= j < events@.len() implies event_ok(#[trigger] events@[j], w,
                    explained(w, idx + 1)[j]) by {
                    if j < before.len() {
                        assert(events@[j] == before[j]);
                    }
                }
            }
            idx = idx + 1;
        }
        events
    }
}

/// At most one event per GPU and tick: the explained GPU indices strictly increase and all
/// lie below the number of GPUs considered.
pub proof fn lemma_one_event_per_gpu(w: Seq<StatusSnapshot>, n: int)
    ensures
        forall|a: int, b: int| 0 <= a < b < explained(w, n).len() ==> explained(w, n)[a] < explained(w, n)[b],
        forall|a: int| 0 <= a < explained(w, n).len() ==> 0 <= #[trigger] explained(w, n)[a] < n,
    decreases n,
{
    if n > 0 {
        lemma_one_event_per_gpu(w, n - 1);
        let prev = explained(w, n - 1);
        let cur = explained(w, n);
        if cause_of(w, n - 1) is Some {
            assert(cur == prev.push(n - 1));
            assert forall|a: int| 0 <= a < cur.len() implies 0 <= #[trigger] cur[a] < n by {
                if a < prev.len() {
                    assert(cur[a] == prev[a]);
                }
            }
            assert forall|a: int, b: int| 0 <= a < b < cur.len() implies cur[a] < cur[b] by {
                assert(cur[a] == prev[a]);
                if b < prev.len() {
                    assert(cur[b] == prev[b]);
                } else {
                    assert(prev[a] < n - 1);
                }
            }
        } else {
            assert(cur == prev);
        }
    }
}

proof fn lemma_nothing_explained(w: Seq<StatusSnapshot>, n: int)
    requires
        w.len() < 2,
    ensures
        explained(w, n).len() == 0,
    decreases n,
{
    if n > 0 {
        lemma_nothing_explained(w, n - 1);
    }
}

} // verus!
