use vstd::prelude::*;
use vstd::string::*;
use crate::numtext::{decimal_text, push_decimal, str_eq};
use crate::state::{GpuStatus, StatusSnapshot};

verus! {

/// Default length of the history window: one hour.
pub const RISK_WINDOW_MS: u64 = 3_600_000;

/// A failure-risk assessment of one GPU. The probability is in basis points.
#[derive(Debug)]
pub struct RiskAssessment {
    pub failure_probability_bp: u64,
    pub risk_score: u64,
    pub factors: Vec<String>,
}

/// What the assessment of one GPU is computed from.
#[derive(Clone, Copy, Debug, PartialEq, Eq, Structural)]
pub struct RiskInputs {
    pub uncorrected_ecc: Option<u64>,
    pub corrected_ecc_delta: u64,
    pub thermal_samples: u64,
    pub retired_pages: Option<u64>,
}

pub open spec fn has_uncorrected(i: RiskInputs) -> bool {
    i.uncorrected_ecc matches Some(u) && u > 0
}

pub open spec fn has_retired(i: RiskInputs) -> bool {
    i.retired_pages matches Some(p) && p > 1
}

/// The risk score: 80 for uncorrected ECC errors, 50 (over 1000) or 20 (over 100) for
/// corrected ECC errors in the window, 30 for more than 10 thermal-throttle samples, 40 for
/// more than one retired page; at most 100.
pub open spec fn score_of(i: RiskInputs) -> nat {
    let raw = (if has_uncorrected(i) { 80nat } else { 0nat }) + (if i.corrected_ecc_delta > 1000 {
        50nat
    } else if i.corrected_ecc_delta > 100 {
        20nat
    } else {
        0nat
    }) + (if i.thermal_samples > 10 { 30nat } else { 0nat }) + (if has_retired(i) {
        40nat
    } else {
        0nat
    });
    if raw > 100 { 100 } else { raw }
}

/// The failure probability in basis points: 1% to start with, plus 50%, 20% or 5%, 10% and
/// 15% for the same findings; at most 100%.
pub open spec fn probability_of(i: RiskInputs) -> nat {
    let raw = 100 + (if has_uncorrected(i) { 5000nat } else { 0nat }) + (if i.corrected_ecc_delta
        > 1000 {
        2000nat
    } else if i.corrected_ecc_delta > 100 {
        500nat
    } else {
        0nat
    }) + (if i.thermal_samples > 10 { 1000nat } else { 0nat }) + (if has_retired(i) {
        1500nat
    } else {
        0nat
    });
    if raw > 10000 { 10000 } else { raw }
}

/// The findings, in the order in which they are checked, each described in words.
pub open spec fn factors_of(i: RiskInputs) -> Seq<Seq<char>> {
    let f1 = if has_uncorrected(i) {
        seq!["Has "@ + decimal_text(i.uncorrected_ecc.unwrap() as nat) + " uncorrected ECC errors (Critical)"@]
    } else {
        Seq::empty()
    };
    let f2 = if i.corrected_ecc_delta > 1000 {
        seq!["High rate of corrected ECC errors ("@ + decimal_text(i.corrected_ecc_delta as nat) + " in 1h)"@]
    } else if i.corrected_ecc_delta > 100 {
        seq!["Moderate corrected ECC errors ("@ + decimal_text(i.corrected_ecc_delta as nat) + " in 1h)"@]
    } else {
        Seq::empty()
    };
    let f3 = if i.thermal_samples > 10 {
        seq!["Persistent thermal throttling detected ("@ + decimal_text(i.thermal_samples as nat) + " samples)"@]
    } else {
        Seq::empty()
    };
    let f4 = if has_retired(i) {
        seq!["Memory page retirement detected ("@ + decimal_text(i.retired_pages.unwrap() as nat) + " pages)"@]
    } else {
        Seq::empty()
    };
    f1 + f2 + f3 + f4
}

/// The strings of a list, as sequences of characters.
pub open spec fn texts(v: Seq<String>) -> Seq<Seq<char>> {
    v.map_values(|s: String| s@)
}

fn framed(prefix: &str, n: u64, suffix: &str) -> (r: String)
    ensures
        r@ == prefix@ + decimal_text(n as nat) + suffix@,
{
    let mut s = String::from_str(prefix);
    push_decimal(&mut s, n);
    s.append(suffix);
    s
}

/// Scores one GPU from its inputs.
pub fn assess(i: RiskInputs) -> (r: RiskAssessment)
    ensures
        r.risk_score == score_of(i),
        r.failure_probability_bp == probability_of(i),
        texts(r.factors@) == factors_of(i),
{
    let mut score: u64 = 0;
    let mut p: u64 = 100;
    let mut factors: Vec<String> = Vec::new();
    let ghost mut expect: Seq<Seq<char>> = Seq::empty();
    match i.uncorrected_ecc {
        Some(u) => if u > 0 {
            score = score + 80;
            p = p + 5000;
            factors.push(framed("Has ", u, " uncorrected ECC errors (Critical)"));
        },
        None => {},
    }
    if i.corrected_ecc_delta > 1000 {
        score = score + 50;
        p = p + 2000;
        factors.push(framed("High rate of corrected ECC errors (", i.corrected_ecc_delta, " in 1h)"));
    } else if i.corrected_ecc_delta > 100 {
        score = score + 20;
        p = p + 500;
        factors.push(framed("Moderate corrected ECC errors (", i.corrected_ecc_delta, " in 1h)"));
    }
    if i.thermal_samples > 10 {
        score = score + 30;
        p = p + 1000;
        factors.push(framed("Persistent thermal throttling detected (", i.thermal_samples, " samples)"));
    }
    match i.retired_pages {
        Some(pages) => if pages > 1 {
            score = score + 40;
            p = p + 1500;
            factors.push(framed("Memory page retirement detected (", pages, " pages)"));
        },
        None => {},
    }
    assert(texts(factors@) =~= factors_of(i));
    RiskAssessment {
        failure_probability_bp: if p > 10000 { 10000 } else { p },
        risk_score: if score > 100 { 100 } else { score },
        factors,
    }
}

/// A counter reading taken at `at_ms`.
#[derive(Clone, Copy, Debug, PartialEq, Eq, Structural)]
pub struct TimedValue {
    pub at_ms: u64,
    pub value: u64,
}

/// A throttle reason seen at `at_ms`.
#[derive(Debug)]
pub struct TimedReason {
    pub at_ms: u64,
    pub reason: String,
}

/// Whether a record taken at `at` is still inside the window that ends at `now`.
pub open spec fn in_window(at: u64, now: u64, window: u64) -> bool {
    !(now >= at && now - at > window)
}

pub open spec fn keep_value(now: u64, window: u64) -> spec_fn(TimedValue) -> bool {
    |e: TimedValue| in_window(e.at_ms, now, window)
}

pub open spec fn keep_reason(now: u64, window: u64) -> spec_fn(TimedReason) -> bool {
    |e: TimedReason| in_window(e.at_ms, now, window)
}

/// Drops the readings that fell out of the window.
pub fn prune_values(v: &Vec<TimedValue>, now: u64, window: u64) -> (r: Vec<TimedValue>)
    ensures
        r@ == v@.filter(keep_value(now, window)),
{
    reveal(Seq::filter);
    let mut out: Vec<TimedValue> = Vec::new();
    let mut i: usize = 0;
    while i < v.len()
        invariant
            i <= v@.len(),
            out@ == v@.subrange(0, i as int).filter(keep_value(now, window)),
        decreases v@.len() - i,
    {
        let e = v[i];
        let ghost prev = v@.subrange(0, i as int);
        proof {
            reveal(Seq::filter);
            let pre = v@.subrange(0, i + 1);
            assert(pre.drop_last() =~= prev);
            assert(pre.last() == e);
            assert(keep_value(now, window)(e) == in_window(e.at_ms, now, window));
        }
        if !(now >= e.at_ms && now - e.at_ms > window) {
            out.push(e);
        }
        i = i + 1;
    }
    assert(v@.subrange(0, i as int) =~= v@);
    out
}

/// Drops the throttle reasons that fell out of the window.
pub fn prune_reasons(v: Vec<TimedReason>, now: u64, window: u64) -> (r: Vec<TimedReason>)
    ensures
        r@ == v@.filter(keep_reason(now, window)),
{
    reveal(Seq::filter);
    let mut out: Vec<TimedReason> = Vec::new();
    let mut rest = v;
    let ghost all = rest@;
    let ghost mut i: int = 0;
    while rest.len() > 0
        invariant
            0 <= i <= all.len(),
            rest@ == all.subrange(i, all.len() as int),
            out@ == all.subrange(0, i).filter(keep_reason(now, window)),
        decreases rest@.len(),
    {
        let e = rest.remove(0);
        proof {
            reveal(Seq::filter);
            assert(e == all[i]);
            let pre = all.subrange(0, i + 1);
            assert(pre.drop_last() =~= all.subrange(0, i));
            assert(pre.last() == e);
            assert(keep_reason(now, window)(e) == in_window(e.at_ms, now, window));
        }
        if !(now >= e.at_ms && now - e.at_ms > window) {
            out.push(e);
        }
        proof {
            i = i + 1;
        }
        assert(rest@ =~= all.subrange(i, all.len() as int));
    }
    assert(all.subrange(0, i) =~= all);
    out
}

/// Whether `needle` occurs in `hay`.
pub open spec fn occurs_in(hay: Seq<char>, needle: Seq<char>) -> bool {
    exists|i: int| 0 <= i && i + needle.len() <= hay.len() && #[trigger] hay.subrange(i, i + needle.len()) == needle
}

pub fn contains_text(hay: &str, needle: &str) -> (r: bool)
    ensures
        r == occurs_in(hay@, needle@),
{
    let n = hay.unicode_len();
    let m = needle.unicode_len();
    if m > n {
        return false;
    }
    let mut i: usize = 0;
    while i <= n - m
        invariant
            n == hay@.len(),
            m == needle@.len(),
            m <= n,
            i <= n - m + 1,
            m == 0 ==> i == 0,
            forall|k: int| 0 <= k < i ==> #[trigger] hay@.subrange(k, k + m) != needle@,
        decreases n - m + 1 - i,
    {
        if str_eq(hay.substring_char(i, i + m), needle) {
            assert(hay@.subrange(i as int, i + m) == needle@);
            return true;
        }
        assert(m == 0 ==> hay@.subrange(i as int, i + m) =~= needle@);
        i = i + 1;
    }
    false
}

/// Whether a throttle reason names a thermal cause.
pub open spec fn is_thermal(e: TimedReason) -> bool {
    occurs_in(e.reason@, "thermal"@)
}

pub open spec fn thermal_filter() -> spec_fn(TimedReason) -> bool {
    |e: TimedReason| is_thermal(e)
}

fn count_thermal(v: &Vec<TimedReason>) -> (r: u64)
    ensures
        r == v@.filter(thermal_filter()).len(),
{
    reveal(Seq::filter);
    let mut c: u64 = 0;
    let mut i: usize = 0;
    while i < v.len()
        invariant
            i <= v@.len(),
            c == v@.subrange(0, i as int).filter(thermal_filter()).len(),
            c <= i,
        decreases v@.len() - i,
    {
        proof {
            reveal(Seq::filter);
            let pre = v@.subrange(0, i + 1);
            assert(pre.drop_last() =~= v@.subrange(0, i as int));
            assert(pre.last() == v@[i as int]);
            assert(thermal_filter()(v@[i as int]) == is_thermal(v@[i as int]));
        }
        if contains_text(v[i].reason.as_str(), "thermal") {
            c = c + 1;
        }
        i = i + 1;
    }
    assert(v@.subrange(0, i as int) =~= v@);
    c
}

/// Rise of a counter over the window: last reading minus first, never below zero.
pub open spec fn window_delta(v: Seq<TimedValue>) -> nat {
    if v.len() == 0 || v.last().value < v[0].value {
        0
    } else {
        (v.last().value - v[0].value) as nat
    }
}

/// The readings kept for one GPU.
#[derive(Debug)]
pub struct GpuHistory {
    pub gpu_id: String,
    pub ecc_corrected: Vec<TimedValue>,
    pub ecc_uncorrected: Vec<TimedValue>,
    pub throttle_events: Vec<TimedReason>,
}

/// The name under which a GPU is tracked: its UUID, or its name where it has none.
pub open spec fn gpu_id_text(g: GpuStatus) -> Seq<char> {
    match g.uuid {
        Some(u) => u@,
        None => g.gpu@,
    }
}

/// Whether `a` is what `assess` gives for `i`.
pub open spec fn assessment_is(a: RiskAssessment, i: RiskInputs) -> bool {
    &&& a.risk_score == score_of(i)
    &&& a.failure_probability_bp == probability_of(i)
    &&& texts(a.factors@) == factors_of(i)
}

/// Position of the first history kept for `id`.
pub open spec fn history_of(h: Seq<GpuHistory>, id: Seq<char>) -> Option<int>
    decreases h.len(),
{
    if h.len() == 0 {
        None
    } else {
        match history_of(h.drop_last(), id) {
            Some(k) => Some(k),
            None => if h.last().gpu_id@ == id { Some(h.len() - 1) } else { None },
        }
    }
}

/// The history kept for `id`, if any.
pub open spec fn entry_for(h: Seq<GpuHistory>, id: Seq<char>) -> Option<GpuHistory> {
    match history_of(h, id) {
        Some(k) => Some(h[k]),
        None => None,
    }
}

/// The readings that a GPU's status adds at `now`.
pub open spec fn new_corrected(g: GpuStatus, now: u64) -> Seq<TimedValue> {
    match g.health {
        Some(h) => match h.ecc_corrected_aggregate {
            Some(c) => seq![TimedValue { at_ms: now, value: c }],
            None => Seq::empty(),
        },
        None => Seq::empty(),
    }
}

pub open spec fn new_uncorrected(g: GpuStatus, now: u64) -> Seq<TimedValue> {
    match g.health {
        Some(h) => match h.ecc_uncorrected_aggregate {
            Some(u) => seq![TimedValue { at_ms: now, value: u }],
            None => Seq::empty(),
        },
        None => Seq::empty(),
    }
}

pub open spec fn new_reasons(g: GpuStatus, now: u64) -> Seq<TimedReason> {
    match g.health {
        Some(h) => Seq::new(h.throttle_reasons@.len(), |i: int| TimedReason { at_ms: now, reason: h.throttle_reasons@[i] }),
        None => Seq::empty(),
    }
}

/// The history after `g` is recorded at `now`: what was kept and is still inside the window,
/// followed by the new readings.
pub open spec fn updated_entry_ok(h: GpuHistory, prev: Option<GpuHistory>, g: GpuStatus, now: u64, window: u64) -> bool {
    let (oc, ou, orr) = match prev {
        Some(p) => (p.ecc_corrected@, p.ecc_uncorrected@, p.throttle_events@),
        None => (Seq::empty(), Seq::empty(), Seq::empty()),
    };
    &&& h.gpu_id@ == gpu_id_text(g)
    &&& h.ecc_corrected@ == oc.filter(keep_value(now, window)) + new_corrected(g, now)
    &&& h.ecc_uncorrected@ == ou.filter(keep_value(now, window)) + new_uncorrected(g, now)
    &&& h.throttle_events@ == orr.filter(keep_reason(now, window)) + new_reasons(g, now)
}

/// The inputs of the assessment of `g` once its history is `h`.
pub open spec fn inputs_from(h: GpuHistory, g: GpuStatus) -> RiskInputs {
    RiskInputs {
        uncorrected_ecc: match g.health {
            Some(x) => x.ecc_uncorrected_aggregate,
            None => None,
        },
        corrected_ecc_delta: window_delta(h.ecc_corrected@) as u64,
        thermal_samples: h.throttle_events@.filter(thermal_filter()).len() as u64,
        retired_pages: match g.health {
            Some(x) => x.retired_pages,
            None => None,
        },
    }
}

/// Whether entry `e` of an analysis is what the history and status of `g` give.
pub open spec fn scored_from(e: (String, RiskAssessment), h: GpuHistory, g: GpuStatus) -> bool {
    e.0@ == gpu_id_text(g) && assessment_is(e.1, inputs_from(h, g))
}

/// Whether entry `j` of an analysis is the assessment of GPU `j` from a history that
/// continues an earlier one by the rules of the window; where no earlier GPU shares its id,
/// that earlier history is the one in `kept`.
pub open spec fn analyzed(
    e: (String, RiskAssessment),
    gpus: Seq<GpuStatus>,
    j: int,
    now: u64,
    window: u64,
    kept: Seq<GpuHistory>,
) -> bool {
    exists|h: GpuHistory, prev: Option<GpuHistory>|
        updated_entry_ok(h, prev, gpus[j], now, window) && scored_from(e, h, gpus[j]) && (
        first_occurrence(gpus, j) ==> prev == entry_for(kept, gpu_id_text(gpus[j])))
}

/// Whether no GPU before position `j` shares the id of GPU `j`.
pub open spec fn first_occurrence(gpus: Seq<GpuStatus>, j: int) -> bool {
    forall|i: int| 0 <= i < j ==> gpu_id_text(#[trigger] gpus[i]) != gpu_id_text(gpus[j])
}

proof fn lemma_history_same_ids(a: Seq<GpuHistory>, b: Seq<GpuHistory>, id: Seq<char>)
    requires
        a.len() == b.len(),
        forall|i: int| 0 <= i < a.len() ==> (#[trigger] a[i]).gpu_id@ == b[i].gpu_id@,
    ensures
        history_of(a, id) == history_of(b, id),
    decreases a.len(),
{
    if a.len() > 0 {
        lemma_history_same_ids(a.drop_last(), b.drop_last(), id);
        assert(a.last().gpu_id@ == b.last().gpu_id@);
    }
}

proof fn lemma_history_found(h: Seq<GpuHistory>, id: Seq<char>, i: int)
    requires
        0 <= i < h.len(),
        h[i].gpu_id@ == id,
        forall|j: int| 0 <= j < i ==> h[j].gpu_id@ != id,
    ensures
        history_of(h, id) == Some(i),
    decreases h.len(),
{
    if i < h.len() - 1 {
        lemma_history_found(h.drop_last(), id, i);
    } else {
        lemma_history_absent(h.drop_last(), id);
    }
}

proof fn lemma_history_absent(h: Seq<GpuHistory>, id: Seq<char>)
    requires
        forall|j: int| 0 <= j < h.len() ==> h[j].gpu_id@ != id,
    ensures
        history_of(h, id) is None,
    decreases h.len(),
{
    if h.len() > 0 {
        lemma_history_absent(h.drop_last(), id);
    }
}

proof fn lemma_history_bounds(h: Seq<GpuHistory>, id: Seq<char>)
    ensures
        history_of(h, id) matches Some(k) ==> 0 <= k < h.len() && h[k].gpu_id@ == id,
    decreases h.len(),
{
    if h.len() > 0 {
        lemma_history_bounds(h.drop_last(), id);
    }
}

/// Position of the closest GPU before `i + 1` (searching down from `i`) that shares GPU
/// `k`'s id, or -1.
pub open spec fn earlier_same(gpus: Seq<GpuStatus>, k: int, i: int) -> int
    decreases i + 1,
{
    if i < 0 {
        -1
    } else if gpu_id_text(gpus[i]) == gpu_id_text(gpus[k]) {
        i
    } else {
        earlier_same(gpus, k, i - 1)
    }
}

/// The history GPU `k` of a snapshot continues: the one that the closest earlier GPU with its
/// id left, else the one kept before the analysis.
pub open spec fn continued(gpus: Seq<GpuStatus>, k: int, hs: Seq<GpuHistory>, kept: Seq<GpuHistory>) -> Option<GpuHistory> {
    let j = earlier_same(gpus, k, k - 1);
    if j >= 0 { Some(hs[j]) } else { entry_for(kept, gpu_id_text(gpus[k])) }
}

/// Whether `hs` holds, for every entry of an analysis, the history it was computed from, each
/// continuing the right earlier history by the rules of the window.
pub open spec fn histories_ok(
    hs: Seq<GpuHistory>,
    r: Seq<(String, RiskAssessment)>,
    gpus: Seq<GpuStatus>,
    now: u64,
    window: u64,
    kept: Seq<GpuHistory>,
) -> bool {
    &&& hs.len() == r.len()
    &&& r.len() <= gpus.len()
    &&& forall|k: int| 0 <= k < r.len() ==> #[trigger] updated_entry_ok(hs[k], continued(gpus, k, hs, kept),
        gpus[k], now, window) && scored_from(r[k], hs[k], gpus[k])
}

proof fn lemma_earlier_same(gpus: Seq<GpuStatus>, k: int, i: int)
    requires
        0 <= k < gpus.len(),
        -1 <= i < k,
    ensures
        earlier_same(gpus, k, i) >= 0 ==> earlier_same(gpus, k, i) <= i && gpu_id_text(gpus[earlier_same(gpus, k, i)])
            == gpu_id_text(gpus[k]) && forall|m: int| earlier_same(gpus, k, i) < m <= i ==> gpu_id_text(
            #[trigger] gpus[m]) != gpu_id_text(gpus[k]),
        earlier_same(gpus, k, i) < 0 ==> forall|m: int| 0 <= m <= i ==> gpu_id_text(#[trigger] gpus[m])
            != gpu_id_text(gpus[k]),
    decreases i + 1,
{
    if i >= 0 && gpu_id_text(gpus[i]) != gpu_id_text(gpus[k]) {
        lemma_earlier_same(gpus, k, i - 1);
    }
}

/// Predicts GPU failures from the trend of ECC errors and throttling over a window.
pub struct FailureRiskPredictor {
    history: Vec<GpuHistory>,
    window_ms: u64,
}

impl FailureRiskPredictor {
    pub closed spec fn window(&self) -> u64 {
        self.window_ms
    }

    /// The histories kept, one per GPU id.
    pub closed spec fn kept(&self) -> Seq<GpuHistory> {
        self.history@
    }

    /// A predictor with the default one-hour window.
    pub fn new() -> (r: Self)
        ensures
            r.window() == RISK_WINDOW_MS,
            r.kept().len() == 0,
    {
        FailureRiskPredictor { history: Vec::new(), window_ms: RISK_WINDOW_MS }
    }

    fn history_index(&mut self, id: &str) -> (r: usize)
        ensures
            r < final(self).history@.len(),
            final(self).history@[r as int].gpu_id@ == id@,
            history_of(final(self).history@, id@) == Some(r as int),
            final(self).window_ms == old(self).window_ms,
            match history_of(old(self).history@, id@) {
                Some(k) => final(self).history@ == old(self).history@ && r == k,
                None => final(self).history@.drop_last() == old(self).history@
                    && final(self).history@.len() == old(self).history@.len() + 1
                    && final(self).history@.last().ecc_corrected@.len() == 0
                    && final(self).history@.last().ecc_uncorrected@.len() == 0
                    && final(self).history@.last().throttle_events@.len() == 0,
            },
    {
        let mut i: usize = 0;
        while i < self.history.len()
            invariant
                i <= self.history@.len(),
                self.history@ == old(self).history@,
                self.window_ms == old(self).window_ms,
                forall|j: int| 0 <= j < i ==> self.history@[j].gpu_id@ != id@,
            decreases self.history@.len() - i,
        {
            if str_eq(self.history[i].gpu_id.as_str(), id) {
                proof { lemma_history_found(self.history@, id@, i as int); }
                return i;
            }
            i = i + 1;
        }
        proof { lemma_history_absent(self.history@, id@); }
        self.history.push(GpuHistory {
            gpu_id: String::from_str(id),
            ecc_corrected: Vec::new(),
            ecc_uncorrected: Vec::new(),
            throttle_events: Vec::new(),
        });
        proof {
            assert(self.history@.drop_last() =~= old(self).history@);
        }
        self.history.len() - 1
    }

    /// Records what one GPU shows at `now_ms` and scores it.
    fn observe_gpu(&mut self, g: &GpuStatus, now_ms: u64) -> (r: (String, RiskAssessment))
        ensures
            final(self).window_ms == old(self).window_ms,
            entry_for(final(self).history@, gpu_id_text(*g)) matches Some(h) && updated_entry_ok(
                h,
                entry_for(old(self).history@, gpu_id_text(*g)),
                *g,
                now_ms,
                old(self).window_ms,
            ) && scored_from(r, h, *g),
            forall|id: Seq<char>| id != gpu_id_text(*g) ==> entry_for(final(self).history@, id)
                == entry_for(old(self).history@, id),
    {
        let id = match &g.uuid {
            Some(u) => u.clone(),
            None => g.gpu.clone(),
        };
        let ghost gid = gpu_id_text(*g);
        let ghost h0 = self.history@;
        let k = self.history_index(id.as_str());
        let ghost h1 = self.history@;
        let ghost prev = entry_for(h0, gid);
        let window = self.window_ms;
        let mut h = GpuHistory {
            gpu_id: String::new(),
            ecc_corrected: Vec::new(),
            ecc_uncorrected: Vec::new(),
            throttle_events: Vec::new(),
        };
        std::mem::swap(&mut h, &mut self.history[k]);
        let ghost start = h;
        assert(start == h1[k as int]);
        h.ecc_corrected = prune_values(&h.ecc_corrected, now_ms, window);
        h.ecc_uncorrected = prune_values(&h.ecc_uncorrected, now_ms, window);
        h.throttle_events = prune_reasons(h.throttle_events, now_ms, window);
        let ghost pc = h.ecc_corrected@;
        let ghost pu = h.ecc_uncorrected@;
        let ghost pr = h.throttle_events@;
        let mut uncorrected: Option<u64> = None;
        let mut retired: Option<u64> = None;
        match &g.health {
            Some(health) => {
                match health.ecc_corrected_aggregate {
                    Some(c) => h.ecc_corrected.push(TimedValue { at_ms: now_ms, value: c }),
                    None => {},
                }
                match health.ecc_uncorrected_aggregate {
                    Some(u) => h.ecc_uncorrected.push(TimedValue { at_ms: now_ms, value: u }),
                    None => {},
                }
                assert(h.ecc_corrected@ =~= pc + new_corrected(*g, now_ms));
                assert(h.ecc_uncorrected@ =~= pu + new_uncorrected(*g, now_ms));
                let mut j: usize = 0;
                while j < health.throttle_reasons.len()
                    invariant
                        j <= health.throttle_reasons@.len(),
                        g.health == Some(*health),
                        h.gpu_id == start.gpu_id,
                        h.ecc_corrected@ == pc + new_corrected(*g, now_ms),
                        h.ecc_uncorrected@ == pu + new_uncorrected(*g, now_ms),
                        h.throttle_events@ == pr + Seq::new(j as nat, |i: int| TimedReason {
                            at_ms: now_ms,
                            reason: health.throttle_reasons@[i],
                        }),
                    decreases health.throttle_reasons@.len() - j,
                {
                    h.throttle_events.push(
                        TimedReason { at_ms: now_ms, reason: health.throttle_reasons[j].clone() },
                    );
                    j = j + 1;
                    assert(h.throttle_events@ =~= pr + Seq::new(j as nat, |i: int| TimedReason {
                        at_ms: now_ms,
                        reason: health.throttle_reasons@[i],
                    }));
                }
                assert(h.ecc_corrected@ =~= pc + new_corrected(*g, now_ms));
                assert(h.ecc_uncorrected@ =~= pu + new_uncorrected(*g, now_ms));
                assert(h.throttle_events@ =~= pr + new_reasons(*g, now_ms));
                uncorrected = health.ecc_uncorrected_aggregate;
                retired = health.retired_pages;
            },
            None => {
                assert(h.ecc_corrected@ =~= pc + new_corrected(*g, now_ms));
                assert(h.ecc_uncorrected@ =~= pu + new_uncorrected(*g, now_ms));
                assert(h.throttle_events@ =~= pr + new_reasons(*g, now_ms));
            },
        }
        let n = h.ecc_corrected.len();
        let delta: u64 = if n == 0 {
            0
        } else {
            let first = h.ecc_corrected[0].value;
            let last = h.ecc_corrected[n - 1].value;
            if last >= first { last - first } else { 0 }
        };
        let thermal = count_thermal(&h.throttle_events);
        let ghost hf = h;
        std::mem::swap(&mut h, &mut self.history[k]);
        proof {
            let h2 = self.history@;
            assert(h2 == h1.update(k as int, hf));
            assert(hf.gpu_id == start.gpu_id);
            assert forall|i: int| 0 <= i < h2.len() implies (#[trigger] h2[i]).gpu_id@ == h1[i].gpu_id@ by {}
            assert forall|id2: Seq<char>| id2 != gid implies entry_for(h2, id2) == entry_for(h0, id2) by {
                lemma_history_same_ids(h2, h1, id2);
                lemma_history_bounds(h1, id2);
                match history_of(h0, gid) {
                    Some(j) => {},
                    None => {
                        assert(h1.drop_last() == h0);
                        assert(history_of(h1, id2) == history_of(h0, id2));
                    },
                }
            }
            lemma_history_same_ids(h2, h1, gid);
            match history_of(h0, gid) {
                Some(j) => {
                    assert(prev == Some(h0[j]));
                },
                None => {
                    assert(prev is None);
                    assert(start.ecc_corrected@.len() == 0);
                    assert(start.ecc_corrected@ =~= Seq::<TimedValue>::empty());
                    assert(start.ecc_uncorrected@ =~= Seq::<TimedValue>::empty());
                    assert(start.throttle_events@ =~= Seq::<TimedReason>::empty());
                },
            }
            assert(entry_for(h2, gid) == Some(hf));
        }
        let inputs = RiskInputs {
            uncorrected_ecc: uncorrected,
            corrected_ecc_delta: delta,
            thermal_samples: thermal,
            retired_pages: retired,
        };
        assert(inputs == inputs_from(hf, *g));
        let a = assess(inputs);
        (id, a)
    }

    /// Records the GPUs of `snapshot`, taken at `now_ms`, and scores each: one entry per GPU,
    /// in the snapshot's order. Each GPU's history keeps the readings still inside the window
    /// and gains the new ones; the assessment is computed from that history and the status.
    /// For a GPU whose id no earlier GPU of the snapshot shares, the history it continues is
    /// the one kept before the call; a GPU whose id repeats continues the history its closest
    /// earlier occurrence left. After the call, each id keeps the history of its last
    /// occurrence; histories of ids the snapshot does not show stay as they were.
    pub fn analyze(&mut self, snapshot: &StatusSnapshot, now_ms: u64) -> (r: Vec<(String, RiskAssessment)>)
        ensures
            r@.len() == snapshot.gpus@.len(),
            forall|k: int| 0 <= k < r@.len() ==> analyzed(#[trigger] r@[k], snapshot.gpus@, k, now_ms,
                old(self).window(), old(self).kept()),
            exists|hs: Seq<GpuHistory>| histories_ok(hs, r@, snapshot.gpus@, now_ms, old(self).window(), old(self).kept())
                && forall|j: int| 0 <= j < r@.len() && (forall|m: int| j < m < r@.len() ==> gpu_id_text(
                #[trigger] snapshot.gpus@[m]) != gpu_id_text(snapshot.gpus@[j])) ==> #[trigger] entry_for(
                final(self).kept(), gpu_id_text(snapshot.gpus@[j])) == Some(hs[j]),
            forall|id: Seq<char>| (forall|i: int| 0 <= i < snapshot.gpus@.len() ==> gpu_id_text(
                #[trigger] snapshot.gpus@[i]) != id) ==> entry_for(final(self).kept(), id) == entry_for(
                old(self).kept(), id),
            final(self).window() == old(self).window(),
    {
        let mut out: Vec<(String, RiskAssessment)> = Vec::new();
        let mut k: usize = 0;
        let ghost mut hs: Seq<GpuHistory> = Seq::empty();
        while k < snapshot.gpus.len()
            invariant
                k <= snapshot.gpus@.len(),
                out@.len() == k,
                self.window_ms == old(self).window_ms,
                forall|id: Seq<char>| (forall|i: int| 0 <= i < k ==> gpu_id_text(#[trigger] snapshot.gpus@[i]) != id)
                    ==> entry_for(self.history@, id) == entry_for(old(self).history@, id),
                forall|j: int| 0 <= j < k ==> analyzed(#[trigger] out@[j], snapshot.gpus@, j, now_ms,
                    old(self).window_ms, old(self).history@),
                histories_ok(hs, out@, snapshot.gpus@, now_ms, old(self).window_ms, old(self).history@),
                forall|j: int| 0 <= j < k && (forall|m: int| j < m < k ==> gpu_id_text(#[trigger] snapshot.gpus@[m])
                    != gpu_id_text(snapshot.gpus@[j])) ==> #[trigger] entry_for(self.history@, gpu_id_text(
                    snapshot.gpus@[j])) == Some(hs[j]),
            decreases snapshot.gpus@.len() - k,
        {
            let ghost before_hist = self.history@;
            let g = &snapshot.gpus[k];
            let e = self.observe_gpu(g, now_ms);
            let ghost before = out@;
            out.push(e);
            proof {
                let gid = gpu_id_text(*g);
                let h = entry_for(self.history@, gid).unwrap();
                let prev = entry_for(before_hist, gid);
                assert(updated_entry_ok(h, prev, *g, now_ms, old(self).window_ms));
                assert(scored_from(out@[k as int], h, *g));
                if first_occurrence(snapshot.gpus@, k as int) {
                    assert(forall|i: int| 0 <= i < k ==> gpu_id_text(#[trigger] snapshot.gpus@[i]) != gid);
                }
                assert(analyzed(out@[k as int], snapshot.gpus@, k as int, now_ms, old(self).window_ms,
                    old(self).history@));
                assert forall|j: int| 0 <= j < k + 1 implies analyzed(#[trigger] out@[j], snapshot.gpus@,
                    j, now_ms, old(self).window_ms, old(self).history@) by {
                    if j < k {
                        assert(out@[j] == before[j]);
                    }
                }
                let hs0 = hs;
                lemma_earlier_same(snapshot.gpus@, k as int, k - 1);
                let j0 = earlier_same(snapshot.gpus@, k as int, k - 1);
                if j0 >= 0 {
                    assert(entry_for(before_hist, gid) == Some(hs0[j0]));
                } else {
                    assert(forall|i: int| 0 <= i < k ==> gpu_id_text(#[trigger] snapshot.gpus@[i]) != gid);
                }
                hs = hs.push(h);
                assert(continued(snapshot.gpus@, k as int, hs, old(self).history@) == prev);
                assert forall|kk: int| 0 <= kk < out@.len() implies #[trigger] updated_entry_ok(hs[kk], continued(
                    snapshot.gpus@, kk, hs, old(self).history@), snapshot.gpus@[kk], now_ms, old(self).window_ms)
                    && scored_from(out@[kk], hs[kk], snapshot.gpus@[kk]) by {
                    if kk < k {
                        assert(out@[kk] == before[kk]);
                        assert(hs[kk] == hs0[kk]);
                        lemma_earlier_same(snapshot.gpus@, kk, kk - 1);
                        let jj = earlier_same(snapshot.gpus@, kk, kk - 1);
                        if jj >= 0 {
                            assert(hs[jj] == hs0[jj]);
                        }
                        assert(continued(snapshot.gpus@, kk, hs, old(self).history@) == continued(
                            snapshot.gpus@, kk, hs0, old(self).history@));
                        assert(updated_entry_ok(hs0[kk], continued(snapshot.gpus@, kk, hs0, old(self).history@),
                            snapshot.gpus@[kk], now_ms, old(self).window_ms));
                    }
                }
                assert forall|j: int| 0 <= j < k + 1 && (forall|m: int| j < m < k + 1 ==> gpu_id_text(
                    #[trigger] snapshot.gpus@[m]) != gpu_id_text(snapshot.gpus@[j])) implies #[trigger] entry_for(
                    self.history@, gpu_id_text(snapshot.gpus@[j])) == Some(hs[j]) by {
                    if j < k {
                        assert(gpu_id_text(snapshot.gpus@[k as int]) != gpu_id_text(snapshot.gpus@[j]));
                        assert(hs[j] == hs0[j]);
                        assert(forall|m: int| j < m < k ==> gpu_id_text(#[trigger] snapshot.gpus@[m])
                            != gpu_id_text(snapshot.gpus@[j]));
                        assert(entry_for(before_hist, gpu_id_text(snapshot.gpus@[j])) == Some(hs0[j]));
                    }
                }
            }
            k = k + 1;
        }
        assert(histories_ok(hs, out@, snapshot.gpus@, now_ms, old(self).window_ms, old(self).history@));
        assert(old(self).window() == old(self).window_ms && old(self).kept() == old(self).history@);
        assert(histories_ok(hs, out@, snapshot.gpus@, now_ms, old(self).window(), old(self).kept()));
        assert(self.kept() == self.history@);
        out
    }
}

} // verus!
