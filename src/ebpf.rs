use vstd::prelude::*;
use crate::control::{index_of, parse_index};
use crate::numtext::Ratio;

verus! {

/// Settings of the kernel-sampled performance collector.
#[derive(Debug)]
pub struct EbpfConfig {
    pub sampling_interval_ms: u64,
    pub enable_cpu_perf: bool,
    pub enable_rapl: bool,
    pub enable_memory: bool,
    pub enable_network: bool,
    pub sample_buffer_size: usize,
}

impl Default for EbpfConfig {
    fn default() -> (r: Self)
        ensures
            r.sampling_interval_ms == 10,
            r.enable_cpu_perf,
            r.enable_rapl,
            !r.enable_memory,
            !r.enable_network,
            r.sample_buffer_size == 10000,
    {
        EbpfConfig {
            sampling_interval_ms: 10,
            enable_cpu_perf: true,
            enable_rapl: true,
            enable_memory: false,
            enable_network: false,
            sample_buffer_size: 10000,
        }
    }
}

/// One kernel-sampled performance record.
#[derive(Clone, Copy, Debug, PartialEq, Eq, Structural)]
pub struct EbpfSample {
    pub timestamp_us: u64,
    pub cpu_cycles: u64,
    pub cpu_instructions: u64,
    pub l1_dcache_misses: u64,
    pub llc_misses: u64,
    pub power_mw: u32,
    pub energy_uj: u64,
}

/// Aggregates of a batch of samples.
#[derive(Clone, Copy, Debug, PartialEq, Eq, Structural)]
pub struct EbpfMetrics {
    pub sample_count: usize,
    pub total_cpu_cycles: u128,
    pub total_cpu_instructions: u128,
    pub total_l1_cache_misses: u128,
    pub total_llc_misses: u128,
    pub total_power_mw: u128,
    pub total_energy_uj: u128,
}

/// Sum of one field over the samples.
pub open spec fn sum_of(s: Seq<EbpfSample>, f: spec_fn(EbpfSample) -> nat) -> nat
    decreases s.len(),
{
    if s.len() == 0 {
        0
    } else {
        sum_of(s.drop_last(), f) + f(s.last())
    }
}

pub open spec fn cycles_of(e: EbpfSample) -> nat { e.cpu_cycles as nat }
pub open spec fn instructions_of(e: EbpfSample) -> nat { e.cpu_instructions as nat }
pub open spec fn l1_misses_of(e: EbpfSample) -> nat { e.l1_dcache_misses as nat }
pub open spec fn llc_misses_of(e: EbpfSample) -> nat { e.llc_misses as nat }
pub open spec fn power_of(e: EbpfSample) -> nat { e.power_mw as nat }
pub open spec fn energy_of(e: EbpfSample) -> nat { e.energy_uj as nat }

proof fn lemma_sum_of_bound(s: Seq<EbpfSample>, f: spec_fn(EbpfSample) -> nat)
    requires
        forall|e: EbpfSample| #[trigger] f(e) <= u64::MAX,
    ensures
        sum_of(s, f) <= s.len() * (u64::MAX as nat),
    decreases s.len(),
{
    if s.len() > 0 {
        lemma_sum_of_bound(s.drop_last(), f);
    }
}

proof fn lemma_sum_step(s: Seq<EbpfSample>, i: int, f: spec_fn(EbpfSample) -> nat)
    requires
        0 <= i < s.len(),
        i <= u64::MAX,
        forall|e: EbpfSample| #[trigger] f(e) <= u64::MAX,
    ensures
        sum_of(s.subrange(0, i + 1), f) == sum_of(s.subrange(0, i), f) + f(s[i]),
        sum_of(s.subrange(0, i), f) + u64::MAX <= u128::MAX,
{
    assert(s.subrange(0, i + 1).drop_last() =~= s.subrange(0, i));
    lemma_sum_of_bound(s.subrange(0, i), f);
    assert(i * (u64::MAX as nat) <= (u64::MAX as nat) * (u64::MAX as nat)) by (nonlinear_arith)
        requires 0 <= i <= u64::MAX;
}

/// Aggregates a batch of samples: how many, and the total of each counter.
pub fn calculate_metrics(samples: &[EbpfSample]) -> (r: EbpfMetrics)
    ensures
        r.sample_count == samples@.len(),
        r.total_cpu_cycles == sum_of(samples@, |e: EbpfSample| cycles_of(e)),
        r.total_cpu_instructions == sum_of(samples@, |e: EbpfSample| instructions_of(e)),
        r.total_l1_cache_misses == sum_of(samples@, |e: EbpfSample| l1_misses_of(e)),
        r.total_llc_misses == sum_of(samples@, |e: EbpfSample| llc_misses_of(e)),
        r.total_power_mw == sum_of(samples@, |e: EbpfSample| power_of(e)),
        r.total_energy_uj == sum_of(samples@, |e: EbpfSample| energy_of(e)),
{
    let ghost fc = |e: EbpfSample| cycles_of(e);
    let ghost fi = |e: EbpfSample| instructions_of(e);
    let ghost fl = |e: EbpfSample| l1_misses_of(e);
    let ghost fm = |e: EbpfSample| llc_misses_of(e);
    let ghost fp = |e: EbpfSample| power_of(e);
    let ghost fe = |e: EbpfSample| energy_of(e);
    let mut m = EbpfMetrics {
        sample_count: samples.len(),
        total_cpu_cycles: 0,
        total_cpu_instructions: 0,
        total_l1_cache_misses: 0,
        total_llc_misses: 0,
        total_power_mw: 0,
        total_energy_uj: 0,
    };
    let mut i: usize = 0;
    while i < samples.len()
        invariant
            i <= samples@.len(),
            m.sample_count == samples@.len(),
            fc == (|e: EbpfSample| cycles_of(e)),
            fi == (|e: EbpfSample| instructions_of(e)),
            fl == (|e: EbpfSample| l1_misses_of(e)),
            fm == (|e: EbpfSample| llc_misses_of(e)),
            fp == (|e: EbpfSample| power_of(e)),
            fe == (|e: EbpfSample| energy_of(e)),
            m.total_cpu_cycles == sum_of(samples@.subrange(0, i as int), fc),
            m.total_cpu_instructions == sum_of(samples@.subrange(0, i as int), fi),
            m.total_l1_cache_misses == sum_of(samples@.subrange(0, i as int), fl),
            m.total_llc_misses == sum_of(samples@.subrange(0, i as int), fm),
            m.total_power_mw == sum_of(samples@.subrange(0, i as int), fp),
            m.total_energy_uj == sum_of(samples@.subrange(0, i as int), fe),
        decreases samples@.len() - i,
    {
        let e = samples[i];
        proof {
            assert forall|x: EbpfSample| #[trigger] fc(x) <= u64::MAX by {}
            assert forall|x: EbpfSample| #[trigger] fi(x) <= u64::MAX by {}
            assert forall|x: EbpfSample| #[trigger] fl(x) <= u64::MAX by {}
            assert forall|x: EbpfSample| #[trigger] fm(x) <= u64::MAX by {}
            assert forall|x: EbpfSample| #[trigger] fp(x) <= u64::MAX by {}
            assert forall|x: EbpfSample| #[trigger] fe(x) <= u64::MAX by {}
            lemma_sum_step(samples@, i as int, fc);
            lemma_sum_step(samples@, i as int, fi);
            lemma_sum_step(samples@, i as int, fl);
            lemma_sum_step(samples@, i as int, fm);
            lemma_sum_step(samples@, i as int, fp);
            lemma_sum_step(samples@, i as int, fe);
        }
        m.total_cpu_cycles = m.total_cpu_cycles + e.cpu_cycles as u128;
        m.total_cpu_instructions = m.total_cpu_instructions + e.cpu_instructions as u128;
        m.total_l1_cache_misses = m.total_l1_cache_misses + e.l1_dcache_misses as u128;
        m.total_llc_misses = m.total_llc_misses + e.llc_misses as u128;
        m.total_power_mw = m.total_power_mw + e.power_mw as u128;
        m.total_energy_uj = m.total_energy_uj + e.energy_uj as u128;
        i = i + 1;
    }
    assert(samples@.subrange(0, i as int) =~= samples@);
    m
}

/// `num / den`, or 0 where `den` is 0.
pub open spec fn ratio_or_zero(num: u128, den: u128) -> Ratio {
    if den == 0 { Ratio { num: 0, den: 1 } } else { Ratio { num, den } }
}

impl EbpfMetrics {
    /// Instructions per cycle over the batch; 0 without cycles.
    pub fn instructions_per_cycle(&self) -> (r: Ratio)
        ensures
            r == ratio_or_zero(self.total_cpu_instructions, self.total_cpu_cycles),
    {
        if self.total_cpu_cycles == 0 {
            Ratio { num: 0, den: 1 }
        } else {
            Ratio { num: self.total_cpu_instructions, den: self.total_cpu_cycles }
        }
    }

    /// Mean power in milliwatts; 0 without samples.
    pub fn avg_power_mw(&self) -> (r: Ratio)
        ensures
            r == ratio_or_zero(self.total_power_mw, self.sample_count as u128),
    {
        if self.sample_count == 0 {
            Ratio { num: 0, den: 1 }
        } else {
            Ratio { num: self.total_power_mw, den: self.sample_count as u128 }
        }
    }

    /// Mean cycles per sample; 0 without samples.
    pub fn avg_cpu_cycles(&self) -> (r: Ratio)
        ensures
            r == ratio_or_zero(self.total_cpu_cycles, self.sample_count as u128),
    {
        if self.sample_count == 0 {
            Ratio { num: 0, den: 1 }
        } else {
            Ratio { num: self.total_cpu_cycles, den: self.sample_count as u128 }
        }
    }

    /// Mean instructions per sample; 0 without samples.
    pub fn avg_cpu_instructions(&self) -> (r: Ratio)
        ensures
            r == ratio_or_zero(self.total_cpu_instructions, self.sample_count as u128),
    {
        if self.sample_count == 0 {
            Ratio { num: 0, den: 1 }
        } else {
            Ratio { num: self.total_cpu_instructions, den: self.sample_count as u128 }
        }
    }
}

/// Position of the first `.` at or after `i`, or the end of the text.
pub open spec fn dot_from(s: Seq<char>, i: int) -> int
    decreases s.len() - i,
{
    if i < 0 || i >= s.len() || s[i] == '.' { i } else { dot_from(s, i + 1) }
}

/// Major and minor number of a kernel release such as `5.15.0-91-generic`: the first two
/// dot-separated parts, each all digits; `None` otherwise.
pub open spec fn kernel_version_of(release: Seq<char>) -> Option<(u32, u32)> {
    let d1 = dot_from(release, 0);
    let d2 = dot_from(release, d1 + 1);
    if d1 >= release.len() {
        None
    } else {
        match (index_of(release.subrange(0, d1)), index_of(release.subrange(d1 + 1, d2))) {
            (Some(a), Some(b)) => Some((a, b)),
            _ => None,
        }
    }
}

fn dot_from_exec(s: &str, n: usize, i: usize) -> (r: usize)
    requires
        n == s@.len(),
        i <= n,
    ensures
        r == dot_from(s@, i as int),
        i <= r <= n,
{
    let mut j = i;
    while j < n && s.get_char(j) != '.'
        invariant
            n == s@.len(),
            i <= j <= n,
            dot_from(s@, j as int) == dot_from(s@, i as int),
        decreases n - j,
    {
        j = j + 1;
    }
    j
}

/// Reads the major and minor number of a kernel release.
pub fn parse_kernel_version(release: &str) -> (r: Option<(u32, u32)>)
    ensures
        r == kernel_version_of(release@),
{
    let n = release.unicode_len();
    let d1 = dot_from_exec(release, n, 0);
    if d1 >= n {
        return None;
    }
    let d2 = dot_from_exec(release, n, d1 + 1);
    let major = parse_index(release.substring_char(0, d1));
    let minor = parse_index(release.substring_char(d1 + 1, d2));
    match (major, minor) {
        (Some(a), Some(b)) => Some((a, b)),
        _ => None,
    }
}

/// Whether a kernel of this version can run the sampling programs: 5.8 or later.
pub fn kernel_supports_sampling(version: (u32, u32)) -> (r: bool)
    ensures
        r == (version.0 > 5 || (version.0 == 5 && version.1 >= 8)),
{
    version.0 > 5 || (version.0 == 5 && version.1 >= 8)
}

} // verus!
