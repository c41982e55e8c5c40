use vstd::prelude::*;
use vstd::string::*;
use crate::numtext::{str_eq, Ratio};

verus! {

/// The latest power reading of one named source, in milliwatts.
#[derive(Debug)]
pub struct PowerSource {
    pub source: String,
    pub milliwatts: u64,
}

/// Sum of the readings, in milliwatts.
pub open spec fn sum_mw(s: Seq<PowerSource>) -> nat
    decreases s.len(),
{
    if s.len() == 0 {
        0
    } else {
        sum_mw(s.drop_last()) + s.last().milliwatts as nat
    }
}

/// Whether entry `k` holds source `name`.
pub open spec fn source_is(s: Seq<PowerSource>, k: int, name: Seq<char>) -> bool {
    0 <= k < s.len() && s[k].source@ == name
}

/// No source appears twice.
pub open spec fn sources_unique(s: Seq<PowerSource>) -> bool {
    forall|i: int, j: int|
        #![trigger s[i], s[j]]
        0 <= i < s.len() && 0 <= j < s.len() && s[i].source@ == s[j].source@ ==> i == j
}

/// The reading of source `name`, if it reported one.
pub open spec fn reading_of(s: Seq<PowerSource>, name: Seq<char>) -> Option<u64> {
    if exists|k: int| source_is(s, k, name) {
        Some(s[choose|k: int| source_is(s, k, name)].milliwatts)
    } else {
        None
    }
}

proof fn lemma_sum_bound(s: Seq<PowerSource>)
    ensures
        sum_mw(s) <= s.len() * (u64::MAX as nat),
    decreases s.len(),
{
    if s.len() > 0 {
        lemma_sum_bound(s.drop_last());
    }
}

proof fn lemma_sum_update(s: Seq<PowerSource>, k: int, e: PowerSource)
    requires
        0 <= k < s.len(),
    ensures
        sum_mw(s.update(k, e)) + s[k].milliwatts == sum_mw(s) + e.milliwatts,
    decreases s.len(),
{
    let u = s.update(k, e);
    if k == s.len() - 1 {
        assert(u.drop_last() =~= s.drop_last());
    } else {
        lemma_sum_update(s.drop_last(), k, e);
        assert(u.drop_last() =~= s.drop_last().update(k, e));
    }
}

/// Sets the reading of `name`, replacing an earlier one or adding it at the end.
fn upsert(v: &mut Vec<PowerSource>, name: &str, milliwatts: u64)
    requires
        sources_unique(old(v)@),
    ensures
        sources_unique(final(v)@),
        reading_of(final(v)@, name@) == Some(milliwatts),
        forall|n: Seq<char>| n != name@ ==> reading_of(final(v)@, n) == reading_of(old(v)@, n),
        sum_mw(final(v)@) + (match reading_of(old(v)@, name@) {
            Some(w) => w as nat,
            None => 0,
        }) == sum_mw(old(v)@) + milliwatts,
        final(v)@.len() <= old(v)@.len() + 1,
{
    let ghost s0 = v@;
    let mut i: usize = 0;
    while i < v.len()
        invariant
            i <= v@.len(),
            v@ == s0,
            s0 == old(v)@,
            sources_unique(s0),
            forall|k: int| 0 <= k < i ==> !source_is(s0, k, name@),
        decreases v@.len() - i,
    {
        if str_eq(v[i].source.as_str(), name) {
            let e = PowerSource { source: String::from_str(name), milliwatts };
            let ghost ge = e;
            v.set(i, e);
            proof {
                let s = v@;
                let k = i as int;
                assert(source_is(s0, k, name@));
                let c = choose|c: int| source_is(s0, c, name@);
                assert(source_is(s0, c, name@));
                assert(s0[c].source@ == s0[k].source@);
                assert(c == k);
                assert(reading_of(s0, name@) == Some(s0[k].milliwatts));
                assert(s0[k].source@ == name@);
                assert(source_is(s, k, name@));
                assert forall|a: int, b: int|
                    #![trigger s[a], s[b]]
                    0 <= a < s.len() && 0 <= b < s.len() && s[a].source@ == s[b].source@
                        implies a == b by {
                    if a != k && b != k {
                        assert(s[a] == s0[a] && s[b] == s0[b]);
                    } else if a != k {
                        assert(s[a] == s0[a]);
                        assert(s0[a].source@ == s0[k].source@);
                    } else if b != k {
                        assert(s[b] == s0[b]);
                        assert(s0[b].source@ == s0[k].source@);
                    }
                }
                assert forall|n: Seq<char>| n != name@ implies reading_of(s, n) == reading_of(s0, n) by {
                    assert forall|j: int| source_is(s, j, n) <==> source_is(s0, j, n) by {
                        if j == k {
                            assert(!source_is(s, j, n));
                        } else if 0 <= j < s.len() {
                            assert(s[j] == s0[j]);
                        }
                    }
                    if exists|j: int| source_is(s, j, n) {
                        let c1 = choose|j: int| source_is(s, j, n);
                        let c2 = choose|j: int| source_is(s0, j, n);
                        assert(source_is(s0, c1, n));
                        assert(s0[c1].source@ == s0[c2].source@);
                        assert(c1 == c2);
                        assert(c1 != k);
                        assert(s[c1] == s0[c1]);
                    }
                }
                assert(s == s0.update(k, ge));
                lemma_sum_update(s0, k, ge);
            }
            return;
        }
        i = i + 1;
    }
    let e = PowerSource { source: String::from_str(name), milliwatts };
    v.push(e);
    proof {
        let s = v@;
        let n0 = s0.len() as int;
        assert(source_is(s, n0, name@));
        assert(s.drop_last() =~= s0);
        assert(reading_of(s0, name@) is None);
        assert forall|a: int, b: int|
            #![trigger s[a], s[b]]
            0 <= a < s.len() && 0 <= b < s.len() && s[a].source@ == s[b].source@ implies a == b by {
            if a < n0 && b < n0 {
                assert(s[a] == s0[a] && s[b] == s0[b]);
            } else if a < n0 {
                assert(s[a] == s0[a]);
                assert(source_is(s0, a, name@));
            } else if b < n0 {
                assert(s[b] == s0[b]);
                assert(source_is(s0, b, name@));
            }
        }
        assert forall|n: Seq<char>| n != name@ implies reading_of(s, n) == reading_of(s0, n) by {
            assert forall|j: int| source_is(s, j, n) <==> source_is(s0, j, n) by {
                if 0 <= j < n0 {
                    assert(s[j] == s0[j]);
                }
            }
            if exists|j: int| source_is(s, j, n) {
                let c1 = choose|j: int| source_is(s, j, n);
                let c2 = choose|j: int| source_is(s0, j, n);
                assert(source_is(s0, c1, n));
                assert(s0[c1].source@ == s0[c2].source@);
                assert(c1 == c2);
                assert(s[c1] == s0[c1]);
            }
        }
    }
}

fn total_of(v: &Vec<PowerSource>) -> (r: u128)
    ensures
        r == sum_mw(v@),
{
    let mut total: u128 = 0;
    let mut i: usize = 0;
    while i < v.len()
        invariant
            i <= v@.len(),
            total == sum_mw(v@.subrange(0, i as int)),
        decreases v@.len() - i,
    {
        proof {
            let pre = v@.subrange(0, i + 1);
            assert(pre.drop_last() =~= v@.subrange(0, i as int));
            lemma_sum_bound(pre);
            assert(pre.len() * (u64::MAX as nat) <= (u64::MAX as nat) * (u64::MAX as nat))
                by (nonlinear_arith) requires pre.len() <= u64::MAX;
        }
        total = total + v[i].milliwatts as u128;
        i = i + 1;
    }
    assert(v@.subrange(0, i as int) =~= v@);
    total
}

/// Power usage effectiveness from the totals: facility over IT power, held within `[1, 10]`
/// (an under-reported facility counts as 1), and 0 where either side draws nothing.
pub open spec fn pue_of(it: nat, facility: nat) -> Ratio {
    if it == 0 || facility == 0 {
        Ratio { num: 0, den: 1 }
    } else if facility < it {
        Ratio { num: 1, den: 1 }
    } else if facility > 10 * it {
        Ratio { num: 10, den: 1 }
    } else {
        Ratio { num: facility as u128, den: it as u128 }
    }
}

/// Efficiency as a fraction (a hundredth of the percentage): IT power over facility power;
/// 0 without facility power.
pub open spec fn efficiency_of(it: nat, facility: nat) -> Ratio {
    if facility == 0 {
        Ratio { num: 0, den: 1 }
    } else {
        Ratio { num: it as u128, den: facility as u128 }
    }
}

/// Power spent beyond the IT load, never below zero.
pub open spec fn overhead_of(it: nat, facility: nat) -> nat {
    if facility > it { (facility - it) as nat } else { 0 }
}

/// Whether a ratio equals the value `n / d`.
pub open spec fn ratio_is(r: Ratio, n: int, d: int) -> bool {
    r.den > 0 && r.num * d == n * r.den
}

/// Where both sides draw power the PUE lies in `[1, 10]`; where either side draws nothing it
/// is 0.
pub proof fn lemma_pue_range(it: nat, facility: nat)
    requires
        it <= u128::MAX,
        facility <= u128::MAX,
    ensures
        it > 0 && facility > 0 ==> pue_of(it, facility).den <= pue_of(it, facility).num
            <= 10 * pue_of(it, facility).den,
        (it == 0 || facility == 0) ==> pue_of(it, facility).num == 0,
        pue_of(it, facility).den > 0,
{
}

/// Values that the PUE collector exports.
#[derive(Clone, Copy, Debug, PartialEq, Eq, Structural)]
pub struct PueReport {
    pub pue: Ratio,
    pub efficiency: Ratio,
    pub overhead_mw: u128,
    pub it_power_mw: u128,
    pub facility_power_mw: u128,
}

/// Data-centre efficiency from the latest IT and facility power readings.
pub struct PueCalculator {
    it_power_sources: Vec<PowerSource>,
    facility_power_sources: Vec<PowerSource>,
}

impl PueCalculator {
    pub closed spec fn wf(&self) -> bool {
        sources_unique(self.it_power_sources@) && sources_unique(self.facility_power_sources@)
    }

    pub closed spec fn it_total(&self) -> nat {
        sum_mw(self.it_power_sources@)
    }

    pub closed spec fn facility_total(&self) -> nat {
        sum_mw(self.facility_power_sources@)
    }

    pub closed spec fn it_reading(&self, name: Seq<char>) -> Option<u64> {
        reading_of(self.it_power_sources@, name)
    }

    pub closed spec fn facility_reading(&self, name: Seq<char>) -> Option<u64> {
        reading_of(self.facility_power_sources@, name)
    }

    pub closed spec fn source_count(&self) -> nat {
        self.it_power_sources@.len() + self.facility_power_sources@.len()
    }

    pub fn new() -> (r: Self)
        ensures
            r.wf(),
            r.it_total() == 0,
            r.facility_total() == 0,
            r.source_count() == 0,
            forall|n: Seq<char>| r.it_reading(n) is None && r.facility_reading(n) is None,
    {
        PueCalculator { it_power_sources: Vec::new(), facility_power_sources: Vec::new() }
    }

    pub fn total_it_power(&self) -> (r: u128)
        ensures
            r == self.it_total(),
    {
        total_of(&self.it_power_sources)
    }

    pub fn total_facility_power(&self) -> (r: u128)
        ensures
            r == self.facility_total(),
    {
        total_of(&self.facility_power_sources)
    }

    /// Sets the IT power reported by `source`, replacing its earlier reading.
    pub fn update_it_power(&mut self, source: &str, milliwatts: u64)
        requires
            old(self).wf(),
        ensures
            final(self).wf(),
            final(self).it_reading(source@) == Some(milliwatts),
            forall|n: Seq<char>| n != source@ ==> final(self).it_reading(n) == old(self).it_reading(n),
            forall|n: Seq<char>| final(self).facility_reading(n) == old(self).facility_reading(n),
            final(self).it_total() + (match old(self).it_reading(source@) {
                Some(w) => w as nat,
                None => 0,
            }) == old(self).it_total() + milliwatts,
            final(self).facility_total() == old(self).facility_total(),
    {
        upsert(&mut self.it_power_sources, source, milliwatts);
    }

    /// Sets the facility power reported by `source`, replacing its earlier reading.
    pub fn update_facility_power(&mut self, source: &str, milliwatts: u64)
        requires
            old(self).wf(),
        ensures
            final(self).wf(),
            final(self).facility_reading(source@) == Some(milliwatts),
            forall|n: Seq<char>| n != source@ ==> final(self).facility_reading(n) == old(
                self,
            ).facility_reading(n),
            forall|n: Seq<char>| final(self).it_reading(n) == old(self).it_reading(n),
            final(self).facility_total() + (match old(self).facility_reading(source@) {
                Some(w) => w as nat,
                None => 0,
            }) == old(self).facility_total() + milliwatts,
            final(self).it_total() == old(self).it_total(),
    {
        upsert(&mut self.facility_power_sources, source, milliwatts);
    }

    pub fn calculate_pue(&self) -> (r: Ratio)
        ensures
            r == pue_of(self.it_total(), self.facility_total()),
    {
        let it = self.total_it_power();
        let facility = self.total_facility_power();
        if it == 0 || facility == 0 {
            Ratio { num: 0, den: 1 }
        } else if facility < it {
            Ratio { num: 1, den: 1 }
        } else if it <= u128::MAX / 10 && facility > 10 * it {
            Ratio { num: 10, den: 1 }
        } else {
            assert(it > u128::MAX / 10 ==> facility <= 10 * it);
            Ratio { num: facility, den: it }
        }
    }

    pub fn calculate_efficiency(&self) -> (r: Ratio)
        ensures
            r == efficiency_of(self.it_total(), self.facility_total()),
    {
        let it = self.total_it_power();
        let facility = self.total_facility_power();
        if facility == 0 {
            Ratio { num: 0, den: 1 }
        } else {
            Ratio { num: it, den: facility }
        }
    }

    pub fn calculate_overhead(&self) -> (r: u128)
        ensures
            r == overhead_of(self.it_total(), self.facility_total()),
    {
        let it = self.total_it_power();
        let facility = self.total_facility_power();
        if facility > it { facility - it } else { 0 }
    }

    /// Everything the collector exports on one tick.
    pub fn collect_internal(&self) -> (r: PueReport)
        ensures
            r.pue == pue_of(self.it_total(), self.facility_total()),
            r.efficiency == efficiency_of(self.it_total(), self.facility_total()),
            r.overhead_mw == overhead_of(self.it_total(), self.facility_total()),
            r.it_power_mw == self.it_total(),
            r.facility_power_mw == self.facility_total(),
    {
        PueReport {
            pue: self.calculate_pue(),
            efficiency: self.calculate_efficiency(),
            overhead_mw: self.calculate_overhead(),
            it_power_mw: self.total_it_power(),
            facility_power_mw: self.total_facility_power(),
        }
    }
}

} // verus!
