use vstd::prelude::*;
use vstd::string::*;
use crate::derivations::{
    counter_delta, counter_delta_spec, energy_delta_joules, energy_joules_spec,
    pcie_bandwidth_milli_pct, pcie_percent_spec, PcieLinkSpeed,
};
use crate::gpu::{is_visible, visible};
use crate::numtext::{decimal_string, decimal_text};
use crate::predictive::texts;
use crate::state::copy_string_opt;

verus! {

/// Throttle-reason bits that mean a thermal slowdown (software and hardware).
pub const THERMAL_THROTTLE_BITS: u64 = 0x60;

/// Throttle-reason bits that mean a power cap or power-brake slowdown.
pub const POWER_THROTTLE_BITS: u64 = 0x84;

/// Cumulative counters of one NVLink link.
#[derive(Clone, Copy, Debug, PartialEq, Eq, Structural)]
pub struct NvLinkReading {
    pub link: u32,
    pub rx_bytes: u64,
    pub tx_bytes: u64,
    pub errors: u64,
}

/// How much a link's counters advanced; `None` on the link's first sighting.
#[derive(Clone, Copy, Debug, PartialEq, Eq, Structural)]
pub struct NvLinkDelta {
    pub link: u32,
    pub rx_bytes: Option<u64>,
    pub tx_bytes: Option<u64>,
    pub errors: Option<u64>,
}

/// What one GPU reports on a tick. Power is in milliwatts, PCIe throughput in KiB/s.
#[derive(Debug)]
pub struct GpuReading {
    pub index: u32,
    pub uuid: Option<String>,
    pub power_mw: Option<u64>,
    pub ecc_corrected_aggregate: Option<u64>,
    pub ecc_uncorrected_aggregate: Option<u64>,
    pub pcie_tx_kbps: Option<u64>,
    pub pcie_rx_kbps: Option<u64>,
    pub pcie_link: Option<(PcieLinkSpeed, u32)>,
    pub pcie_replay: Option<u64>,
    pub nvlinks: Vec<NvLinkReading>,
    pub throttle_bits: Option<u64>,
}

/// What the collector derives for one visible GPU on a tick.
#[derive(Debug)]
pub struct GpuDevice {
    pub index: u32,
    pub uuid: Option<String>,
    pub energy_joules: u64,
    pub ecc_corrected_delta: Option<u64>,
    pub ecc_uncorrected_delta: Option<u64>,
    pub pcie_replay_delta: Option<u64>,
    pub pcie_bandwidth_milli_pct: Option<u64>,
    pub nvlinks: Vec<NvLinkDelta>,
    pub thermal_throttle: bool,
    pub power_throttle: bool,
}

/// The previous reading of one GPU, kept between ticks.
#[derive(Debug)]
pub struct GpuPrevious {
    pub index: u32,
    pub power_mw: Option<u64>,
    pub at_ms: u64,
    pub ecc_corrected_aggregate: Option<u64>,
    pub ecc_uncorrected_aggregate: Option<u64>,
    pub pcie_replay: Option<u64>,
    pub nvlinks: Vec<NvLinkReading>,
}

/// The id under which a filter may name a GPU, besides its index.
pub open spec fn uuid_text(r: GpuReading) -> Seq<char> {
    match r.uuid {
        Some(u) => u@,
        None => Seq::empty(),
    }
}

/// Whether a reading passes the filter.
pub open spec fn shown(f: Option<Seq<Seq<char>>>) -> spec_fn(GpuReading) -> bool {
    |r: GpuReading| visible(f, uuid_text(r), decimal_text(r.index as nat))
}

/// The first previous reading of the GPU with this index.
pub open spec fn previous_of(p: Seq<GpuPrevious>, index: u32) -> Option<GpuPrevious>
    decreases p.len(),
{
    if p.len() == 0 {
        None
    } else if p[0].index == index {
        Some(p[0])
    } else {
        previous_of(p.drop_first(), index)
    }
}

/// The first previous reading of the link with this number.
pub open spec fn link_previous(ls: Seq<NvLinkReading>, link: u32) -> Option<NvLinkReading>
    decreases ls.len(),
{
    if ls.len() == 0 {
        None
    } else if ls[0].link == link {
        Some(ls[0])
    } else {
        link_previous(ls.drop_first(), link)
    }
}

/// The advance of a counter that may be missing; a missing previous value counts as zero.
pub open spec fn opt_delta(prev: Option<u64>, cur: Option<u64>) -> Option<u64> {
    match cur {
        None => None,
        Some(c) => Some(counter_delta_spec(match prev { Some(p) => p, None => 0 }, c) as u64),
    }
}

pub open spec fn link_delta_ok(d: NvLinkDelta, cur: NvLinkReading, prev: Seq<NvLinkReading>) -> bool {
    &&& d.link == cur.link
    &&& match link_previous(prev, cur.link) {
        Some(p) => d.rx_bytes == Some(counter_delta_spec(p.rx_bytes, cur.rx_bytes) as u64)
            && d.tx_bytes == Some(counter_delta_spec(p.tx_bytes, cur.tx_bytes) as u64)
            && d.errors == Some(counter_delta_spec(p.errors, cur.errors) as u64),
        None => d.rx_bytes is None && d.tx_bytes is None && d.errors is None,
    }
}

/// Energy drawn since the previous reading at its power; 0 on first sight or without power.
pub open spec fn energy_since(p: Option<GpuPrevious>, now: u64) -> nat {
    match p {
        Some(q) => match q.power_mw {
            Some(w) => if now > q.at_ms { energy_joules_spec(w, (now - q.at_ms) as u64) } else { 0 },
            None => 0,
        },
        None => 0,
    }
}

/// The PCIe bandwidth use of a reading, where it reports throughput and link.
pub open spec fn bandwidth_of(r: GpuReading) -> Option<nat> {
    match (r.pcie_tx_kbps, r.pcie_rx_kbps, r.pcie_link) {
        (Some(t), Some(x), Some((s, w))) => pcie_percent_spec(t, x, s, w),
        _ => None,
    }
}

/// Everything derived for one GPU from its reading and its previous one.
pub open spec fn device_ok(d: GpuDevice, r: GpuReading, p: Option<GpuPrevious>, now: u64) -> bool {
    let prev_links = match p { Some(q) => q.nvlinks@, None => Seq::empty() };
    &&& d.index == r.index
    &&& d.uuid == r.uuid
    &&& d.energy_joules == energy_since(p, now)
    &&& d.ecc_corrected_delta == opt_delta(match p { Some(q) => q.ecc_corrected_aggregate, None => None }, r.ecc_corrected_aggregate)
    &&& d.ecc_uncorrected_delta == opt_delta(match p { Some(q) => q.ecc_uncorrected_aggregate, None => None }, r.ecc_uncorrected_aggregate)
    &&& d.pcie_replay_delta == opt_delta(match p { Some(q) => q.pcie_replay, None => None }, r.pcie_replay)
    &&& match bandwidth_of(r) {
        Some(v) => d.pcie_bandwidth_milli_pct == Some(v as u64),
        None => d.pcie_bandwidth_milli_pct is None,
    }
    &&& d.nvlinks@.len() == r.nvlinks@.len()
    &&& forall|k: int| 0 <= k < d.nvlinks@.len() ==> link_delta_ok(#[trigger] d.nvlinks@[k], r.nvlinks@[k], prev_links)
    &&& d.thermal_throttle == (r.throttle_bits matches Some(b) && b & THERMAL_THROTTLE_BITS != 0)
    &&& d.power_throttle == (r.throttle_bits matches Some(b) && b & POWER_THROTTLE_BITS != 0)
}

/// The previous reading that a tick leaves for a GPU.
pub open spec fn kept_as(p: GpuPrevious, r: GpuReading, now: u64) -> bool {
    &&& p.index == r.index
    &&& p.power_mw == r.power_mw
    &&& p.at_ms == now
    &&& p.ecc_corrected_aggregate == r.ecc_corrected_aggregate
    &&& p.ecc_uncorrected_aggregate == r.ecc_uncorrected_aggregate
    &&& p.pcie_replay == r.pcie_replay
    &&& p.nvlinks@ == r.nvlinks@
}

fn find_previous(p: &Vec<GpuPrevious>, index: u32) -> (r: Option<usize>)
    ensures
        match r {
            Some(k) => k < p@.len() && previous_of(p@, index) == Some(p@[k as int]),
            None => previous_of(p@, index) is None,
        },
{
    let mut i: usize = 0;
    assert(p@.subrange(0, p@.len() as int) =~= p@);
    while i < p.len()
        invariant
            i <= p@.len(),
            previous_of(p@, index) == previous_of(p@.subrange(i as int, p@.len() as int), index),
        decreases p@.len() - i,
    {
        let ghost rest = p@.subrange(i as int, p@.len() as int);
        assert(rest[0] == p@[i as int]);
        if p[i].index == index {
            return Some(i);
        }
        assert(rest.drop_first() =~= p@.subrange(i + 1, p@.len() as int));
        i = i + 1;
    }
    assert(p@.subrange(i as int, p@.len() as int) =~= Seq::<GpuPrevious>::empty());
    None
}

fn find_link(ls: &Vec<NvLinkReading>, link: u32) -> (r: Option<NvLinkReading>)
    ensures
        r == link_previous(ls@, link),
{
    let mut i: usize = 0;
    assert(ls@.subrange(0, ls@.len() as int) =~= ls@);
    while i < ls.len()
        invariant
            i <= ls@.len(),
            link_previous(ls@, link) == link_previous(ls@.subrange(i as int, ls@.len() as int), link),
        decreases ls@.len() - i,
    {
        let ghost rest = ls@.subrange(i as int, ls@.len() as int);
        assert(rest[0] == ls@[i as int]);
        if ls[i].link == link {
            return Some(ls[i]);
        }
        assert(rest.drop_first() =~= ls@.subrange(i + 1, ls@.len() as int));
        i = i + 1;
    }
    assert(ls@.subrange(i as int, ls@.len() as int) =~= Seq::<NvLinkReading>::empty());
    None
}

fn copy_links(v: &Vec<NvLinkReading>) -> (r: Vec<NvLinkReading>)
    ensures
        r@ == v@,
{
    let mut out: Vec<NvLinkReading> = Vec::new();
    let mut i: usize = 0;
    while i < v.len()
        invariant
            i <= v@.len(),
            out@ == v@.subrange(0, i as int),
        decreases v@.len() - i,
    {
        out.push(v[i]);
        i = i + 1;
        assert(out@ =~= v@.subrange(0, i as int));
    }
    assert(out@ =~= v@);
    out
}

fn opt_delta_exec(prev: Option<u64>, cur: Option<u64>) -> (r: Option<u64>)
    ensures
        r == opt_delta(prev, cur),
{
    match cur {
        None => None,
        Some(c) => Some(counter_delta(match prev { Some(p) => p, None => 0 }, c)),
    }
}

fn link_deltas(cur: &Vec<NvLinkReading>, prev: &Vec<NvLinkReading>) -> (r: Vec<NvLinkDelta>)
    ensures
        r@.len() == cur@.len(),
        forall|k: int| 0 <= k < r@.len() ==> link_delta_ok(#[trigger] r@[k], cur@[k], prev@),
{
    let mut out: Vec<NvLinkDelta> = Vec::new();
    let mut i: usize = 0;
    while i < cur.len()
        invariant
            i <= cur@.len(),
            out@.len() == i,
            forall|k: int| 0 <= k < i ==> link_delta_ok(#[trigger] out@[k], cur@[k], prev@),
        decreases cur@.len() - i,
    {
        let c = cur[i];
        let d = match find_link(prev, c.link) {
            Some(p) => NvLinkDelta {
                link: c.link,
                rx_bytes: Some(counter_delta(p.rx_bytes, c.rx_bytes)),
                tx_bytes: Some(counter_delta(p.tx_bytes, c.tx_bytes)),
                errors: Some(counter_delta(p.errors, c.errors)),
            },
            None => NvLinkDelta { link: c.link, rx_bytes: None, tx_bytes: None, errors: None },
        };
        out.push(d);
        i = i + 1;
    }
    out
}

/// Derives one GPU's values from its reading and its previous reading.
fn derive_device(r: &GpuReading, p: Option<&GpuPrevious>, now_ms: u64) -> (d: GpuDevice)
    ensures
        device_ok(d, *r, match p { Some(q) => Some(*q), None => None }, now_ms),
{
    let energy = match p {
        Some(q) => match q.power_mw {
            Some(w) => if now_ms > q.at_ms { energy_delta_joules(w, now_ms - q.at_ms) } else { 0 },
            None => 0,
        },
        None => 0,
    };
    let empty: Vec<NvLinkReading> = Vec::new();
    let prev_links = match p { Some(q) => &q.nvlinks, None => &empty };
    let bandwidth = match (r.pcie_tx_kbps, r.pcie_rx_kbps, r.pcie_link) {
        (Some(t), Some(x), Some((s, w))) => pcie_bandwidth_milli_pct(t, x, s, w),
        _ => None,
    };
    let thermal = match r.throttle_bits { Some(b) => b & THERMAL_THROTTLE_BITS != 0, None => false };
    let power = match r.throttle_bits { Some(b) => b & POWER_THROTTLE_BITS != 0, None => false };
    GpuDevice {
        index: r.index,
        uuid: copy_string_opt(&r.uuid),
        energy_joules: energy,
        ecc_corrected_delta: opt_delta_exec(match p { Some(q) => q.ecc_corrected_aggregate, None => None }, r.ecc_corrected_aggregate),
        ecc_uncorrected_delta: opt_delta_exec(match p { Some(q) => q.ecc_uncorrected_aggregate, None => None }, r.ecc_uncorrected_aggregate),
        pcie_replay_delta: opt_delta_exec(match p { Some(q) => q.pcie_replay, None => None }, r.pcie_replay),
        pcie_bandwidth_milli_pct: bandwidth,
        nvlinks: link_deltas(&r.nvlinks, prev_links),
        thermal_throttle: thermal,
        power_throttle: power,
    }
}

/// What one GPU tick yields: the visible devices, in the order of the readings.
#[derive(Debug)]
pub struct GpuTick {
    pub devices: Vec<GpuDevice>,
}

/// Keeps each GPU's previous reading and derives energy, counter deltas and bandwidth.
pub struct GpuTracker {
    previous: Vec<GpuPrevious>,
}

impl GpuTracker {
    pub closed spec fn kept(&self) -> Seq<GpuPrevious> {
        self.previous@
    }

    pub fn new() -> (r: Self)
        ensures
            r.kept().len() == 0,
    {
        GpuTracker { previous: Vec::new() }
    }

    /// Takes every GPU's reading at `now_ms`. Devices that the filter hides are skipped
    /// entirely; for the others, in order, energy comes from the previous power over the time
    /// since, counter deltas from the previous counters (0 after a reset), and bandwidth from
    /// throughput and link. The visible readings become the previous ones.
    pub fn observe(&mut self, filter: &Option<Vec<String>>, readings: &Vec<GpuReading>, now_ms: u64) -> (r: GpuTick)
        ensures
            ({
                let fv = match filter { Some(v) => Some(texts(v@)), None => None };
                let seen = readings@.filter(shown(fv));
                &&& r.devices@.len() == seen.len()
                &&& forall|i: int| 0 <= i < seen.len() ==> device_ok(#[trigger] r.devices@[i], seen[i],
                    previous_of(old(self).kept(), seen[i].index), now_ms)
                &&& final(self).kept().len() == seen.len()
                &&& forall|i: int| 0 <= i < seen.len() ==> kept_as(#[trigger] final(self).kept()[i], seen[i], now_ms)
            }),
    {
        let ghost fv = match filter { Some(v) => Some(texts(v@)), None => None };
        let mut devices: Vec<GpuDevice> = Vec::new();
        let mut next: Vec<GpuPrevious> = Vec::new();
        let mut i: usize = 0;
        while i < readings.len()
            invariant
                i <= readings@.len(),
                fv == (match filter { Some(v) => Some(texts(v@)), None => None::<Seq<Seq<char>>> }),
                self.previous@ == old(self).previous@,
                devices@.len() == readings@.subrange(0, i as int).filter(shown(fv)).len(),
                next@.len() == devices@.len(),
                forall|k: int| 0 <= k < devices@.len() ==> device_ok(#[trigger] devices@[k],
                    readings@.subrange(0, i as int).filter(shown(fv))[k],
                    previous_of(old(self).previous@, readings@.subrange(0, i as int).filter(shown(fv))[k].index), now_ms),
                forall|k: int| 0 <= k < next@.len() ==> kept_as(#[trigger] next@[k],
                    readings@.subrange(0, i as int).filter(shown(fv))[k], now_ms),
            decreases readings@.len() - i,
        {
            let r = &readings[i];
            let empty = String::new();
            let uuid_str: &str = match &r.uuid { Some(u) => u.as_str(), None => empty.as_str() };
            let index_text = decimal_string(r.index as u64);
            let show = is_visible(filter, uuid_str, index_text.as_str());
            let ghost before_seen = readings@.subrange(0, i as int).filter(shown(fv));
            let ghost d0 = devices@;
            let ghost n0 = next@;
            proof {
                reveal(Seq::filter);
                let pre = readings@.subrange(0, i + 1);
                assert(pre.drop_last() =~= readings@.subrange(0, i as int));
                assert(pre.last() == readings@[i as int]);
                assert(uuid_str@ == uuid_text(*r));
                assert(shown(fv)(*r) == show);
            }
            if show {
                let d = match find_previous(&self.previous, r.index) {
                    Some(k) => derive_device(r, Some(&self.previous[k]), now_ms),
                    None => derive_device(r, None, now_ms),
                };
                devices.push(d);
                next.push(GpuPrevious {
                    index: r.index,
                    power_mw: r.power_mw,
                    at_ms: now_ms,
                    ecc_corrected_aggregate: r.ecc_corrected_aggregate,
                    ecc_uncorrected_aggregate: r.ecc_uncorrected_aggregate,
                    pcie_replay: r.pcie_replay,
                    nvlinks: copy_links(&r.nvlinks),
                });
                proof {
                    let seen = readings@.subrange(0, i + 1).filter(shown(fv));
                    assert(seen == before_seen.push(*r));
                    assert forall|k: int| 0 <= k < devices@.len() implies device_ok(#[trigger] devices@[k], seen[k],
                        previous_of(old(self).previous@, seen[k].index), now_ms) by {
                        if k < d0.len() {
                            assert(devices@[k] == d0[k]);
                        }
                    }
                    assert forall|k: int| 0 <= k < next@.len() implies kept_as(#[trigger] next@[k], seen[k], now_ms) by {
                        if k < n0.len() {
                            assert(next@[k] == n0[k]);
                        }
                    }
                }
            } else {
                proof {
                    let seen = readings@.subrange(0, i + 1).filter(shown(fv));
                    assert(seen == before_seen);
                }
            }
            i = i + 1;
        }
        proof {
            assert(readings@.subrange(0, i as int) =~= readings@);
        }
        self.previous = next;
        GpuTick { devices }
    }
}

} // verus!
