use vstd::prelude::*;

verus! {

/// Maximum link speed of a PCIe generation.
#[derive(Clone, Copy, Debug, PartialEq, Eq, Structural)]
pub enum PcieLinkSpeed {
    Gen1,
    Gen2,
    Gen3,
    Gen4,
    Gen5,
    Unknown,
}

/// Bytes per second that one lane carries at the given speed; 0 where it is unknown.
pub open spec fn lane_bytes_spec(s: PcieLinkSpeed) -> nat {
    match s {
        PcieLinkSpeed::Gen1 => 2_500_000_000,
        PcieLinkSpeed::Gen2 => 5_000_000_000,
        PcieLinkSpeed::Gen3 => 8_000_000_000,
        PcieLinkSpeed::Gen4 => 16_000_000_000,
        PcieLinkSpeed::Gen5 => 32_000_000_000,
        PcieLinkSpeed::Unknown => 0,
    }
}

pub fn lane_bytes_per_sec(s: PcieLinkSpeed) -> (r: u64)
    ensures
        r == lane_bytes_spec(s),
{
    match s {
        PcieLinkSpeed::Gen1 => 2_500_000_000,
        PcieLinkSpeed::Gen2 => 5_000_000_000,
        PcieLinkSpeed::Gen3 => 8_000_000_000,
        PcieLinkSpeed::Gen4 => 16_000_000_000,
        PcieLinkSpeed::Gen5 => 32_000_000_000,
        PcieLinkSpeed::Unknown => 0,
    }
}

/// PCIe bandwidth use in thousandths of a percent: the traffic (`tx + rx` KiB/s) over the
/// link budget (lane bytes per second times the width, at least one lane), capped at 100%.
/// `None` where the link speed is unknown.
pub open spec fn pcie_percent_spec(tx_kbps: u64, rx_kbps: u64, s: PcieLinkSpeed, width: u32) -> Option<
    nat,
> {
    let budget = lane_bytes_spec(s) * (if width == 0 { 1 } else { width as nat });
    if budget == 0 {
        None
    } else {
        let traffic = (tx_kbps as nat + rx_kbps as nat) * 1024;
        let pct = traffic * 100_000 / budget;
        Some(if pct > 100_000 { 100_000 } else { pct as nat })
    }
}

pub fn pcie_bandwidth_milli_pct(tx_kbps: u64, rx_kbps: u64, speed: PcieLinkSpeed, width: u32) -> (r:
    Option<u64>)
    ensures
        r matches Some(v) ==> pcie_percent_spec(tx_kbps, rx_kbps, speed, width) == Some(v as nat),
        r is None ==> pcie_percent_spec(tx_kbps, rx_kbps, speed, width) is None,
{
    let lane = lane_bytes_per_sec(speed) as u128;
    let lanes: u128 = if width == 0 { 1 } else { width as u128 };
    assert(lane * lanes <= 32_000_000_000 * 0xffff_ffff) by (nonlinear_arith)
        requires lane <= 32_000_000_000, lanes <= 0xffff_ffff;
    let budget: u128 = lane * lanes;
    if budget == 0 {
        return None;
    }
    let traffic: u128 = (tx_kbps as u128 + rx_kbps as u128) * 1024;
    assert(traffic * 100_000 <= 0x2_0000_0000_0000_0000 * 1024 * 100_000) by (nonlinear_arith)
        requires traffic <= 0x2_0000_0000_0000_0000 * 1024;
    let pct: u128 = traffic * 100_000 / budget;
    Some(if pct > 100_000 { 100_000 } else { pct as u64 })
}

/// The PCIe percentage never leaves `[0, 100]`.
pub proof fn lemma_pcie_percent_bounded(tx_kbps: u64, rx_kbps: u64, s: PcieLinkSpeed, width: u32)
    ensures
        pcie_percent_spec(tx_kbps, rx_kbps, s, width) matches Some(v) ==> 0 <= v <= 100_000,
{
}

/// How far a source counter advanced: the difference, or 0 where it went back (a reset).
pub open spec fn counter_delta_spec(prev: u64, cur: u64) -> nat {
    if cur >= prev { (cur - prev) as nat } else { 0 }
}

pub fn counter_delta(prev: u64, cur: u64) -> (r: u64)
    ensures
        r == counter_delta_spec(prev, cur),
{
    if cur >= prev { cur - prev } else { 0 }
}

/// Energy in whole joules drawn at `prev_mw` milliwatts for `dt_ms` milliseconds, rounded
/// down and saturated into `u64`.
pub open spec fn energy_joules_spec(prev_mw: u64, dt_ms: u64) -> nat {
    let j = (prev_mw as nat) * (dt_ms as nat) / 1_000_000;
    if j > u64::MAX { u64::MAX as nat } else { j }
}

pub fn energy_delta_joules(prev_mw: u64, dt_ms: u64) -> (r: u64)
    ensures
        r == energy_joules_spec(prev_mw, dt_ms),
{
    assert((prev_mw as nat) * (dt_ms as nat) <= (u64::MAX as nat) * (u64::MAX as nat))
        by (nonlinear_arith);
    let p: u128 = prev_mw as u128 * dt_ms as u128;
    let j: u128 = p / 1_000_000;
    if j > u64::MAX as u128 { u64::MAX } else { j as u64 }
}

/// Turns readings of a source counter, which may reset, into a total that never decreases.
#[derive(Clone, Copy, Debug, PartialEq, Eq, Structural)]
pub struct DeltaTracker {
    pub last_source: Option<u64>,
    pub total: u64,
}

impl DeltaTracker {
    pub fn new() -> (r: Self)
        ensures
            r.last_source is None,
            r.total == 0,
    {
        DeltaTracker { last_source: None, total: 0 }
    }

    /// Takes a new reading of the source and returns the delta applied to the total: the
    /// advance since the last reading (0 for the first one and after a reset), added with
    /// saturation.
    pub fn observe(&mut self, source: u64) -> (applied: u64)
        ensures
            final(self).last_source == Some(source),
            applied == match old(self).last_source {
                None => 0,
                Some(p) => counter_delta_spec(p, source),
            },
            final(self).total == if old(self).total + applied > u64::MAX {
                u64::MAX as int
            } else {
                old(self).total + applied
            },
            final(self).total >= old(self).total,
    {
        let d = match self.last_source {
            None => 0,
            Some(p) => counter_delta(p, source),
        };
        self.total = self.total.saturating_add(d);
        self.last_source = Some(source);
        d
    }
}

/// Feeding any reading to a tracker never lowers its total, and a reading below the previous
/// one adds nothing.
pub proof fn lemma_counter_never_decreases(prev: u64, cur: u64, total: u64)
    ensures
        counter_delta_spec(prev, cur) >= 0,
        cur < prev ==> counter_delta_spec(prev, cur) == 0,
        total + counter_delta_spec(prev, cur) >= total,
{
}

/// Whether the node draws more than its configured power envelope; never without both a
/// reading and an envelope.
pub fn envelope_exceeded(node_power_mw: Option<u64>, envelope_mw: Option<u64>) -> (r: bool)
    ensures
        r == (node_power_mw matches Some(p) && envelope_mw matches Some(e) && p > e),
{
    match (node_power_mw, envelope_mw) {
        (Some(p), Some(e)) => p > e,
        _ => false,
    }
}

} // verus!
