use vstd::prelude::*;
use vstd::string::*;
use crate::derivations::{counter_delta, counter_delta_spec};
use crate::numtext::str_eq;

verus! {

/// Cumulative counters of one network interface as the system reports them.
#[derive(Debug)]
pub struct InterfaceCounters {
    pub name: String,
    pub rx_bytes: u64,
    pub tx_bytes: u64,
    pub rx_errors: u64,
    pub rx_packets: u64,
    pub tx_packets: u64,
    pub rx_dropped: u64,
    pub tx_dropped: u64,
}

/// How much each counter of an interface advanced since the previous tick.
#[derive(Debug)]
pub struct InterfaceDeltas {
    pub name: String,
    pub rx_bytes: u64,
    pub tx_bytes: u64,
    pub rx_errors: u64,
    pub rx_packets: u64,
    pub tx_packets: u64,
    pub rx_dropped: u64,
    pub tx_dropped: u64,
}

/// The busiest interface of a tick and its rates, in thousandths per second.
#[derive(Debug)]
pub struct PrimaryNic {
    pub name: String,
    pub rx_milli_bytes_per_sec: Option<u64>,
    pub tx_milli_bytes_per_sec: Option<u64>,
    pub drops_milli_per_sec: Option<u64>,
}

/// What one network tick yields.
#[derive(Debug)]
pub struct NetworkTick {
    pub deltas: Vec<InterfaceDeltas>,
    pub primary: Option<PrimaryNic>,
}

/// The advance of every counter from `p` (or from zero where the interface is new) to `c`.
pub open spec fn deltas_ok(d: InterfaceDeltas, c: InterfaceCounters, p: Option<InterfaceCounters>) -> bool {
    &&& d.name@ == c.name@
    &&& d.rx_bytes == counter_delta_spec(match p { Some(q) => q.rx_bytes, None => 0 }, c.rx_bytes)
    &&& d.tx_bytes == counter_delta_spec(match p { Some(q) => q.tx_bytes, None => 0 }, c.tx_bytes)
    &&& d.rx_errors == counter_delta_spec(match p { Some(q) => q.rx_errors, None => 0 }, c.rx_errors)
    &&& d.rx_packets == counter_delta_spec(match p { Some(q) => q.rx_packets, None => 0 }, c.rx_packets)
    &&& d.tx_packets == counter_delta_spec(match p { Some(q) => q.tx_packets, None => 0 }, c.tx_packets)
    &&& d.rx_dropped == counter_delta_spec(match p { Some(q) => q.rx_dropped, None => 0 }, c.rx_dropped)
    &&& d.tx_dropped == counter_delta_spec(match p { Some(q) => q.tx_dropped, None => 0 }, c.tx_dropped)
}

/// Whether entry `k` of `s` is interface `name`.
pub open spec fn iface_is(s: Seq<InterfaceCounters>, k: int, name: Seq<char>) -> bool {
    0 <= k < s.len() && s[k].name@ == name
}

/// The first entry of `s` for interface `name`.
pub open spec fn previous_of(s: Seq<InterfaceCounters>, name: Seq<char>) -> Option<InterfaceCounters> {
    if exists|k: int| iface_is(s, k, name) {
        let k = choose|k: int| iface_is(s, k, name) && forall|j: int| 0 <= j < k ==> !iface_is(s, j, name);
        Some(s[k])
    } else {
        None
    }
}

/// The traffic of an interface on a tick: received plus sent bytes, saturated.
pub open spec fn traffic(d: InterfaceDeltas) -> nat {
    let t = d.rx_bytes + d.tx_bytes;
    if t > u64::MAX { u64::MAX as nat } else { t as nat }
}

/// Whether an interface may be the primary one: it is not the loopback device.
pub open spec fn candidate(d: InterfaceDeltas) -> bool {
    d.name@ != "lo"@
}

/// The position of the primary interface: among the non-loopback interfaces, the one with the
/// most traffic (an idle tick included), the earliest among equals.
pub open spec fn is_primary(ds: Seq<InterfaceDeltas>, i: int) -> bool {
    &&& 0 <= i < ds.len()
    &&& candidate(ds[i])
    &&& forall|j: int| 0 <= j < ds.len() && candidate(#[trigger] ds[j]) ==> traffic(ds[j]) <= traffic(ds[i])
    &&& forall|j: int| 0 <= j < i && candidate(#[trigger] ds[j]) ==> traffic(ds[j]) < traffic(ds[i])
}

/// A per-second rate in thousandths: `delta` over `dt_ms` milliseconds; `None` when no
/// time passed.
pub open spec fn rate_spec(delta: u64, dt_ms: u64) -> Option<u64> {
    if dt_ms == 0 {
        None
    } else {
        let r = (delta as nat) * 1_000_000 / (dt_ms as nat);
        Some(if r > u64::MAX { u64::MAX } else { r as u64 })
    }
}

pub fn rate_milli_per_sec(delta: u64, dt_ms: u64) -> (r: Option<u64>)
    ensures
        r == rate_spec(delta, dt_ms),
{
    if dt_ms == 0 {
        None
    } else {
        assert((delta as nat) * 1_000_000 <= (u64::MAX as nat) * 1_000_000) by (nonlinear_arith);
        let r: u128 = delta as u128 * 1_000_000 / dt_ms as u128;
        Some(if r > u64::MAX as u128 { u64::MAX } else { r as u64 })
    }
}

fn find_previous(s: &Vec<InterfaceCounters>, name: &str) -> (r: Option<usize>)
    ensures
        match r {
            Some(k) => iface_is(s@, k as int, name@) && previous_of(s@, name@) == Some(s@[k as int]),
            None => previous_of(s@, name@) is None,
        },
{
    let mut i: usize = 0;
    while i < s.len()
        invariant
            i <= s@.len(),
            forall|j: int| 0 <= j < i ==> !iface_is(s@, j, name@),
        decreases s@.len() - i,
    {
        if str_eq(s[i].name.as_str(), name) {
            proof {
                let k = i as int;
                assert(iface_is(s@, k, name@));
                let c = choose|c: int| iface_is(s@, c, name@) && forall|j: int| 0 <= j < c ==> !iface_is(s@, j, name@);
                assert(iface_is(s@, k, name@) && forall|j: int| 0 <= j < k ==> !iface_is(s@, j, name@));
                if c < k {
                    assert(!iface_is(s@, c, name@));
                } else if c > k {
                    assert(!iface_is(s@, k, name@));
                }
            }
            return Some(i);
        }
        i = i + 1;
    }
    None
}

fn delta_of(prev: &Vec<InterfaceCounters>, c: &InterfaceCounters) -> (d: InterfaceDeltas)
    ensures
        deltas_ok(d, *c, previous_of(prev@, c.name@)),
{
    match find_previous(prev, c.name.as_str()) {
        Some(k) => {
            let p = &prev[k];
            InterfaceDeltas {
                name: c.name.clone(),
                rx_bytes: counter_delta(p.rx_bytes, c.rx_bytes),
                tx_bytes: counter_delta(p.tx_bytes, c.tx_bytes),
                rx_errors: counter_delta(p.rx_errors, c.rx_errors),
                rx_packets: counter_delta(p.rx_packets, c.rx_packets),
                tx_packets: counter_delta(p.tx_packets, c.tx_packets),
                rx_dropped: counter_delta(p.rx_dropped, c.rx_dropped),
                tx_dropped: counter_delta(p.tx_dropped, c.tx_dropped),
            }
        },
        None => InterfaceDeltas {
            name: c.name.clone(),
            rx_bytes: c.rx_bytes,
            tx_bytes: c.tx_bytes,
            rx_errors: c.rx_errors,
            rx_packets: c.rx_packets,
            tx_packets: c.tx_packets,
            rx_dropped: c.rx_dropped,
            tx_dropped: c.tx_dropped,
        },
    }
}

/// The position of the primary interface, if any interface qualifies.
pub fn pick_primary(deltas: &Vec<InterfaceDeltas>) -> (r: Option<usize>)
    ensures
        match r {
            None => forall|i: int| 0 <= i < deltas@.len() ==> !candidate(#[trigger] deltas@[i]),
            Some(b) => is_primary(deltas@, b as int),
        },
{
    let mut best: Option<usize> = None;
    let mut i: usize = 0;
    while i < deltas.len()
        invariant
            i <= deltas@.len(),
            match best {
                None => forall|k: int| 0 <= k < i ==> !candidate(#[trigger] deltas@[k]),
                Some(b) => b < i && candidate(deltas@[b as int])
                    && (forall|k: int| 0 <= k < i && candidate(#[trigger] deltas@[k])
                        ==> traffic(deltas@[k]) <= traffic(deltas@[b as int]))
                    && (forall|k: int| 0 <= k < b && candidate(#[trigger] deltas@[k])
                        ==> traffic(deltas@[k]) < traffic(deltas@[b as int])),
            },
        decreases deltas@.len() - i,
    {
        let d = &deltas[i];
        let is_candidate = !str_eq(d.name.as_str(), "lo");
        let t = d.rx_bytes.saturating_add(d.tx_bytes);
        if is_candidate {
            match best {
                None => {
                    best = Some(i);
                },
                Some(b) => {
                    if t > deltas[b].rx_bytes.saturating_add(deltas[b].tx_bytes) {
                        best = Some(i);
                    }
                },
            }
        }
        i = i + 1;
    }
    best
}

/// Derives per-interface deltas between ticks and picks the primary interface.
pub struct NetworkTracker {
    previous: Vec<InterfaceCounters>,
    prev_ms: Option<u64>,
}

impl NetworkTracker {
    pub closed spec fn previous(&self) -> Seq<InterfaceCounters> {
        self.previous@
    }

    pub closed spec fn last_tick_ms(&self) -> Option<u64> {
        self.prev_ms
    }

    pub fn new() -> (r: Self)
        ensures
            r.previous().len() == 0,
            r.last_tick_ms() is None,
    {
        NetworkTracker { previous: Vec::new(), prev_ms: None }
    }

    /// Takes the counters of every interface at `now_ms`. Each delta is measured against
    /// the interface's previous counters (zero for a new interface; zero again where a
    /// counter went back). The primary interface carries rates over the time since the last
    /// tick, none on the first tick.
    pub fn observe(&mut self, current: Vec<InterfaceCounters>, now_ms: u64) -> (r: NetworkTick)
        ensures
            r.deltas@.len() == current@.len(),
            forall|i: int| 0 <= i < current@.len() ==> deltas_ok(#[trigger] r.deltas@[i], current@[i],
                previous_of(old(self).previous(), current@[i].name@)),
            final(self).previous() == current@,
            final(self).last_tick_ms() == Some(now_ms),
            match r.primary {
                None => forall|i: int| 0 <= i < r.deltas@.len() ==> !candidate(#[trigger] r.deltas@[i]),
                Some(p) => exists|i: int| is_primary(r.deltas@, i) && p.name@ == r.deltas@[i].name@
                    && {
                    let dt: u64 = match old(self).last_tick_ms() {
                        Some(t) => if now_ms >= t { (now_ms - t) as u64 } else { 0 },
                        None => 0,
                    };
                    &&& p.rx_milli_bytes_per_sec == rate_spec(r.deltas@[i].rx_bytes, dt)
                    &&& p.tx_milli_bytes_per_sec == rate_spec(r.deltas@[i].tx_bytes, dt)
                    &&& p.drops_milli_per_sec == rate_spec(
                        (if r.deltas@[i].rx_dropped + r.deltas@[i].tx_dropped > u64::MAX {
                            u64::MAX as int
                        } else {
                            r.deltas@[i].rx_dropped + r.deltas@[i].tx_dropped
                        }) as u64,
                        dt,
                    )
                },
            },
    {
        let dt: u64 = match self.prev_ms {
            Some(t) => if now_ms >= t { now_ms - t } else { 0 },
            None => 0,
        };
        let mut deltas: Vec<InterfaceDeltas> = Vec::new();
        let mut i: usize = 0;
        while i < current.len()
            invariant
                i <= current@.len(),
                deltas@.len() == i,
                self.previous@ == old(self).previous@,
                forall|k: int| 0 <= k < i ==> deltas_ok(#[trigger] deltas@[k], current@[k],
                    previous_of(old(self).previous(), current@[k].name@)),
            decreases current@.len() - i,
        {
            let d = delta_of(&self.previous, &current[i]);
            let ghost before = deltas@;
            deltas.push(d);
            proof {
                assert forall|k: int| 0 <= k < i + 1 implies deltas_ok(#[trigger] deltas@[k], current@[k],
                    previous_of(old(self).previous(), current@[k].name@)) by {
                    if k < i {
                        assert(deltas@[k] == before[k]);
                    }
                }
            }
            i = i + 1;
        }
        let best = pick_primary(&deltas);
        let primary = match best {
            None => None,
            Some(b) => {
                let d = &deltas[b];
                let drops = d.rx_dropped.saturating_add(d.tx_dropped);
                let p = PrimaryNic {
                    name: d.name.clone(),
                    rx_milli_bytes_per_sec: rate_milli_per_sec(d.rx_bytes, dt),
                    tx_milli_bytes_per_sec: rate_milli_per_sec(d.tx_bytes, dt),
                    drops_milli_per_sec: rate_milli_per_sec(drops, dt),
                };
                assert(is_primary(deltas@, b as int));
                Some(p)
            },
        };
        self.previous = current;
        self.prev_ms = Some(now_ms);
        NetworkTick { deltas, primary }
    }
}

} // verus!
