use vstd::prelude::*;

verus! {

/// Depth of the channel between the hardware event callback and the collector.
pub const EVENT_QUEUE_DEPTH: usize = 256;

#[derive(Clone, Copy, Debug, PartialEq, Eq, Structural)]
pub enum GpuEventKind {
    Xid,
    EccSingle,
    EccDouble,
    PState,
    Clock,
}

/// One asynchronous hardware event.
#[derive(Debug)]
pub struct GpuEvent {
    pub uuid: String,
    pub index: u32,
    pub kind: GpuEventKind,
    pub xid_code: Option<i64>,
    pub ts_ms: u64,
}

/// The queue after `e` arrives: appended, the oldest dropped when it was full.
pub open spec fn queue_push(q: Seq<GpuEvent>, e: GpuEvent, cap: nat) -> Seq<GpuEvent> {
    if q.len() >= cap && q.len() > 0 { q.drop_first().push(e) } else { q.push(e) }
}

/// A bounded queue of hardware events that drops the oldest on overflow.
pub struct EventQueue {
    items: Vec<GpuEvent>,
    capacity: usize,
}

impl EventQueue {
    pub closed spec fn view(&self) -> Seq<GpuEvent> {
        self.items@
    }

    pub closed spec fn cap(&self) -> nat {
        self.capacity as nat
    }

    pub closed spec fn wf(&self) -> bool {
        self.capacity > 0 && self.items@.len() <= self.capacity
    }

    pub fn new() -> (r: Self)
        ensures
            r.wf(),
            r.view().len() == 0,
            r.cap() == EVENT_QUEUE_DEPTH,
    {
        EventQueue { items: Vec::new(), capacity: EVENT_QUEUE_DEPTH }
    }

    pub fn len(&self) -> (r: usize)
        ensures
            r == self.view().len(),
    {
        self.items.len()
    }

    /// Adds an event; when the queue is full the oldest one is dropped.
    pub fn push(&mut self, e: GpuEvent)
        requires
            old(self).wf(),
        ensures
            final(self).wf(),
            final(self).cap() == old(self).cap(),
            final(self).view() == queue_push(old(self).view(), e, old(self).cap()),
    {
        if self.items.len() >= self.capacity && self.items.len() > 0 {
            self.items.remove(0);
        }
        self.items.push(e);
        assert(self.items@ =~= queue_push(old(self).view(), e, old(self).cap()));
    }

    /// Takes up to `max` of the oldest events, in arrival order.
    pub fn drain(&mut self, max: usize) -> (r: Vec<GpuEvent>)
        requires
            old(self).wf(),
        ensures
            final(self).wf(),
            final(self).cap() == old(self).cap(),
            ({
                let n = if max < old(self).view().len() { max as int } else { old(self).view().len() as int };
                &&& r@ == old(self).view().subrange(0, n)
                &&& final(self).view() == old(self).view().subrange(n, old(self).view().len() as int)
            }),
    {
        let n = if max < self.items.len() { max } else { self.items.len() };
        let mut rest = self.items.split_off(n);
        std::mem::swap(&mut self.items, &mut rest);
        rest
    }
}

/// Counts of drained events by kind.
#[derive(Clone, Copy, Debug, PartialEq, Eq, Structural)]
pub struct EventCounts {
    pub xid: u64,
    pub ecc_single: u64,
    pub ecc_double: u64,
    pub pstate: u64,
    pub clock: u64,
}

/// How many events of `kind` the sequence holds.
pub open spec fn count_kind(es: Seq<GpuEvent>, kind: GpuEventKind) -> nat
    decreases es.len(),
{
    if es.len() == 0 {
        0
    } else {
        count_kind(es.drop_last(), kind) + (if es.last().kind == kind { 1nat } else { 0nat })
    }
}

proof fn lemma_count_bound(es: Seq<GpuEvent>, kind: GpuEventKind)
    ensures
        count_kind(es, kind) <= es.len(),
    decreases es.len(),
{
    if es.len() > 0 {
        lemma_count_bound(es.drop_last(), kind);
    }
}

/// Counts events by kind, for the per-kind event counters.
pub fn tally(events: &Vec<GpuEvent>) -> (r: EventCounts)
    ensures
        r.xid == count_kind(events@, GpuEventKind::Xid),
        r.ecc_single == count_kind(events@, GpuEventKind::EccSingle),
        r.ecc_double == count_kind(events@, GpuEventKind::EccDouble),
        r.pstate == count_kind(events@, GpuEventKind::PState),
        r.clock == count_kind(events@, GpuEventKind::Clock),
{
    let mut c = EventCounts { xid: 0, ecc_single: 0, ecc_double: 0, pstate: 0, clock: 0 };
    let mut i: usize = 0;
    while i < events.len()
        invariant
            i <= events@.len(),
            c.xid == count_kind(events@.subrange(0, i as int), GpuEventKind::Xid),
            c.ecc_single == count_kind(events@.subrange(0, i as int), GpuEventKind::EccSingle),
            c.ecc_double == count_kind(events@.subrange(0, i as int), GpuEventKind::EccDouble),
            c.pstate == count_kind(events@.subrange(0, i as int), GpuEventKind::PState),
            c.clock == count_kind(events@.subrange(0, i as int), GpuEventKind::Clock),
        decreases events@.len() - i,
    {
        proof {
            let pre = events@.subrange(0, i + 1);
            assert(pre.drop_last() =~= events@.subrange(0, i as int));
            lemma_count_bound(events@.subrange(0, i as int), GpuEventKind::Xid);
            lemma_count_bound(events@.subrange(0, i as int), GpuEventKind::EccSingle);
            lemma_count_bound(events@.subrange(0, i as int), GpuEventKind::EccDouble);
            lemma_count_bound(events@.subrange(0, i as int), GpuEventKind::PState);
            lemma_count_bound(events@.subrange(0, i as int), GpuEventKind::Clock);
        }
        match events[i].kind {
            GpuEventKind::Xid => c.xid = c.xid + 1,
            GpuEventKind::EccSingle => c.ecc_single = c.ecc_single + 1,
            GpuEventKind::EccDouble => c.ecc_double = c.ecc_double + 1,
            GpuEventKind::PState => c.pstate = c.pstate + 1,
            GpuEventKind::Clock => c.clock = c.clock + 1,
        }
        i = i + 1;
    }
    assert(events@.subrange(0, i as int) =~= events@);
    c
}

} // verus!
