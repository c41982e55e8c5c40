use vstd::prelude::*;
use crate::config::EnforcementMode;
use crate::control::FlapDampener;
use crate::policy::{PlanResult, PlanStatus};

verus! {

/// Load average (thousandths) above which Kubernetes pod events are assumed.
pub const K8S_EVENT_LOAD_MILLI: u64 = 8000;

/// Least time between two writes of the local time-series store.
pub const TSDB_WRITE_PERIOD_MS: u64 = 30_000;

/// Error counts after one tick: each collector that failed gains one.
pub open spec fn tick_errors(errors: Seq<u64>, results: Seq<bool>) -> Seq<u64> {
    Seq::new(errors.len(), |i: int| if i < results.len() && !results[i] && errors[i] < u64::MAX {
        (errors[i] + 1) as u64
    } else {
        errors[i]
    })
}

/// Whether every collector succeeded.
pub open spec fn all_ok(results: Seq<bool>) -> bool {
    forall|i: int| 0 <= i < results.len() ==> #[trigger] results[i]
}

/// Error counts after a run of ticks.
pub open spec fn errors_after(errors: Seq<u64>, ticks: Seq<Seq<bool>>) -> Seq<u64>
    decreases ticks.len(),
{
    if ticks.len() == 0 {
        errors
    } else {
        tick_errors(errors_after(errors, ticks.drop_last()), ticks.last())
    }
}

/// Per-collector error accounting and the health flag of the scheduler.
pub struct TickLedger {
    errors: Vec<u64>,
    healthy: bool,
}

impl TickLedger {
    pub closed spec fn error_counts(&self) -> Seq<u64> {
        self.errors@
    }

    pub closed spec fn is_healthy(&self) -> bool {
        self.healthy
    }

    /// A ledger for `collectors` collectors, with no errors and healthy.
    pub fn new(collectors: usize) -> (r: Self)
        ensures
            r.error_counts() == Seq::new(collectors as nat, |i: int| 0u64),
            r.is_healthy(),
    {
        let mut errors: Vec<u64> = Vec::new();
        let mut i: usize = 0;
        while i < collectors
            invariant
                i <= collectors,
                errors@ == Seq::new(i as nat, |k: int| 0u64),
            decreases collectors - i,
        {
            errors.push(0);
            i = i + 1;
            assert(errors@ =~= Seq::new(i as nat, |k: int| 0u64));
        }
        TickLedger { errors, healthy: true }
    }

    pub fn healthy(&self) -> (r: bool)
        ensures
            r == self.is_healthy(),
    {
        self.healthy
    }

    pub fn error_count(&self, collector: usize) -> (r: u64)
        requires
            collector < self.error_counts().len(),
        ensures
            r == self.error_counts()[collector as int],
    {
        self.errors[collector]
    }

    /// Accounts for one tick, given whether each collector succeeded (in collector order):
    /// every failure counts one error for its collector, and the node is healthy exactly when
    /// all succeeded.
    pub fn run_tick(&mut self, results: &Vec<bool>) -> (healthy: bool)
        requires
            results@.len() == old(self).error_counts().len(),
        ensures
            final(self).error_counts() == tick_errors(old(self).error_counts(), results@),
            healthy == all_ok(results@),
            final(self).is_healthy() == healthy,
            forall|i: int| 0 <= i < old(self).error_counts().len() ==> #[trigger] final(self).error_counts()[i]
                >= old(self).error_counts()[i],
            all_ok(results@) ==> final(self).error_counts() == old(self).error_counts(),
    {
        let mut ok = true;
        let mut i: usize = 0;
        let ghost e0 = self.errors@;
        while i < results.len()
            invariant
                i <= results@.len(),
                results@.len() == e0.len(),
                self.errors@.len() == e0.len(),
                forall|k: int| 0 <= k < i ==> self.errors@[k] == tick_errors(e0, results@)[k],
                forall|k: int| i <= k < e0.len() ==> self.errors@[k] == e0[k],
                ok == (forall|k: int| 0 <= k < i ==> results@[k]),
                e0 == old(self).errors@,
            decreases results@.len() - i,
        {
            if !results[i] {
                let c = self.errors[i];
                self.errors.set(i, if c < u64::MAX { c + 1 } else { c });
                ok = false;
            }
            i = i + 1;
        }
        assert(self.errors@ =~= tick_errors(e0, results@));
        proof {
            if all_ok(results@) {
                assert forall|k: int| 0 <= k < e0.len() implies #[trigger] tick_errors(e0, results@)[k] == e0[k] by {
                    assert(results@[k]);
                }
                assert(tick_errors(e0, results@) =~= e0);
            }
        }
        self.healthy = ok;
        ok
    }
}

/// A tick never lowers an error count.
pub proof fn lemma_error_counts_monotone(errors: Seq<u64>, results: Seq<bool>)
    ensures
        forall|i: int| 0 <= i < errors.len() ==> #[trigger] tick_errors(errors, results)[i] >= errors[i],
        tick_errors(errors, results).len() == errors.len(),
{
}

/// After any number of ticks in which every collector succeeds, starting from no errors,
/// every error count is still zero; and the last such tick leaves the node healthy.
pub proof fn lemma_clean_ticks_keep_counts_zero(n: nat, ticks: Seq<Seq<bool>>)
    requires
        forall|t: int| 0 <= t < ticks.len() ==> all_ok(#[trigger] ticks[t]),
    ensures
        errors_after(Seq::new(n, |i: int| 0u64), ticks) == Seq::new(n, |i: int| 0u64),
        ticks.len() > 0 ==> all_ok(ticks.last()),
    decreases ticks.len(),
{
    if ticks.len() > 0 {
        let prev = ticks.drop_last();
        assert forall|t: int| 0 <= t < prev.len() implies all_ok(#[trigger] prev[t]) by {
            assert(prev[t] == ticks[t]);
        }
        lemma_clean_ticks_keep_counts_zero(n, prev);
        let last = ticks.last();
        assert(all_ok(ticks[ticks.len() - 1]));
        let zeros = Seq::new(n, |i: int| 0u64);
        let next = tick_errors(zeros, last);
        assert forall|i: int| 0 <= i < n implies #[trigger] next[i] == 0u64 by {
            if i < last.len() {
                assert(last[i]);
            }
        }
        assert(next =~= zeros);
    }
}

/// Whether Kubernetes pod events are assumed for a one-minute load average (thousandths).
pub fn k8s_events_from_load(load_milli: u64) -> (r: bool)
    ensures
        r == (load_milli > K8S_EVENT_LOAD_MILLI),
{
    load_milli > K8S_EVENT_LOAD_MILLI
}

/// Whether the time-series store is due for a write at `now_ms`, given the last write.
pub fn tsdb_write_due(now_ms: i64, last_write_ms: i64) -> (r: bool)
    ensures
        r == (now_ms as int - last_write_ms as int >= TSDB_WRITE_PERIOD_MS as int),
{
    (now_ms as i128 - last_write_ms as i128) >= TSDB_WRITE_PERIOD_MS as i128
}

/// What the policy loop does with one violation.
#[derive(Clone, Copy, Debug, PartialEq, Eq, Structural)]
pub enum EnforceDecision {
    /// Monitor mode: the violation is only reported.
    Report,
    /// The pair was enforced too recently; nothing is done.
    Dampened,
    /// The action is to be carried out.
    Apply,
}

/// Decides what to do with a violation of `policy` on `target` at `now_ms`.
pub fn decide_enforcement(
    mode: EnforcementMode,
    dampener: &FlapDampener,
    policy: &str,
    target: &str,
    now_ms: u64,
) -> (r: EnforceDecision)
    requires
        dampener.wf(),
    ensures
        mode == EnforcementMode::Monitor ==> r == EnforceDecision::Report,
        mode == EnforcementMode::Enforce ==> r == if dampener.allows(policy@, target@, now_ms) {
            EnforceDecision::Apply
        } else {
            EnforceDecision::Dampened
        },
{
    match mode {
        EnforcementMode::Monitor => EnforceDecision::Report,
        EnforcementMode::Enforce => if dampener.can_apply_at(policy, target, now_ms) {
            EnforceDecision::Apply
        } else {
            EnforceDecision::Dampened
        },
    }
}

/// Positions of the violated entries of a plan, in order.
pub fn violations(plan: &PlanResult) -> (r: Vec<usize>)
    ensures
        forall|k: int| 0 <= k < r@.len() ==> (#[trigger] r@[k]) < plan.matched_policies@.len()
            && plan.matched_policies@[r@[k] as int].status == PlanStatus::Violated,
        forall|j: int| 0 <= j < plan.matched_policies@.len() && plan.matched_policies@[j].status
            == PlanStatus::Violated ==> r@.contains(j as usize),
        forall|a: int, b: int| 0 <= a < b < r@.len() ==> r@[a] < r@[b],
{
    let mut out: Vec<usize> = Vec::new();
    let mut i: usize = 0;
    while i < plan.matched_policies.len()
        invariant
            i <= plan.matched_policies@.len(),
            forall|k: int| 0 <= k < out@.len() ==> (#[trigger] out@[k]) < i
                && plan.matched_policies@[out@[k] as int].status == PlanStatus::Violated,
            forall|j: int| 0 <= j < i && plan.matched_policies@[j].status == PlanStatus::Violated
                ==> out@.contains(j as usize),
            forall|a: int, b: int| 0 <= a < b < out@.len() ==> out@[a] < out@[b],
        decreases plan.matched_policies@.len() - i,
    {
        if plan.matched_policies[i].status == PlanStatus::Violated {
            let ghost before = out@;
            out.push(i);
            assert(out@[before.len() as int] == i);
            assert forall|j: int| 0 <= j < i + 1 && plan.matched_policies@[j].status == PlanStatus::Violated
                implies out@.contains(j as usize) by {
                if j < i {
                    let w = choose|w: int| 0 <= w < before.len() && before[w] == j as usize;
                    assert(out@[w] == before[w]);
                } else {
                    assert(out@[before.len() as int] == j as usize);
                }
            }
        }
        i = i + 1;
    }
    out
}

/// Where a (policy, target) pair stands after a tick.
#[derive(Clone, Copy, Debug, PartialEq, Eq, Structural)]
pub enum PairState {
    /// The condition does not hold.
    Clear,
    /// The condition holds and nothing was applied: monitor mode, or the action failed.
    Violated,
    /// The action was applied and the dampener armed.
    Enforced,
    /// The condition holds but the pair was enforced too recently.
    Dampened,
}

/// The state of a pair after a tick, from that tick's plan entry, the decision taken on it and,
/// where the action was carried out, whether it succeeded.
pub open spec fn pair_state_of(violated: bool, decision: EnforceDecision, action_ok: bool) -> PairState {
    if !violated {
        PairState::Clear
    } else {
        match decision {
            EnforceDecision::Report => PairState::Violated,
            EnforceDecision::Dampened => PairState::Dampened,
            EnforceDecision::Apply => if action_ok { PairState::Enforced } else { PairState::Violated },
        }
    }
}

pub fn next_pair_state(violated: bool, decision: EnforceDecision, action_ok: bool) -> (r: PairState)
    ensures
        r == pair_state_of(violated, decision, action_ok),
{
    if !violated {
        PairState::Clear
    } else {
        match decision {
            EnforceDecision::Report => PairState::Violated,
            EnforceDecision::Dampened => PairState::Dampened,
            EnforceDecision::Apply => if action_ok { PairState::Enforced } else { PairState::Violated },
        }
    }
}

} // verus!
