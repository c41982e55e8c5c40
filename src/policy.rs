use vstd::prelude::*;
use vstd::string::*;
use crate::condition::{check_condition, compare_holds, condition_of, parse_condition};
use crate::numtext::{fixed1_text, push_fixed1};
use crate::state::{GpuStatus, StatusSnapshot};

verus! {

/// The observable quantity that a policy watches.
#[derive(Clone, Copy, Debug, PartialEq, Eq, Structural)]
pub enum PolicyTarget {
    GpuTempCelsius,
    GpuUtilization,
    GpuPowerWatts,
    MemoryAllocatedPercent,
    TokensPerWatt,
    /// Any other target a profile names: legal, but never evaluated.
    Other,
}

/// What a policy does when it is violated.
#[derive(Clone, Copy, Debug, PartialEq, Eq, Structural)]
pub enum ActionType {
    ThrottlePower,
    LockClock,
    Alert,
    KillProcess,
    MigratePod,
}

#[derive(Clone, Copy, Debug, PartialEq, Eq, Structural)]
pub enum PolicySeverity {
    Info,
    Warning,
    Critical,
}

/// The value of an action parameter. Numbers are held in thousandths.
#[derive(Debug)]
pub enum ParamValue {
    Number(i64),
    Text(String),
    Flag(bool),
}

#[derive(Debug)]
pub struct ActionParam {
    pub key: String,
    pub value: ParamValue,
}

#[derive(Debug)]
pub struct PolicyAction {
    pub action_type: ActionType,
    pub parameters: Vec<ActionParam>,
}

#[derive(Debug)]
pub struct PolicyRule {
    pub name: String,
    pub description: Option<String>,
    pub target: PolicyTarget,
    pub condition: String,
    pub duration: Option<String>,
    pub action: PolicyAction,
    pub severity: PolicySeverity,
}

#[derive(Debug, Default)]
pub struct ProfileMetadata {
    pub name: String,
    pub description: Option<String>,
    pub version: String,
}

/// Tag and label constraints, as key/value pairs.
#[derive(Debug, Default)]
pub struct ProfileSelectors {
    pub match_tags: Vec<(String, String)>,
    pub match_labels: Vec<(String, String)>,
}

/// A declarative set of efficiency policies.
#[derive(Debug)]
pub struct EfficiencyProfile {
    pub api_version: String,
    pub kind: String,
    pub metadata: ProfileMetadata,
    pub selectors: ProfileSelectors,
    pub policies: Vec<PolicyRule>,
}

#[derive(Clone, Copy, Debug, PartialEq, Eq, Structural)]
pub enum PlanStatus {
    Satisfied,
    Violated,
    Skipped,
}

/// The evaluation of one policy on one resource.
#[derive(Debug)]
pub struct PolicyPlan {
    pub policy_name: String,
    pub target_resource: String,
    pub current_value: String,
    pub threshold: String,
    pub status: PlanStatus,
    pub computed_action: Option<String>,
}

#[derive(Debug)]
pub struct PlanResult {
    pub profile_name: String,
    pub matched_policies: Vec<PolicyPlan>,
}

/// The name of an action type as profiles write it.
pub open spec fn action_type_text(t: ActionType) -> Seq<char> {
    match t {
        ActionType::ThrottlePower => "throttle_power"@,
        ActionType::LockClock => "lock_clock"@,
        ActionType::Alert => "alert"@,
        ActionType::KillProcess => "kill_process"@,
        ActionType::MigratePod => "migrate_pod"@,
    }
}

pub open spec fn param_value_text(v: ParamValue) -> Seq<char> {
    match v {
        ParamValue::Number(n) => fixed1_text(n as int),
        ParamValue::Text(s) => s@,
        ParamValue::Flag(b) => if b { "true"@ } else { "false"@ },
    }
}

pub open spec fn param_text(p: ActionParam) -> Seq<char> {
    p.key@ + "="@ + param_value_text(p.value)
}

/// The parameters written as `key=value`, separated by `, `.
pub open spec fn params_text(ps: Seq<ActionParam>) -> Seq<char>
    decreases ps.len(),
{
    if ps.len() == 0 {
        Seq::empty()
    } else if ps.len() == 1 {
        param_text(ps[0])
    } else {
        params_text(ps.drop_last()) + ", "@ + param_text(ps.last())
    }
}

/// The description of the action that a violation calls for.
pub open spec fn action_text(a: PolicyAction) -> Seq<char> {
    if a.parameters@.len() == 0 {
        "Execute "@ + action_type_text(a.action_type)
    } else {
        "Execute "@ + action_type_text(a.action_type) + " with params "@ + params_text(a.parameters@)
    }
}

/// Whether the target is evaluated once per GPU.
pub open spec fn is_per_gpu(t: PolicyTarget) -> bool {
    t == PolicyTarget::GpuTempCelsius || t == PolicyTarget::GpuUtilization || t
        == PolicyTarget::GpuPowerWatts || t == PolicyTarget::MemoryAllocatedPercent
}

pub open spec fn clamp_i64(v: int) -> int {
    if v > i64::MAX { i64::MAX as int } else { v }
}

/// The current value of a per-GPU target, in thousandths of its unit; a missing reading
/// counts as zero.
pub open spec fn gpu_value(t: PolicyTarget, g: GpuStatus) -> int {
    match t {
        PolicyTarget::GpuTempCelsius => match g.temperature_milli_c {
            Some(v) => v as int,
            None => 0,
        },
        PolicyTarget::GpuUtilization => match g.util_milli_pct {
            Some(v) => clamp_i64(v as int),
            None => 0,
        },
        PolicyTarget::GpuPowerWatts => match g.power_mw {
            Some(v) => clamp_i64(v as int),
            None => 0,
        },
        PolicyTarget::MemoryAllocatedPercent => match (g.memory_used_bytes, g.memory_total_bytes) {
            (Some(u), Some(t)) => if t == 0 { 0 } else if u >= t { 100_000 } else {
                (u as int) * 100_000 / (t as int)
            },
            _ => 0,
        },
        _ => 0,
    }
}

/// The unit suffix written after a value of the target.
pub open spec fn unit_text(t: PolicyTarget) -> Seq<char> {
    match t {
        PolicyTarget::GpuTempCelsius => "C"@,
        PolicyTarget::GpuPowerWatts => "W"@,
        PolicyTarget::TokensPerWatt => ""@,
        PolicyTarget::Other => ""@,
        _ => "%"@,
    }
}

/// The resource name of a GPU: `GPU-` and its UUID, or its name where it has none.
pub open spec fn gpu_resource_text(g: GpuStatus) -> Seq<char> {
    "GPU-"@ + match g.uuid {
        Some(u) => u@,
        None => g.gpu@,
    }
}

/// What the plan entry of `rule` on `resource`, whose current value is `cur`, holds.
pub open spec fn entry_ok(p: PolicyPlan, rule: PolicyRule, resource: Seq<char>, cur: int) -> bool {
    &&& p.policy_name@ == rule.name@
    &&& p.target_resource@ == resource
    &&& p.current_value@ == fixed1_text(cur) + unit_text(rule.target)
    &&& match condition_of(rule.condition@) {
        None => false,
        Some(c) => {
            let violated = compare_holds(c.op, cur, c.threshold_milli as int);
            &&& p.threshold@ == fixed1_text(c.threshold_milli as int) + unit_text(rule.target)
            &&& p.status == (if violated { PlanStatus::Violated } else { PlanStatus::Satisfied })
            &&& if violated {
                p.computed_action matches Some(a) && a@ == action_text(rule.action)
            } else {
                p.computed_action is None
            }
        },
    }
}

/// What the plan entry of `rule` on `g` holds.
pub open spec fn gpu_entry_ok(p: PolicyPlan, rule: PolicyRule, g: GpuStatus) -> bool {
    entry_ok(p, rule, gpu_resource_text(g), gpu_value(rule.target, g))
}

/// What the single, node-wide entry of a tokens-per-watt rule holds: evaluated against the
/// current value (thousandths); a missing reading counts as zero.
pub open spec fn tokens_entry_ok(p: PolicyPlan, rule: PolicyRule, tpw: Option<u64>) -> bool {
    entry_ok(p, rule, "ALL"@, match tpw {
        Some(v) => clamp_i64(v as int),
        None => 0,
    })
}

/// What the single entry of a rule whose target is not supported holds.
pub open spec fn skipped_entry_ok(p: PolicyPlan, rule: PolicyRule) -> bool {
    &&& p.policy_name@ == rule.name@
    &&& p.target_resource@ == "ALL"@
    &&& p.current_value@ == "N/A"@
    &&& p.threshold@ == rule.condition@
    &&& p.status == PlanStatus::Skipped
    &&& p.computed_action is None
}

/// The entries that one rule contributes.
pub open spec fn rule_entries_ok(
    ps: Seq<PolicyPlan>,
    rule: PolicyRule,
    gpus: Seq<GpuStatus>,
    tpw: Option<u64>,
) -> bool {
    if is_per_gpu(rule.target) {
        ps.len() == gpus.len() && forall|i: int| 0 <= i < ps.len() ==> gpu_entry_ok(
            #[trigger] ps[i],
            rule,
            gpus[i],
        )
    } else if rule.target == PolicyTarget::TokensPerWatt {
        ps.len() == 1 && tokens_entry_ok(ps[0], rule, tpw)
    } else {
        ps.len() == 1 && skipped_entry_ok(ps[0], rule)
    }
}

pub open spec fn rule_entry_count(rule: PolicyRule, gpus: Seq<GpuStatus>) -> int {
    if is_per_gpu(rule.target) { gpus.len() as int } else { 1 }
}

/// The entries of every rule, in the order of the rules.
pub open spec fn plan_entries_ok(
    ps: Seq<PolicyPlan>,
    rules: Seq<PolicyRule>,
    gpus: Seq<GpuStatus>,
    tpw: Option<u64>,
) -> bool
    decreases rules.len(),
{
    if rules.len() == 0 {
        ps.len() == 0
    } else {
        let k = rule_entry_count(rules.last(), gpus);
        &&& ps.len() >= k
        &&& plan_entries_ok(ps.subrange(0, ps.len() - k), rules.drop_last(), gpus, tpw)
        &&& rule_entries_ok(ps.subrange(ps.len() - k, ps.len() as int), rules.last(), gpus, tpw)
    }
}

fn action_type_str(t: ActionType) -> (r: &'static str)
    ensures
        r@ == action_type_text(t),
{
    match t {
        ActionType::ThrottlePower => "throttle_power",
        ActionType::LockClock => "lock_clock",
        ActionType::Alert => "alert",
        ActionType::KillProcess => "kill_process",
        ActionType::MigratePod => "migrate_pod",
    }
}

fn push_param(s: &mut String, p: &ActionParam)
    ensures
        final(s)@ == old(s)@ + param_text(*p),
{
    let ghost s0 = s@;
    s.append(p.key.as_str());
    s.append("=");
    match &p.value {
        ParamValue::Number(n) => push_fixed1(s, *n),
        ParamValue::Text(t) => s.append(t.as_str()),
        ParamValue::Flag(b) => if *b {
            s.append("true");
        } else {
            s.append("false");
        },
    }
    assert(s@ =~= s0 + param_text(*p));
}

/// Describes the action that a violation calls for: `Execute <type>`, followed by
/// ` with params ` and the parameters written as `key=value` where there are any.
pub fn action_description(a: &PolicyAction) -> (r: String)
    ensures
        r@ == action_text(*a),
{
    let mut s = String::from_str("Execute ");
    s.append(action_type_str(a.action_type));
    if a.parameters.len() > 0 {
        s.append(" with params ");
        let ghost base = s@;
        let mut i: usize = 0;
        while i < a.parameters.len()
            invariant
                i <= a.parameters@.len(),
                a.parameters@.len() > 0,
                s@ == base + params_text(a.parameters@.subrange(0, i as int)),
            decreases a.parameters@.len() - i,
        {
            let ghost before = s@;
            if i > 0 {
                s.append(", ");
            }
            push_param(&mut s, &a.parameters[i]);
            proof {
                let pre = a.parameters@.subrange(0, i + 1);
                assert(pre.drop_last() =~= a.parameters@.subrange(0, i as int));
                if i == 0 {
                    assert(params_text(a.parameters@.subrange(0, 0)) =~= Seq::<char>::empty());
                }
            }
            i = i + 1;
            assert(s@ =~= base + params_text(a.parameters@.subrange(0, i as int)));
        }
        assert(a.parameters@.subrange(0, i as int) =~= a.parameters@);
    }
    s
}

fn clamp_to_i64(v: u64) -> (r: i64)
    ensures
        r == clamp_i64(v as int),
{
    if v > i64::MAX as u64 { i64::MAX } else { v as i64 }
}

/// The current value of a per-GPU target, in thousandths of its unit.
pub fn gpu_value_of(t: PolicyTarget, g: &GpuStatus) -> (r: i64)
    ensures
        r == gpu_value(t, *g),
{
    match t {
        PolicyTarget::GpuTempCelsius => match g.temperature_milli_c {
            Some(v) => v,
            None => 0,
        },
        PolicyTarget::GpuUtilization => match g.util_milli_pct {
            Some(v) => clamp_to_i64(v),
            None => 0,
        },
        PolicyTarget::GpuPowerWatts => match g.power_mw {
            Some(v) => clamp_to_i64(v),
            None => 0,
        },
        PolicyTarget::MemoryAllocatedPercent => match (g.memory_used_bytes, g.memory_total_bytes) {
            (Some(u), Some(t)) => if t == 0 { 0 } else if u >= t { 100_000 } else {
                let q: u128 = (u as u128) * 100_000 / (t as u128);
                assert((u as int) * 100_000 / (t as int) <= 100_000) by (nonlinear_arith)
                    requires u < t, t > 0;
                q as i64
            },
            _ => 0,
        },
        _ => 0,
    }
}

fn unit_str(t: PolicyTarget) -> (r: &'static str)
    ensures
        r@ == unit_text(t),
{
    match t {
        PolicyTarget::GpuTempCelsius => "C",
        PolicyTarget::GpuPowerWatts => "W",
        PolicyTarget::TokensPerWatt => "",
        PolicyTarget::Other => "",
        _ => "%",
    }
}

/// The resource name of a GPU: `GPU-` and its UUID, or its name where it has none.
pub fn gpu_resource_name(g: &GpuStatus) -> (r: String)
    ensures
        r@ == gpu_resource_text(*g),
{
    let mut s = String::from_str("GPU-");
    match &g.uuid {
        Some(u) => s.append(u.as_str()),
        None => s.append(g.gpu.as_str()),
    }
    s
}

fn value_with_unit(v: i64, t: PolicyTarget) -> (r: String)
    ensures
        r@ == fixed1_text(v as int) + unit_text(t),
{
    let mut s = String::new();
    push_fixed1(&mut s, v);
    s.append(unit_str(t));
    assert(s@ =~= fixed1_text(v as int) + unit_text(t));
    s
}

/// Evaluates `rule` on one GPU.
pub fn plan_gpu_entry(rule: &PolicyRule, g: &GpuStatus) -> (r: PolicyPlan)
    requires
        condition_of(rule.condition@) is Some,
    ensures
        gpu_entry_ok(r, *rule, *g),
{
    let cur = gpu_value_of(rule.target, g);
    plan_entry(rule, gpu_resource_name(g), cur)
}

/// Evaluates `rule` on `resource`, whose current value (thousandths) is `cur`.
pub fn plan_entry(rule: &PolicyRule, resource: String, cur: i64) -> (r: PolicyPlan)
    requires
        condition_of(rule.condition@) is Some,
    ensures
        entry_ok(r, *rule, resource@, cur as int),
{
    let current_value = value_with_unit(cur, rule.target);
    match check_condition(cur, rule.condition.as_str()) {
        None => PolicyPlan {
            policy_name: rule.name.clone(),
            target_resource: resource,
            current_value,
            threshold: rule.condition.clone(),
            status: PlanStatus::Skipped,
            computed_action: None,
        },
        Some((violated, limit)) => PolicyPlan {
            policy_name: rule.name.clone(),
            target_resource: resource,
            current_value,
            threshold: value_with_unit(limit, rule.target),
            status: if violated { PlanStatus::Violated } else { PlanStatus::Satisfied },
            computed_action: if violated { Some(action_description(&rule.action)) } else { None },
        },
    }
}

/// The entry of a rule whose target the snapshot does not show.
pub fn plan_skipped_entry(rule: &PolicyRule) -> (r: PolicyPlan)
    ensures
        skipped_entry_ok(r, *rule),
{
    PolicyPlan {
        policy_name: rule.name.clone(),
        target_resource: String::from_str("ALL"),
        current_value: String::from_str("N/A"),
        threshold: rule.condition.clone(),
        status: PlanStatus::Skipped,
        computed_action: None,
    }
}

proof fn lemma_plan_step(
    before: Seq<PolicyPlan>,
    added: Seq<PolicyPlan>,
    rules: Seq<PolicyRule>,
    i: int,
    gpus: Seq<GpuStatus>,
    tpw: Option<u64>,
)
    requires
        0 <= i < rules.len(),
        plan_entries_ok(before, rules.subrange(0, i), gpus, tpw),
        rule_entries_ok(added, rules[i], gpus, tpw),
    ensures
        plan_entries_ok(before + added, rules.subrange(0, i + 1), gpus, tpw),
{
    let all = before + added;
    let rs = rules.subrange(0, i + 1);
    assert(rs.drop_last() =~= rules.subrange(0, i));
    assert(rs.last() == rules[i]);
    assert(added.len() == rule_entry_count(rules[i], gpus));
    assert(all.subrange(0, all.len() - added.len()) =~= before);
    assert(all.subrange(all.len() - added.len(), all.len() as int) =~= added);
}

impl EfficiencyProfile {
    /// Evaluates every policy against `status` without side effects, in the order of the
    /// policies: one entry per GPU for the per-GPU targets, one node-wide entry for tokens per
    /// watt, one skipped entry for targets that are not evaluated.
    pub fn plan(&self, status: &StatusSnapshot) -> (r: PlanResult)
        requires
            conditions_valid(self.policies@),
        ensures
            r.profile_name@ == self.metadata.name@,
            plan_entries_ok(r.matched_policies@, self.policies@, status.gpus@,
                status.app_tokens_per_watt_milli),
    {
        let mut plans: Vec<PolicyPlan> = Vec::new();
        let mut i: usize = 0;
        while i < self.policies.len()
            invariant
                i <= self.policies@.len(),
                conditions_valid(self.policies@),
                plan_entries_ok(plans@, self.policies@.subrange(0, i as int), status.gpus@,
                    status.app_tokens_per_watt_milli),
            decreases self.policies@.len() - i,
        {
            let rule = &self.policies[i];
            assert(condition_of(self.policies@[i as int].condition@) is Some);
            let ghost before = plans@;
            let mut added: Vec<PolicyPlan> = Vec::new();
            let per_gpu = match rule.target {
                PolicyTarget::GpuTempCelsius | PolicyTarget::GpuUtilization
                | PolicyTarget::GpuPowerWatts | PolicyTarget::MemoryAllocatedPercent => true,
                _ => false,
            };
            if per_gpu {
                let mut j: usize = 0;
                while j < status.gpus.len()
                    invariant
                        j <= status.gpus@.len(),
                        added@.len() == j,
                        *rule == self.policies@[i as int],
                        condition_of(rule.condition@) is Some,
                        is_per_gpu(rule.target),
                        forall|k: int| 0 <= k < j ==> gpu_entry_ok(#[trigger] added@[k], *rule,
                            status.gpus@[k]),
                    decreases status.gpus@.len() - j,
                {
                    added.push(plan_gpu_entry(rule, &status.gpus[j]));
                    j = j + 1;
                }
            } else if rule.target == PolicyTarget::TokensPerWatt {
                let cur: i64 = match status.app_tokens_per_watt_milli {
                    Some(v) => if v > i64::MAX as u64 { i64::MAX } else { v as i64 },
                    None => 0,
                };
                added.push(plan_entry(rule, String::from_str("ALL"), cur));
            } else {
                added.push(plan_skipped_entry(rule));
            }
            proof {
                lemma_plan_step(before, added@, self.policies@, i as int, status.gpus@,
                    status.app_tokens_per_watt_milli);
            }
            plans.append(&mut added);
            i = i + 1;
        }
        assert(self.policies@.subrange(0, i as int) =~= self.policies@);
        PlanResult { profile_name: self.metadata.name.clone(), matched_policies: plans }
    }
}

/// Whether every policy's condition is well formed.
pub open spec fn conditions_valid(rules: Seq<PolicyRule>) -> bool {
    forall|i: int| 0 <= i < rules.len() ==> (#[trigger] condition_of(rules[i].condition@)) is Some
}

impl EfficiencyProfile {
    /// Checks the profile before use: a malformed condition is a configuration error. Returns
    /// the position of the first policy whose condition is not one.
    pub fn validate(&self) -> (r: Result<(), usize>)
        ensures
            r is Ok <==> conditions_valid(self.policies@),
            r matches Err(i) ==> i < self.policies@.len() && condition_of(self.policies@[i as int].condition@)
                is None && forall|j: int| 0 <= j < i ==> (#[trigger] condition_of(
                self.policies@[j].condition@)) is Some,
    {
        let mut i: usize = 0;
        while i < self.policies.len()
            invariant
                i <= self.policies@.len(),
                forall|j: int| 0 <= j < i ==> (#[trigger] condition_of(self.policies@[j].condition@)) is Some,
            decreases self.policies@.len() - i,
        {
            if parse_condition(self.policies[i].condition.as_str()).is_none() {
                return Err(i);
            }
            i = i + 1;
        }
        Ok(())
    }
}

/// Two plan entries that read the same.
pub open spec fn same_entry(a: PolicyPlan, b: PolicyPlan) -> bool {
    &&& a.policy_name@ == b.policy_name@
    &&& a.target_resource@ == b.target_resource@
    &&& a.current_value@ == b.current_value@
    &&& a.threshold@ == b.threshold@
    &&& a.status == b.status
    &&& match (a.computed_action, b.computed_action) {
        (Some(x), Some(y)) => x@ == y@,
        (None, None) => true,
        _ => false,
    }
}

pub open spec fn same_entries(a: Seq<PolicyPlan>, b: Seq<PolicyPlan>) -> bool {
    a.len() == b.len() && forall|i: int| 0 <= i < a.len() ==> same_entry(#[trigger] a[i], b[i])
}

proof fn lemma_rule_entries_same(
    a: Seq<PolicyPlan>,
    b: Seq<PolicyPlan>,
    rule: PolicyRule,
    gpus: Seq<GpuStatus>,
    tpw: Option<u64>,
)
    requires
        rule_entries_ok(a, rule, gpus, tpw),
        rule_entries_ok(b, rule, gpus, tpw),
    ensures
        same_entries(a, b),
{
    assert forall|i: int| 0 <= i < a.len() implies same_entry(#[trigger] a[i], b[i]) by {
        if is_per_gpu(rule.target) {
            assert(gpu_entry_ok(a[i], rule, gpus[i]));
            assert(gpu_entry_ok(b[i], rule, gpus[i]));
        }
    }
}

/// Planning is a function of the policies and the readings: any two results for the same
/// policies and the same readings hold the same entries in the same order.
pub proof fn lemma_plan_deterministic(
    a: Seq<PolicyPlan>,
    b: Seq<PolicyPlan>,
    rules: Seq<PolicyRule>,
    gpus: Seq<GpuStatus>,
    tpw: Option<u64>,
)
    requires
        plan_entries_ok(a, rules, gpus, tpw),
        plan_entries_ok(b, rules, gpus, tpw),
    ensures
        same_entries(a, b),
    decreases rules.len(),
{
    if rules.len() > 0 {
        let k = rule_entry_count(rules.last(), gpus);
        let a1 = a.subrange(0, a.len() - k);
        let b1 = b.subrange(0, b.len() - k);
        let a2 = a.subrange(a.len() - k, a.len() as int);
        let b2 = b.subrange(b.len() - k, b.len() as int);
        lemma_plan_deterministic(a1, b1, rules.drop_last(), gpus, tpw);
        lemma_rule_entries_same(a2, b2, rules.last(), gpus, tpw);
        assert forall|i: int| 0 <= i < a.len() implies same_entry(#[trigger] a[i], b[i]) by {
            if i < a.len() - k {
                assert(a[i] == a1[i] && b[i] == b1[i]);
            } else {
                assert(a[i] == a2[i - (a.len() - k)] && b[i] == b2[i - (a.len() - k)]);
            }
        }
    }
}

} // verus!
