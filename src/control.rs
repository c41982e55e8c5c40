use vstd::prelude::*;
use vstd::string::*;
use crate::condition::{digits_end, digits_value, is_digit};
use crate::numtext::{fixed1_text, push_fixed1, str_eq};
use crate::policy::{ActionParam, ActionType, ParamValue, PolicyAction};

verus! {

/// Declares `std::time::Instant`, the monotonic clock reading that a dampener keeps as the
/// origin of its own milliseconds; nothing about its contents is assumed.
#[verifier::external_type_specification]
#[verifier::external_body]
pub struct ExInstant(std::time::Instant);

/// Relies on `std::time::Instant::now`: a point of the monotonic clock.
#[verifier::external_body]
fn clock_origin() -> std::time::Instant {
    std::time::Instant::now()
}

/// Relies on `std::time::Instant::elapsed`: the milliseconds that passed since `origin`.
#[verifier::external_body]
fn millis_since(origin: &std::time::Instant) -> u64 {
    origin.elapsed().as_millis() as u64
}

/// The time of the last enforcement of one (policy, target) pair.
#[derive(Debug)]
pub struct DampenerEntry {
    pub policy: String,
    pub target: String,
    pub at_ms: u64,
}

/// Whether entry `k` of `es` belongs to the pair `(p, t)`.
pub open spec fn entry_is(es: Seq<DampenerEntry>, k: int, p: Seq<char>, t: Seq<char>) -> bool {
    0 <= k < es.len() && es[k].policy@ == p && es[k].target@ == t
}

/// No pair has two entries.
pub open spec fn entries_unique(es: Seq<DampenerEntry>) -> bool {
    forall|i: int, j: int|
        #![trigger es[i], es[j]]
        0 <= i < es.len() && 0 <= j < es.len() && es[i].policy@ == es[j].policy@ && es[i].target@
            == es[j].target@ ==> i == j
}

/// Guards against enforcing one policy on one target more often than once per interval.
pub struct FlapDampener {
    last_actions: Vec<DampenerEntry>,
    dampening_interval_ms: u64,
    origin: std::time::Instant,
}

impl FlapDampener {
    pub closed spec fn wf(&self) -> bool {
        entries_unique(self.last_actions@)
    }

    pub closed spec fn interval_ms(&self) -> u64 {
        self.dampening_interval_ms
    }

    /// When the pair was last enforced, in milliseconds of the dampener's clock.
    pub closed spec fn last_action(&self, p: Seq<char>, t: Seq<char>) -> Option<u64> {
        let es = self.last_actions@;
        if exists|k: int| entry_is(es, k, p, t) {
            Some(es[choose|k: int| entry_is(es, k, p, t)].at_ms)
        } else {
            None
        }
    }

    /// Whether the pair may be enforced at `now_ms`: it never was, or at least the interval
    /// has passed since it last was.
    pub open spec fn allows(&self, p: Seq<char>, t: Seq<char>, now_ms: u64) -> bool {
        match self.last_action(p, t) {
            None => true,
            Some(at) => now_ms >= at && now_ms - at >= self.interval_ms(),
        }
    }

    pub fn new(dampening_interval_ms: u64) -> (r: Self)
        ensures
            r.wf(),
            r.interval_ms() == dampening_interval_ms,
            forall|p: Seq<char>, t: Seq<char>| r.last_action(p, t) is None,
    {
        FlapDampener {
            last_actions: Vec::new(),
            dampening_interval_ms,
            origin: clock_origin(),
        }
    }

    fn find(&self, policy: &str, target: &str) -> (r: Option<usize>)
        requires
            self.wf(),
        ensures
            match r {
                Some(k) => entry_is(self.last_actions@, k as int, policy@, target@),
                None => forall|k: int| !entry_is(self.last_actions@, k, policy@, target@),
            },
    {
        let mut i: usize = 0;
        while i < self.last_actions.len()
            invariant
                i <= self.last_actions@.len(),
                forall|k: int| 0 <= k < i ==> !entry_is(self.last_actions@, k, policy@, target@),
            decreases self.last_actions@.len() - i,
        {
            let e = &self.last_actions[i];
            if str_eq(e.policy.as_str(), policy) && str_eq(e.target.as_str(), target) {
                return Some(i);
            }
            i = i + 1;
        }
        None
    }

    /// Whether the pair may be enforced at `now_ms` (milliseconds of the dampener's clock).
    pub fn can_apply_at(&self, policy: &str, target: &str, now_ms: u64) -> (r: bool)
        requires
            self.wf(),
        ensures
            r == self.allows(policy@, target@, now_ms),
    {
        match self.find(policy, target) {
            None => true,
            Some(k) => {
                let at = self.last_actions[k].at_ms;
                now_ms >= at && now_ms - at >= self.dampening_interval_ms
            },
        }
    }

    /// Arms the dampener for the pair at `now_ms`.
    pub fn record_action_at(&mut self, policy: &str, target: &str, now_ms: u64)
        requires
            old(self).wf(),
        ensures
            final(self).wf(),
            final(self).interval_ms() == old(self).interval_ms(),
            final(self).last_action(policy@, target@) == Some(now_ms),
            forall|p: Seq<char>, t: Seq<char>| !(p == policy@ && t == target@) ==>
                final(self).last_action(p, t) == old(self).last_action(p, t),
    {
        match self.find(policy, target) {
            Some(k) => {
                let ghost es0 = self.last_actions@;
                let e = DampenerEntry {
                    policy: String::from_str(policy),
                    target: String::from_str(target),
                    at_ms: now_ms,
                };
                self.last_actions.set(k, e);
                proof {
                    let es = self.last_actions@;
                    assert(entry_is(es, k as int, policy@, target@));
                    assert forall|i: int, j: int|
                        #![trigger es[i], es[j]]
                        0 <= i < es.len() && 0 <= j < es.len() && es[i].policy@ == es[j].policy@
                            && es[i].target@ == es[j].target@ implies i == j by {
                        if i != k && j != k {
                            assert(es[i] == es0[i] && es[j] == es0[j]);
                        } else if i != k {
                            assert(es[i] == es0[i]);
                            assert(es0[k as int].policy@ == policy@);
                        } else if j != k {
                            assert(es[j] == es0[j]);
                        }
                    }
                    assert forall|p: Seq<char>, t: Seq<char>| !(p == policy@ && t == target@)
                        implies self.last_action(p, t) == old(self).last_action(p, t) by {
                        assert forall|j: int| entry_is(es, j, p, t) <==> entry_is(es0, j, p, t) by {
                            if j == k {
                                assert(!entry_is(es, j, p, t));
                                assert(!entry_is(es0, j, p, t));
                            }
                        }
                    }
                }
            },
            None => {
                let ghost es0 = self.last_actions@;
                let e = DampenerEntry {
                    policy: String::from_str(policy),
                    target: String::from_str(target),
                    at_ms: now_ms,
                };
                self.last_actions.push(e);
                proof {
                    let es = self.last_actions@;
                    let n = es0.len() as int;
                    assert(entry_is(es, n, policy@, target@));
                    assert forall|p: Seq<char>, t: Seq<char>| !(p == policy@ && t == target@)
                        implies self.last_action(p, t) == old(self).last_action(p, t) by {
                        assert forall|j: int| entry_is(es, j, p, t) <==> entry_is(es0, j, p, t) by {
                            if 0 <= j < n {
                                assert(es[j] == es0[j]);
                            }
                        }
                    }
                    assert forall|i: int, j: int|
                        #![trigger es[i], es[j]]
                        0 <= i < es.len() && 0 <= j < es.len() && es[i].policy@ == es[j].policy@
                            && es[i].target@ == es[j].target@ implies i == j by {
                        if i < n && j < n {
                            assert(es[i] == es0[i] && es[j] == es0[j]);
                        } else if i < n {
                            assert(es[i] == es0[i]);
                            assert(entry_is(es0, i, policy@, target@));
                        } else if j < n {
                            assert(es[j] == es0[j]);
                            assert(entry_is(es0, j, policy@, target@));
                        }
                    }
                }
            },
        }
    }

    /// The current time of the dampener's clock, in milliseconds since it was created.
    pub fn clock_ms(&self) -> u64 {
        millis_since(&self.origin)
    }

    /// Whether the pair may be enforced now.
    pub fn can_apply(&self, policy: &str, target: &str) -> (r: bool)
        requires
            self.wf(),
        ensures
            self.last_action(policy@, target@) is None ==> r,
            exists|now: u64| r == self.allows(policy@, target@, now),
    {
        let now = millis_since(&self.origin);
        let r = self.can_apply_at(policy, target, now);
        assert(r == self.allows(policy@, target@, now));
        r
    }

    /// Arms the dampener for the pair now.
    pub fn record_action(&mut self, policy: &str, target: &str)
        requires
            old(self).wf(),
        ensures
            final(self).wf(),
            final(self).interval_ms() == old(self).interval_ms(),
            final(self).last_action(policy@, target@) is Some,
            forall|p: Seq<char>, t: Seq<char>| !(p == policy@ && t == target@) ==>
                final(self).last_action(p, t) == old(self).last_action(p, t),
    {
        let now = millis_since(&self.origin);
        self.record_action_at(policy, target, now);
    }
}

/// Once a pair has been enforced at `at`, it is not enforced again before the interval has
/// passed: a second enforcement within the interval does nothing.
pub proof fn lemma_dampened_within_interval(
    d: FlapDampener,
    p: Seq<char>,
    t: Seq<char>,
    at: u64,
    now_ms: u64,
)
    requires
        d.last_action(p, t) == Some(at),
        now_ms < at + d.interval_ms(),
    ensures
        !d.allows(p, t, now_ms),
{
}

/// Once the interval has passed since the last enforcement, the pair may be enforced again.
pub proof fn lemma_allowed_after_interval(
    d: FlapDampener,
    p: Seq<char>,
    t: Seq<char>,
    at: u64,
    now_ms: u64,
)
    requires
        d.last_action(p, t) == Some(at),
        now_ms >= at + d.interval_ms(),
    ensures
        d.allows(p, t, now_ms),
{
}

/// How an action names the GPU it acts on.
#[derive(Debug, PartialEq, Eq)]
pub enum GpuSelector {
    Index(u32),
    Uuid(String),
}

/// Why an action could not be carried out.
#[derive(Debug, PartialEq, Eq)]
pub enum EnforceError {
    /// The action has neither `limit_watts` nor `limit`.
    MissingLimit,
    /// The limit parameter is not a number.
    LimitNotNumber,
    /// The requested limit lies outside what the device accepts (milliwatts).
    OutOfRange { requested_mw: u32, min_mw: u32, max_mw: u32 },
    /// The device could not be reached.
    Device(String),
}

/// What remains to be done for an action once the library has decided it.
#[derive(Debug)]
pub enum ActionStep {
    /// Read the device's power-limit range, check the limit against it, then set it.
    SetPowerLimit { gpu: GpuSelector, limit_mw: u32 },
    /// Nothing touches hardware; the action is complete with this message.
    Done(String),
}

/// The value of a string of decimal digits that fits in `u32`.
pub open spec fn index_of(s: Seq<char>) -> Option<u32> {
    if s.len() > 0 && digits_end(s, 0) == s.len() && digits_value(s, 0, s.len() as int)
        <= u32::MAX {
        Some(digits_value(s, 0, s.len() as int) as u32)
    } else {
        None
    }
}

/// The GPU that a target names: after an optional `GPU-` prefix, an index if the rest is
/// one, a UUID otherwise.
pub open spec fn selector_of(target: Seq<char>) -> (Seq<char>, Option<u32>) {
    let rest = if target.len() >= 4 && target.subrange(0, 4) == "GPU-"@ {
        target.subrange(4, target.len() as int)
    } else {
        target
    };
    (rest, index_of(rest))
}

proof fn lemma_digits_end_from(s: Seq<char>, j: int, i: int)
    requires
        0 <= j <= i <= s.len(),
        forall|k: int| j <= k < i ==> is_digit(#[trigger] s[k]),
    ensures
        i < s.len() && !is_digit(s[i]) ==> digits_end(s, j) == i,
        i == s.len() ==> digits_end(s, j) == s.len(),
    decreases i - j,
{
    if j < i {
        lemma_digits_end_from(s, j + 1, i);
    }
}

proof fn lemma_digits_value_grows(s: Seq<char>, b: int)
    requires
        0 <= b,
        forall|k: int| 0 <= k < b ==> is_digit(#[trigger] s[k]),
    ensures
        digits_value(s, 0, b) >= 0,
    decreases b,
{
    if b > 0 {
        lemma_digits_value_grows(s, b - 1);
    }
}

proof fn lemma_digits_value_mono2(s: Seq<char>, b: int, c: int)
    requires
        0 <= b <= c,
        forall|k: int| 0 <= k < c ==> is_digit(#[trigger] s[k]),
    ensures
        digits_value(s, 0, b) <= digits_value(s, 0, c),
    decreases c - b,
{
    if b < c {
        lemma_digits_value_mono2(s, b, c - 1);
        lemma_digits_value_grows(s, c - 1);
    }
}

/// Parses a GPU index: decimal digits only, within `u32`.
pub fn parse_index(s: &str) -> (r: Option<u32>)
    ensures
        r == index_of(s@),
{
    let n = s.unicode_len();
    if n == 0 {
        return None;
    }
    let mut acc: u64 = 0;
    let mut i: usize = 0;
    while i < n
        invariant
            n == s@.len(),
            i <= n,
            forall|k: int| 0 <= k < i ==> is_digit(#[trigger] s@[k]),
            acc == digits_value(s@, 0, i as int),
            acc <= u32::MAX,
        decreases n - i,
    {
        let c = s.get_char(i);
        if !('0' <= c && c <= '9') {
            proof { lemma_digits_end_from(s@, 0, i as int); }
            return None;
        }
        let next: u64 = acc * 10 + (c as u32 - '0' as u32) as u64;
        if next > u32::MAX as u64 {
            proof {
                assert(digits_value(s@, 0, i + 1) == next);
                if digits_end(s@, 0) == n {
                    lemma_digits_end_bounds_all(s@);
                    lemma_digits_value_mono2(s@, i + 1, n as int);
                }
            }
            return None;
        }
        acc = next;
        i = i + 1;
    }
    proof { lemma_digits_end_from(s@, 0, n as int); }
    Some(acc as u32)
}

proof fn lemma_digits_end_bounds_all(s: Seq<char>)
    requires
        digits_end(s, 0) == s.len(),
    ensures
        forall|k: int| 0 <= k < s.len() ==> is_digit(#[trigger] s[k]),
{
    assert forall|k: int| 0 <= k < s.len() implies is_digit(#[trigger] s[k]) by {
        lemma_digits_end_walk(s, 0, k);
    }
}

proof fn lemma_digits_end_walk(s: Seq<char>, j: int, k: int)
    requires
        0 <= j <= k < s.len(),
        digits_end(s, j) == s.len(),
    ensures
        is_digit(s[k]),
    decreases k - j,
{
    if !is_digit(s[j]) {
        assert(digits_end(s, j) == j);
    } else if j < k {
        lemma_digits_end_walk(s, j + 1, k);
    }
}

/// Resolves the GPU that an action target names.
pub fn resolve_gpu_target(target: &str) -> (r: GpuSelector)
    ensures
        match r {
            GpuSelector::Index(i) => selector_of(target@).1 == Some(i),
            GpuSelector::Uuid(u) => selector_of(target@).1 is None && u@ == selector_of(target@).0,
        },
{
    let n = target.unicode_len();
    let rest: &str = if n >= 4 && str_eq(target.substring_char(0, 4), "GPU-") {
        target.substring_char(4, n)
    } else {
        target
    };
    assert(rest@ == selector_of(target@).0);
    match parse_index(rest) {
        Some(i) => GpuSelector::Index(i),
        None => GpuSelector::Uuid(String::from_str(rest)),
    }
}

/// The value of the first parameter named `key`.
pub open spec fn param_named(ps: Seq<ActionParam>, key: Seq<char>) -> Option<ParamValue>
    decreases ps.len(),
{
    if ps.len() == 0 {
        None
    } else if ps[0].key@ == key {
        Some(ps[0].value)
    } else {
        param_named(ps.drop_first(), key)
    }
}

/// A limit in milliwatts, saturated into `u32`.
pub open spec fn saturate_u32(v: int) -> u32 {
    if v < 0 { 0 } else if v > u32::MAX { u32::MAX } else { v as u32 }
}

/// The power limit that a throttle action asks for, in milliwatts: its `limit_watts`
/// parameter, else its `limit` parameter.
pub open spec fn throttle_limit_of(a: PolicyAction) -> Result<u32, EnforceError> {
    let found = match param_named(a.parameters@, "limit_watts"@) {
        Some(v) => Some(v),
        None => param_named(a.parameters@, "limit"@),
    };
    match found {
        None => Err(EnforceError::MissingLimit),
        Some(ParamValue::Number(n)) => Ok(saturate_u32(n as int)),
        Some(_) => Err(EnforceError::LimitNotNumber),
    }
}

fn find_param<'a>(ps: &'a Vec<ActionParam>, key: &str) -> (r: Option<&'a ParamValue>)
    ensures
        match r {
            Some(v) => param_named(ps@, key@) == Some(*v),
            None => param_named(ps@, key@) is None,
        },
{
    let mut i: usize = 0;
    assert(ps@.subrange(0, ps@.len() as int) =~= ps@);
    while i < ps.len()
        invariant
            i <= ps@.len(),
            param_named(ps@, key@) == param_named(ps@.subrange(i as int, ps@.len() as int), key@),
        decreases ps@.len() - i,
    {
        let ghost rest = ps@.subrange(i as int, ps@.len() as int);
        assert(rest[0] == ps@[i as int]);
        if str_eq(ps[i].key.as_str(), key) {
            return Some(&ps[i].value);
        }
        assert(rest.drop_first() =~= ps@.subrange(i + 1, ps@.len() as int));
        i = i + 1;
    }
    assert(ps@.subrange(i as int, ps@.len() as int) =~= Seq::<ActionParam>::empty());
    None
}

/// The power limit, in milliwatts, that a throttle action asks for.
pub fn throttle_limit_mw(action: &PolicyAction) -> (r: Result<u32, EnforceError>)
    ensures
        r == throttle_limit_of(*action),
{
    let found = match find_param(&action.parameters, "limit_watts") {
        Some(v) => Some(v),
        None => find_param(&action.parameters, "limit"),
    };
    match found {
        None => Err(EnforceError::MissingLimit),
        Some(ParamValue::Number(n)) => {
            let n = *n;
            Ok(if n < 0 { 0 } else if n > u32::MAX as i64 { u32::MAX } else { n as u32 })
        },
        Some(_) => Err(EnforceError::LimitNotNumber),
    }
}

/// Checks a requested power limit against the device's range; the limit is only set where
/// this returns `Ok`.
pub fn check_power_limit(limit_mw: u32, min_mw: u32, max_mw: u32) -> (r: Result<u32, EnforceError>)
    ensures
        (limit_mw < min_mw || limit_mw > max_mw) <==> r is Err,
        r is Err ==> r == Err::<u32, EnforceError>(
            EnforceError::OutOfRange { requested_mw: limit_mw, min_mw, max_mw },
        ),
        r is Ok ==> r == Ok::<u32, EnforceError>(limit_mw),
{
    if limit_mw < min_mw || limit_mw > max_mw {
        Err(EnforceError::OutOfRange { requested_mw: limit_mw, min_mw, max_mw })
    } else {
        Ok(limit_mw)
    }
}

/// The message of an alert action: its `message` parameter where that is text, a default
/// otherwise.
pub open spec fn alert_text(target: Seq<char>, a: PolicyAction) -> Seq<char> {
    let msg = match param_named(a.parameters@, "message"@) {
        Some(ParamValue::Text(m)) => m@,
        _ => "Policy violation detected"@,
    };
    "ALERT on "@ + target + ": "@ + msg
}

pub fn alert_message(target: &str, action: &PolicyAction) -> (r: String)
    ensures
        r@ == alert_text(target@, *action),
{
    let mut s = String::from_str("ALERT on ");
    s.append(target);
    s.append(": ");
    match find_param(&action.parameters, "message") {
        Some(ParamValue::Text(m)) => s.append(m.as_str()),
        _ => s.append("Policy violation detected"),
    }
    s
}

/// The report of a successful throttle.
pub open spec fn throttle_text(target: Seq<char>, limit_mw: u32) -> Seq<char> {
    "Throttled "@ + target + " to "@ + fixed1_text(limit_mw as int) + "W"@
}

pub fn throttle_message(target: &str, limit_mw: u32) -> (r: String)
    ensures
        r@ == throttle_text(target@, limit_mw),
{
    let mut s = String::from_str("Throttled ");
    s.append(target);
    s.append(" to ");
    let ghost s0 = s@;
    push_fixed1(&mut s, limit_mw as i64);
    s.append("W");
    assert(s@ =~= throttle_text(target@, limit_mw));
    s
}

/// Decides an action on `target`. A throttle leaves the hardware steps to the caller; the
/// other actions complete here.
pub fn prepare_action(target: &str, action: &PolicyAction) -> (r: Result<ActionStep, EnforceError>)
    ensures
        action.action_type == ActionType::ThrottlePower ==> match throttle_limit_of(*action) {
            Err(e) => r == Err::<ActionStep, EnforceError>(e),
            Ok(mw) => r matches Ok(ActionStep::SetPowerLimit { gpu, limit_mw })
                && limit_mw == mw && match gpu {
                GpuSelector::Index(i) => selector_of(target@).1 == Some(i),
                GpuSelector::Uuid(u) => selector_of(target@).1 is None && u@ == selector_of(
                    target@,
                ).0,
            },
        },
        action.action_type == ActionType::Alert ==> (r matches Ok(ActionStep::Done(m)) && m@
            == alert_text(target@, *action)),
        action.action_type == ActionType::LockClock ==> (r matches Ok(ActionStep::Done(m)) && m@
            == "Clock locking simulated (not yet fully implemented)"@),
        action.action_type == ActionType::KillProcess ==> (r matches Ok(ActionStep::Done(m)) && m@
            == "Kill process simulated (safety lock active)"@),
        action.action_type == ActionType::MigratePod ==> (r matches Ok(ActionStep::Done(m)) && m@
            == "Pod migration simulated (K8s integration pending)"@),
{
    match action.action_type {
        ActionType::ThrottlePower => match throttle_limit_mw(action) {
            Err(e) => Err(e),
            Ok(mw) => Ok(ActionStep::SetPowerLimit { gpu: resolve_gpu_target(target), limit_mw: mw }),
        },
        ActionType::Alert => Ok(ActionStep::Done(alert_message(target, action))),
        ActionType::LockClock => Ok(
            ActionStep::Done(String::from_str("Clock locking simulated (not yet fully implemented)")),
        ),
        ActionType::KillProcess => Ok(
            ActionStep::Done(String::from_str("Kill process simulated (safety lock active)")),
        ),
        ActionType::MigratePod => Ok(
            ActionStep::Done(String::from_str("Pod migration simulated (K8s integration pending)")),
        ),
    }
}

} // verus!
