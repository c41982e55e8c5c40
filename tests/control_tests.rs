use esnode_core::config::EnforcementMode;
use esnode_core::control::{
    check_power_limit, parse_index, prepare_action, resolve_gpu_target, throttle_limit_mw,
    throttle_message, ActionStep, EnforceError, FlapDampener, GpuSelector,
};
use esnode_core::policy::{ActionParam, ActionType, ParamValue, PolicyAction, PlanResult, PlanStatus, PolicyPlan};
use esnode_core::scheduler::{decide_enforcement, next_pair_state, violations, EnforceDecision, PairState};

#[test]
fn test_flap_dampener() {
    let mut dampener = FlapDampener::new(100);
    let policy = "test_policy";
    let target = "test_target";

    assert!(dampener.can_apply_at(policy, target, 0));
    dampener.record_action_at(policy, target, 0);
    assert!(!dampener.can_apply_at(policy, target, 0));
    assert!(dampener.can_apply_at(policy, "other_target", 0));
    assert!(dampener.can_apply_at(policy, target, 150));

    // The same through the dampener's own clock.
    let mut clocked = FlapDampener::new(100);
    assert!(clocked.can_apply(policy, target));
    clocked.record_action(policy, target);
    assert!(!clocked.can_apply(policy, target));
    assert!(clocked.can_apply(policy, "other_target"));
}

#[test]
fn dampener_interval_edges() {
    let mut d = FlapDampener::new(100);
    d.record_action_at("p", "t", 1_000);
    assert!(!d.can_apply_at("p", "t", 1_099));
    assert!(d.can_apply_at("p", "t", 1_100));
    d.record_action_at("p", "t", 1_100);
    assert!(!d.can_apply_at("p", "t", 1_150));
    assert!(d.can_apply_at("q", "t", 1_150));
}

#[test]
fn dampener_with_clock() {
    let mut d = FlapDampener::new(60_000);
    assert!(d.can_apply("p", "t"));
    d.record_action("p", "t");
    assert!(!d.can_apply("p", "t"));
    assert!(d.can_apply("p", "u"));
}

fn throttle(key: &str, value: ParamValue) -> PolicyAction {
    PolicyAction {
        action_type: ActionType::ThrottlePower,
        parameters: vec![ActionParam { key: key.to_string(), value }],
    }
}

#[test]
fn power_limit_range_is_enforced() {
    assert_eq!(
        check_power_limit(99_000, 100_000, 400_000),
        Err(EnforceError::OutOfRange { requested_mw: 99_000, min_mw: 100_000, max_mw: 400_000 })
    );
    assert_eq!(
        check_power_limit(400_001, 100_000, 400_000),
        Err(EnforceError::OutOfRange { requested_mw: 400_001, min_mw: 100_000, max_mw: 400_000 })
    );
    assert_eq!(check_power_limit(100_000, 100_000, 400_000), Ok(100_000));
    assert_eq!(check_power_limit(400_000, 100_000, 400_000), Ok(400_000));
}

#[test]
fn throttle_limit_parameters() {
    assert_eq!(throttle_limit_mw(&throttle("limit_watts", ParamValue::Number(300_000))), Ok(300_000));
    assert_eq!(throttle_limit_mw(&throttle("limit", ParamValue::Number(250_500))), Ok(250_500));
    assert_eq!(throttle_limit_mw(&throttle("limit", ParamValue::Number(-5))), Ok(0));
    assert_eq!(
        throttle_limit_mw(&throttle("limit", ParamValue::Text("x".to_string()))),
        Err(EnforceError::LimitNotNumber)
    );
    assert_eq!(throttle_limit_mw(&throttle("other", ParamValue::Number(1))), Err(EnforceError::MissingLimit));
}

#[test]
fn gpu_targets_resolve() {
    assert_eq!(resolve_gpu_target("GPU-0"), GpuSelector::Index(0));
    assert_eq!(resolve_gpu_target("GPU-12"), GpuSelector::Index(12));
    assert_eq!(resolve_gpu_target("3"), GpuSelector::Index(3));
    assert_eq!(resolve_gpu_target("GPU-abc-1"), GpuSelector::Uuid("abc-1".to_string()));
    assert_eq!(resolve_gpu_target("GPU-GPU-123"), GpuSelector::Uuid("GPU-123".to_string()));
    assert_eq!(parse_index("4294967295"), Some(u32::MAX));
    assert_eq!(parse_index("4294967296"), None);
    assert_eq!(parse_index(""), None);
}

#[test]
fn actions_are_prepared() {
    match prepare_action("GPU-1", &throttle("limit_watts", ParamValue::Number(300_000))) {
        Ok(ActionStep::SetPowerLimit { gpu, limit_mw }) => {
            assert_eq!(gpu, GpuSelector::Index(1));
            assert_eq!(limit_mw, 300_000);
        }
        other => panic!("unexpected {:?}", other),
    }
    let alert = PolicyAction {
        action_type: ActionType::Alert,
        parameters: vec![ActionParam { key: "message".to_string(), value: ParamValue::Text("too hot".to_string()) }],
    };
    match prepare_action("GPU-1", &alert) {
        Ok(ActionStep::Done(m)) => assert_eq!(m, "ALERT on GPU-1: too hot"),
        other => panic!("unexpected {:?}", other),
    }
    let plain = PolicyAction { action_type: ActionType::Alert, parameters: vec![] };
    match prepare_action("GPU-1", &plain) {
        Ok(ActionStep::Done(m)) => assert_eq!(m, "ALERT on GPU-1: Policy violation detected"),
        other => panic!("unexpected {:?}", other),
    }
    let kill = PolicyAction { action_type: ActionType::KillProcess, parameters: vec![] };
    match prepare_action("GPU-1", &kill) {
        Ok(ActionStep::Done(m)) => assert_eq!(m, "Kill process simulated (safety lock active)"),
        other => panic!("unexpected {:?}", other),
    }
    assert_eq!(throttle_message("GPU-1", 300_000), "Throttled GPU-1 to 300.0W");
}

fn plan_entry(status: PlanStatus) -> PolicyPlan {
    PolicyPlan {
        policy_name: "p".to_string(),
        target_resource: "GPU-0".to_string(),
        current_value: "1.0C".to_string(),
        threshold: "0.0C".to_string(),
        status,
        computed_action: None,
    }
}

#[test]
fn enforcement_decisions() {
    let plan = PlanResult {
        profile_name: "x".to_string(),
        matched_policies: vec![
            plan_entry(PlanStatus::Satisfied),
            plan_entry(PlanStatus::Violated),
            plan_entry(PlanStatus::Skipped),
            plan_entry(PlanStatus::Violated),
        ],
    };
    assert_eq!(violations(&plan), vec![1, 3]);
    let mut d = FlapDampener::new(100);
    assert_eq!(decide_enforcement(EnforcementMode::Monitor, &d, "p", "GPU-0", 0), EnforceDecision::Report);
    assert_eq!(decide_enforcement(EnforcementMode::Enforce, &d, "p", "GPU-0", 0), EnforceDecision::Apply);
    d.record_action_at("p", "GPU-0", 0);
    assert_eq!(decide_enforcement(EnforcementMode::Enforce, &d, "p", "GPU-0", 50), EnforceDecision::Dampened);
    assert_eq!(decide_enforcement(EnforcementMode::Enforce, &d, "p", "GPU-0", 100), EnforceDecision::Apply);
}

#[test]
fn pair_state_machine() {
    assert_eq!(next_pair_state(false, EnforceDecision::Apply, true), PairState::Clear);
    assert_eq!(next_pair_state(true, EnforceDecision::Report, false), PairState::Violated);
    assert_eq!(next_pair_state(true, EnforceDecision::Apply, true), PairState::Enforced);
    assert_eq!(next_pair_state(true, EnforceDecision::Apply, false), PairState::Violated);
    assert_eq!(next_pair_state(true, EnforceDecision::Dampened, false), PairState::Dampened);
}
