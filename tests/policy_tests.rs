use esnode_core::condition::{check_condition, parse_condition, CmpOp, Condition};
use esnode_core::policy::{
    ActionParam, ActionType, EfficiencyProfile, ParamValue, PlanStatus, PolicyAction, PolicyRule,
    PolicySeverity, PolicyTarget, ProfileMetadata, ProfileSelectors,
};
use esnode_core::state::{GpuStatus, StatusSnapshot};

fn mock_snapshot() -> StatusSnapshot {
    let gpu = GpuStatus {
        uuid: Some("GPU-123".to_string()),
        gpu: "NVIDIA H100".to_string(),
        temperature_milli_c: Some(85_000),
        util_milli_pct: Some(2_000),
        ..Default::default()
    };
    StatusSnapshot { gpus: vec![gpu], ..Default::default() }
}

fn profile(name: &str, rule: PolicyRule) -> EfficiencyProfile {
    EfficiencyProfile {
        api_version: "v1".to_string(),
        kind: "EfficiencyProfile".to_string(),
        metadata: ProfileMetadata {
            name: name.to_string(),
            description: None,
            version: "1.0.0".to_string(),
        },
        selectors: ProfileSelectors::default(),
        policies: vec![rule],
    }
}

fn rule(name: &str, target: PolicyTarget, condition: &str, action: PolicyAction, severity: PolicySeverity) -> PolicyRule {
    PolicyRule {
        name: name.to_string(),
        description: None,
        target,
        condition: condition.to_string(),
        duration: None,
        action,
        severity,
    }
}

fn thermal_profile(limit_key: &str) -> EfficiencyProfile {
    let action = PolicyAction {
        action_type: ActionType::ThrottlePower,
        parameters: vec![ActionParam { key: limit_key.to_string(), value: ParamValue::Number(300_000) }],
    };
    profile(
        "test-profile",
        rule("thermal-safety", PolicyTarget::GpuTempCelsius, "> 80", action, PolicySeverity::Critical),
    )
}

#[test]
fn test_plan_thermal_violation() {
    let profile = thermal_profile("min");
    let status = mock_snapshot();
    let result = profile.plan(&status);

    assert_eq!(result.matched_policies.len(), 1);
    let plan = &result.matched_policies[0];

    assert_eq!(plan.policy_name, "thermal-safety");
    assert_eq!(plan.status, PlanStatus::Violated);
    assert!(plan.computed_action.is_some());
}

#[test]
fn test_plan_utilization_violation() {
    let action = PolicyAction { action_type: ActionType::LockClock, parameters: vec![] };
    let profile = profile(
        "test-profile-util",
        rule("idle-check", PolicyTarget::GpuUtilization, "< 5%", action, PolicySeverity::Info),
    );
    let status = mock_snapshot();
    let result = profile.plan(&status);
    assert_eq!(result.matched_policies[0].status, PlanStatus::Violated);
}

#[test]
fn thermal_plan_reports_values_and_action() {
    let result = thermal_profile("limit_watts").plan(&mock_snapshot());
    assert_eq!(result.profile_name, "test-profile");
    let plan = &result.matched_policies[0];
    assert_eq!(plan.target_resource, "GPU-GPU-123");
    assert_eq!(plan.current_value, "85.0C");
    assert_eq!(plan.threshold, "80.0C");
    assert_eq!(
        plan.computed_action.as_deref(),
        Some("Execute throttle_power with params limit_watts=300.0")
    );
}

#[test]
fn utilization_plan_writes_percent() {
    let action = PolicyAction { action_type: ActionType::Alert, parameters: vec![] };
    let profile = profile(
        "p",
        rule("idle-check", PolicyTarget::GpuUtilization, "< 5%", action, PolicySeverity::Info),
    );
    let plan = &profile.plan(&mock_snapshot()).matched_policies[0];
    assert_eq!(plan.current_value, "2.0%");
    assert_eq!(plan.threshold, "5.0%");
    assert_eq!(plan.computed_action.as_deref(), Some("Execute alert"));
}

#[test]
fn satisfied_policy_has_no_action() {
    let action = PolicyAction { action_type: ActionType::Alert, parameters: vec![] };
    let profile = profile(
        "p",
        rule("hot", PolicyTarget::GpuTempCelsius, "> 90", action, PolicySeverity::Warning),
    );
    let plan = &profile.plan(&mock_snapshot()).matched_policies[0];
    assert_eq!(plan.status, PlanStatus::Satisfied);
    assert!(plan.computed_action.is_none());
}

#[test]
fn tokens_per_watt_without_reading_counts_as_zero() {
    let action = PolicyAction { action_type: ActionType::Alert, parameters: vec![] };
    let profile = profile(
        "p",
        rule("tpw", PolicyTarget::TokensPerWatt, "< 2", action, PolicySeverity::Info),
    );
    let result = profile.plan(&mock_snapshot());
    assert_eq!(result.matched_policies.len(), 1);
    let plan = &result.matched_policies[0];
    assert_eq!(plan.status, PlanStatus::Violated);
    assert_eq!(plan.target_resource, "ALL");
    assert_eq!(plan.current_value, "0.0");
    assert_eq!(plan.threshold, "2.0");
}

#[test]
fn plan_is_repeatable() {
    let profile = thermal_profile("limit_watts");
    let snap = mock_snapshot();
    let a = profile.plan(&snap);
    let b = profile.plan(&snap);
    assert_eq!(a.matched_policies.len(), b.matched_policies.len());
    for (x, y) in a.matched_policies.iter().zip(b.matched_policies.iter()) {
        assert_eq!(x.status, y.status);
        assert_eq!(x.current_value, y.current_value);
        assert_eq!(x.threshold, y.threshold);
        assert_eq!(x.computed_action, y.computed_action);
    }
}

#[test]
fn power_and_memory_targets_per_gpu() {
    let gpu = GpuStatus {
        gpu: "0".to_string(),
        power_mw: Some(310_500),
        memory_total_bytes: Some(1000),
        memory_used_bytes: Some(250),
        ..Default::default()
    };
    let snap = StatusSnapshot { gpus: vec![gpu], ..Default::default() };
    let action = PolicyAction { action_type: ActionType::Alert, parameters: vec![] };
    let power_profile = profile("p", rule("pw", PolicyTarget::GpuPowerWatts, ">= 300", action, PolicySeverity::Info));
    let plan = &power_profile.plan(&snap).matched_policies[0];
    assert_eq!(plan.target_resource, "GPU-0");
    assert_eq!(plan.current_value, "310.5W");
    assert_eq!(plan.status, PlanStatus::Violated);
    let action = PolicyAction { action_type: ActionType::Alert, parameters: vec![] };
    let memory_profile = profile("p", rule("mem", PolicyTarget::MemoryAllocatedPercent, "> 50%", action, PolicySeverity::Info));
    let plan = &memory_profile.plan(&snap).matched_policies[0];
    assert_eq!(plan.current_value, "25.0%");
    assert_eq!(plan.status, PlanStatus::Satisfied);
}

#[test]
fn condition_boundaries() {
    assert_eq!(check_condition(80_000, "> 80"), Some((false, 80_000)));
    assert_eq!(check_condition(80_010, "> 80"), Some((true, 80_000)));
    assert_eq!(check_condition(80_000, ">= 80"), Some((true, 80_000)));
    assert_eq!(check_condition(4_999, "< 5%"), Some((true, 5_000)));
    assert_eq!(check_condition(5_000, "<= 5"), Some((true, 5_000)));
    assert_eq!(check_condition(70_500, "== 70.5C"), Some((true, 70_500)));
    assert_eq!(check_condition(70_500, "= 70.5"), Some((true, 70_500)));
    assert_eq!(check_condition(70_500, "!= 70.5"), Some((false, 70_500)));
    assert_eq!(check_condition(-3_000, "< -2.5"), Some((true, -2_500)));
}

#[test]
fn thresholds_round_to_thousandths() {
    assert_eq!(parse_condition("> 80.1234"), Some(Condition { op: CmpOp::Gt, threshold_milli: 80_123 }));
    assert_eq!(parse_condition("> 80.1235"), Some(Condition { op: CmpOp::Gt, threshold_milli: 80_124 }));
    assert_eq!(parse_condition("< 0.99999%"), Some(Condition { op: CmpOp::Lt, threshold_milli: 1_000 }));
    assert_eq!(check_condition(80_124, "> 80.1234"), Some((true, 80_123)));
}

#[test]
fn condition_parsing_rejects_other_text() {
    assert_eq!(parse_condition("80"), None);
    assert_eq!(parse_condition(">80"), None);
    assert_eq!(parse_condition("> "), None);
    assert_eq!(parse_condition("> 80 W"), None);
    assert_eq!(parse_condition("> 8."), None);
    assert_eq!(parse_condition("~ 80"), None);
    assert_eq!(check_condition(1, "> abc"), None);
    assert_eq!(
        parse_condition("  >=  12.25%  "),
        Some(Condition { op: CmpOp::Ge, threshold_milli: 12_250 })
    );
}

#[test]
fn tokens_per_watt_is_evaluated_node_wide() {
    let action = PolicyAction { action_type: ActionType::Alert, parameters: vec![] };
    let profile = profile(
        "p",
        rule("tpw", PolicyTarget::TokensPerWatt, "< 2", action, PolicySeverity::Info),
    );
    let mut snap = mock_snapshot();
    snap.app_tokens_per_watt_milli = Some(1_500);
    let result = profile.plan(&snap);
    assert_eq!(result.matched_policies.len(), 1);
    let plan = &result.matched_policies[0];
    assert_eq!(plan.target_resource, "ALL");
    assert_eq!(plan.current_value, "1.5");
    assert_eq!(plan.threshold, "2.0");
    assert_eq!(plan.status, PlanStatus::Violated);
    snap.app_tokens_per_watt_milli = Some(2_500);
    assert_eq!(profile.plan(&snap).matched_policies[0].status, PlanStatus::Satisfied);
}

#[test]
fn other_targets_are_skipped() {
    let action = PolicyAction { action_type: ActionType::Alert, parameters: vec![] };
    let profile = profile(
        "p",
        rule("fan", PolicyTarget::Other, "> 90", action, PolicySeverity::Info),
    );
    let plan = &profile.plan(&mock_snapshot()).matched_policies[0];
    assert_eq!(plan.status, PlanStatus::Skipped);
    assert_eq!(plan.current_value, "N/A");
}

#[test]
fn malformed_conditions_fail_validation() {
    let ok = thermal_profile("limit_watts");
    assert_eq!(ok.validate(), Ok(()));
    let action = PolicyAction { action_type: ActionType::Alert, parameters: vec![] };
    let bad = profile(
        "p",
        rule("bad", PolicyTarget::GpuTempCelsius, "around 80", action, PolicySeverity::Info),
    );
    assert_eq!(bad.validate(), Err(0));
}
