use freezeit_daemon::app::health::{HealthStatus, ModuleHealth};

#[test]
fn missing_screen_state_evidence_is_not_safe_for_control() {
    let health = ModuleHealth::with_capability_failures(
        true, true, true, true, true, true, true, true, false,
    );

    assert_eq!(health.status, HealthStatus::Degraded);
    assert!(!health.is_safe_for_control());
}

#[test]
fn package_inventory_failure_does_not_relabel_policy_as_unavailable() {
    let health = ModuleHealth::with_capability_failures(
        true, true, true, true, false, true, true, true, true,
    );

    assert!(health.policy_ready);
    assert!(health
        .degraded_reasons
        .iter()
        .any(|reason| reason.contains("package inventory")));
    assert!(!health
        .degraded_reasons
        .iter()
        .any(|reason| reason.contains("policy unavailable")));
}
