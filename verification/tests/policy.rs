use freezeit_daemon::domain::policy::{
    ControlMethod, FallbackAction, ForegroundStrategy, FreezeMode, FreezePolicy, ManagedApp,
    ProtectedReason, RestrictionRequests,
};

fn freeze_policy() -> FreezePolicy {
    FreezePolicy::Selected {
        mode: FreezeMode::Freeze,
        delay_ms: 0,
        foreground_strategy: ForegroundStrategy::Strict,
        allow_network_restriction: false,
        allow_wakelock_restriction: false,
        fallback_strategy: vec![FallbackAction::Skip],
        updated_at_ms: 0,
    }
}

fn system_app_without_reason() -> ManagedApp {
    ManagedApp {
        package_name: "com.android.unclassified".to_owned(),
        user_id: 0,
        uid: 1_234,
        label: "Unclassified system app".to_owned(),
        is_system_app: true,
        protected_reason: None,
        policy_id: "test".to_owned(),
        last_seen_baseline: "test".to_owned(),
    }
}

#[test]
fn system_apps_are_never_controlled_without_a_protected_reason() {
    assert!(!freeze_policy().is_control_allowed_for(&system_app_without_reason()));
}

#[test]
fn legacy_modes_preserve_their_requested_control_method_and_restrictions() {
    assert_eq!(
        FreezePolicy::from_legacy_mode(10, false).control_method(),
        Some(ControlMethod::Terminate)
    );
    assert_eq!(
        FreezePolicy::from_legacy_mode(20, false).control_method(),
        Some(ControlMethod::SignalStop)
    );
    assert_eq!(
        FreezePolicy::from_legacy_mode(31, false).control_method(),
        Some(ControlMethod::CgroupBinderFreeze)
    );
    assert_eq!(
        FreezePolicy::from_legacy_mode(21, false).requested_restrictions(),
        RestrictionRequests {
            network_break: true,
            wakelock_restriction: false,
        }
    );
}

#[test]
fn protected_apps_are_left_alone_and_ordinary_apps_follow_their_policy() {
    let mut app = ManagedApp {
        is_system_app: false,
        ..system_app_without_reason()
    };
    assert!(freeze_policy().is_control_allowed_for(&app));
    assert_eq!(app.policy_identity(), ("com.android.unclassified", 0));
    assert!(!app.is_protected());

    app.protected_reason = Some(ProtectedReason::Launcher);
    assert!(app.is_protected());
    assert!(!freeze_policy().is_control_allowed_for(&app));

    assert!(!FreezePolicy::protected_default().is_control_allowed_for(&ManagedApp {
        is_system_app: false,
        ..system_app_without_reason()
    }));
    assert_eq!(FreezePolicy::from_legacy_mode(40, false).control_method(), None);
}
