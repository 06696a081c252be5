use freezeit_daemon::app::controller::entry::{run_control_pass_with_sampling, BackendCalls};
use freezeit_daemon::app::controller::state::RuntimeControlState;
use freezeit_daemon::app::error::DaemonError;
use freezeit_daemon::app::freezer_backend::{
    BackendEnvironment, FreezeDecision, SystemAwareCgroupBinderBackend,
};
use freezeit_daemon::domain::policy::{FreezePolicy, ManagedApp, ProtectedReason};
use freezeit_daemon::domain::runtime::{ControlState, ProcessState, RuntimeProcess};
use freezeit_daemon::protocol::manager_v1::state::legacy_default_settings;
use freezeit_daemon::protocol::records::ManagerAppConfigRecord;
use freezeit_daemon::sys::procfs::SignalStopOwnership;

fn no_record(_pid: i32, _start: u64) -> Result<Option<SignalStopOwnership>, DaemonError> {
    Ok(None)
}

fn no_promotion(_process: &RuntimeProcess) -> Result<(), DaemonError> {
    Ok(())
}

fn no_protection(_package: &str, _system: bool) -> Option<ProtectedReason> {
    None
}

fn decide(
    app: &ManagedApp,
    policy: &FreezePolicy,
    processes: &[RuntimeProcess],
    environment: BackendEnvironment,
) -> FreezeDecision {
    SystemAwareCgroupBinderBackend::new(environment).can_freeze(app, policy, processes)
}

fn decide_after_error(
    policy: &FreezePolicy,
    error: &DaemonError,
    environment: BackendEnvironment,
) -> FreezeDecision {
    SystemAwareCgroupBinderBackend::new(environment).fallback_after_freeze_apply_error(policy, error)
}

/// The calls that a pass makes besides those that each test scripts.
fn calls(
    binder_available: bool,
) -> BackendCalls<
    impl FnMut(i32, u64) -> Result<Option<SignalStopOwnership>, DaemonError>,
    impl FnMut(&RuntimeProcess) -> Result<(), DaemonError>,
    impl FnMut(&str, bool) -> Option<ProtectedReason>,
    impl FnMut(&ManagedApp, &FreezePolicy, &[RuntimeProcess], BackendEnvironment) -> FreezeDecision,
    impl FnMut(&FreezePolicy, &DaemonError, BackendEnvironment) -> FreezeDecision,
> {
    BackendCalls {
        recorded_ownership: no_record,
        promote_signal_stop: no_promotion,
        protected_reason: no_protection,
        can_freeze: decide,
        fallback_after_freeze_apply_error: decide_after_error,
        binder_available,
    }
}

fn process(control_state: ControlState) -> RuntimeProcess {
    RuntimeProcess {
        pid: 123,
        uid: 10_123,
        package_name: "com.example.app".to_owned(),
        process_name: "com.example.app".to_owned(),
        proc_state: ProcessState::Cached,
        control_state,
        cgroup_freeze_path: Some("/sys/fs/cgroup/uid_10123/cgroup.freeze".to_owned()),
        binder_state: Some("idle".to_owned()),
        start_time_ticks: Some(1),
        last_seen_at_ms: 0,
    }
}

fn config() -> Vec<ManagerAppConfigRecord> {
    vec![ManagerAppConfigRecord {
        uid: 10_123,
        mode: 30,
        permissive: false,
    }]
}

#[test]
fn startup_audit_refreezes_abnormal_thaw_every_sixty_seconds() {
    let mut state = RuntimeControlState::default();
    let mut freezes = 0;
    run_control_pass_with_sampling(
        &mut state,
        &config(),
        &[],
        |_, _| Ok(vec![process(ControlState::Frozen)]),
        |_| {
            freezes += 1;
            Ok(())
        },
        |_| Ok(()),
        |_| Ok(true),
        |_, _| Ok(None),
        &[],
        0,
        |_| Ok(()),
        calls(false),
    )
    .unwrap();
    run_control_pass_with_sampling(
        &mut state,
        &config(),
        &[],
        |_, _| Ok(vec![process(ControlState::Running)]),
        |_| {
            freezes += 1;
            Ok(())
        },
        |_| Ok(()),
        |_| Ok(true),
        |_, _| Ok(None),
        &[],
        60_000,
        |_| Ok(()),
        calls(false),
    )
    .unwrap();

    assert_eq!(freezes, 2);
    assert!(state
        .operation_log
        .to_json()
        .contains("abnormal thaw audit"));
}

#[test]
fn foreground_uid_is_never_refrozen_by_audit() {
    let mut state = RuntimeControlState::default();
    let mut freezes = 0;
    run_control_pass_with_sampling(
        &mut state,
        &config(),
        &[],
        |_, _| Ok(vec![process(ControlState::Frozen)]),
        |_| {
            freezes += 1;
            Ok(())
        },
        |_| Ok(()),
        |_| Ok(true),
        |_, _| Ok(None),
        &[],
        0,
        |_| Ok(()),
        calls(false),
    )
    .unwrap();
    run_control_pass_with_sampling(
        &mut state,
        &config(),
        &[],
        |_, _| Ok(vec![process(ControlState::Running)]),
        |_| {
            freezes += 1;
            Ok(())
        },
        |_| Ok(()),
        |_| Ok(true),
        |_, _| Ok(None),
        &[10_123],
        60_000,
        |_| Ok(()),
        calls(false),
    )
    .unwrap();

    assert_eq!(freezes, 1);
}

#[test]
fn regular_refreeze_setting_controls_post_startup_interval() {
    let mut state = RuntimeControlState::default();
    let mut settings = legacy_default_settings();
    settings[6] = 1;
    let mut freezes = 0;
    run_control_pass_with_sampling(
        &mut state,
        &config(),
        &settings,
        |_, _| Ok(vec![process(ControlState::Frozen)]),
        |_| {
            freezes += 1;
            Ok(())
        },
        |_| Ok(()),
        |_| Ok(true),
        |_, _| Ok(None),
        &[],
        0,
        |_| Ok(()),
        calls(false),
    )
    .unwrap();
    run_control_pass_with_sampling(
        &mut state,
        &config(),
        &settings,
        |_, _| Ok(vec![process(ControlState::Frozen)]),
        |_| {
            freezes += 1;
            Ok(())
        },
        |_| Ok(()),
        |_| Ok(true),
        |_, _| Ok(None),
        &[],
        900_000,
        |_| Ok(()),
        calls(false),
    )
    .unwrap();
    run_control_pass_with_sampling(
        &mut state,
        &config(),
        &settings,
        |_, _| Ok(vec![process(ControlState::Running)]),
        |_| {
            freezes += 1;
            Ok(())
        },
        |_| Ok(()),
        |_| Ok(true),
        |_, _| Ok(None),
        &[],
        2_699_999,
        |_| Ok(()),
        calls(false),
    )
    .unwrap();
    assert_eq!(freezes, 1);
    run_control_pass_with_sampling(
        &mut state,
        &config(),
        &settings,
        |_, _| Ok(vec![process(ControlState::Running)]),
        |_| {
            freezes += 1;
            Ok(())
        },
        |_| Ok(()),
        |_| Ok(true),
        |_, _| Ok(None),
        &[],
        2_700_000,
        |_| Ok(()),
        calls(false),
    )
    .unwrap();
    assert_eq!(freezes, 2);
}
