use std::cell::RefCell;
use std::collections::BTreeMap;
use std::rc::Rc;

use freezeit_daemon::app::controller::carry::signal_stop_ledger_promotion;
use freezeit_daemon::app::controller::entry::{
    run_control_pass, run_control_pass_with_sampling_and_terminate, run_control_pass_with_settings,
    BackendCalls,
};
use freezeit_daemon::app::controller::pass::PassContext;
use freezeit_daemon::app::controller::port::ControlPort;
use freezeit_daemon::app::controller::recovery::{
    reconcile_live_process_control_states, recover_managed_with, recover_process_after_restart,
    recover_process_with, recover_stopped_managed_processes_after_restart, RecoveryPort,
};
use freezeit_daemon::app::controller::rules::{
    managed_app_from_record, manager_wakeup_interval_ms, policy_from_record, refreeze_audit_due,
    requested_control_backend, RequestedControlBackend,
};
use freezeit_daemon::app::controller::state::RuntimeControlState;
use freezeit_daemon::app::controller::system::{run_system_aware_pass, DeviceCalls};
use freezeit_daemon::app::controller::transaction::{
    apply_signal_stop_freeze_transaction, FreezeTransactionOutcome, FrozenOwnership,
    SignalStopLedgerPromotion,
};
use freezeit_daemon::app::error::DaemonError;
use freezeit_daemon::app::logging::LogView;
use freezeit_daemon::app::freezer_backend::{BackendEnvironment, FreezeDecision, SystemAwareCgroupBinderBackend};
use freezeit_daemon::domain::identity::RuntimeIdentity;
use freezeit_daemon::domain::policy::{FreezePolicy, ManagedApp, ProtectedReason};
use freezeit_daemon::domain::runtime::{ControlState, ProcessState, RuntimeProcess};
use freezeit_daemon::protocol::manager_v1::persistence::parse_legacy_uid_token;
use freezeit_daemon::protocol::manager_v1::state::ReadOnlyState;
use freezeit_daemon::protocol::records::ManagerAppConfigRecord;
use freezeit_daemon::sys::cgroup::FreezeState;
use freezeit_daemon::sys::procfs::SignalStopOwnership;

fn no_record(_pid: i32, _start: u64) -> Result<Option<SignalStopOwnership>, DaemonError> {
    Ok(None)
}

fn no_promotion(_process: &RuntimeProcess) -> Result<(), DaemonError> {
    Ok(())
}

fn no_protection(_package: &str, _system: bool) -> Option<ProtectedReason> {
    None
}

fn decide(
    app: &ManagedApp,
    policy: &FreezePolicy,
    processes: &[RuntimeProcess],
    environment: BackendEnvironment,
) -> FreezeDecision {
    SystemAwareCgroupBinderBackend::new(environment).can_freeze(app, policy, processes)
}

fn decide_after_error(
    policy: &FreezePolicy,
    error: &DaemonError,
    environment: BackendEnvironment,
) -> FreezeDecision {
    SystemAwareCgroupBinderBackend::new(environment).fallback_after_freeze_apply_error(policy, error)
}

/// The calls that a pass makes besides those that each test scripts.
fn calls(
    binder_available: bool,
) -> BackendCalls<
    impl FnMut(i32, u64) -> Result<Option<SignalStopOwnership>, DaemonError>,
    impl FnMut(&RuntimeProcess) -> Result<(), DaemonError>,
    impl FnMut(&str, bool) -> Option<ProtectedReason>,
    impl FnMut(&ManagedApp, &FreezePolicy, &[RuntimeProcess], BackendEnvironment) -> FreezeDecision,
    impl FnMut(&FreezePolicy, &DaemonError, BackendEnvironment) -> FreezeDecision,
> {
    BackendCalls {
        recorded_ownership: no_record,
        promote_signal_stop: no_promotion,
        protected_reason: no_protection,
        can_freeze: decide,
        fallback_after_freeze_apply_error: decide_after_error,
        binder_available,
    }
}

/// Stops the processes through scripted calls.
fn stop_transaction<V, F, U, P>(
    processes: &[RuntimeProcess],
    validate: &mut V,
    freeze: &mut F,
    unfreeze: &mut U,
    promotion: SignalStopLedgerPromotion,
    promote: &mut P,
) -> FreezeTransactionOutcome
where
    V: FnMut(&RuntimeProcess) -> Result<bool, DaemonError>,
    F: FnMut(&RuntimeProcess) -> Result<(), DaemonError>,
    U: FnMut(&RuntimeProcess) -> Result<(), DaemonError>,
    P: FnMut(&RuntimeProcess) -> Result<(), DaemonError>,
{
    let mut port = ControlPort::new(
        |_: &str, _: u32| Ok(Vec::new()),
        freeze,
        unfreeze,
        validate,
        |_: u32, _: &str| Ok(None),
        no_promotion,
        no_record,
        promote,
        no_protection,
        decide,
        decide_after_error,
    );
    apply_signal_stop_freeze_transaction(processes, promotion, &mut port)
}

/// Asks whether stops may be promoted, against a scripted ledger.
fn ledger_promotion<O>(
    state: &RuntimeControlState,
    identity: &RuntimeIdentity,
    processes: &[RuntimeProcess],
    recorded: &mut O,
) -> SignalStopLedgerPromotion
where
    O: FnMut(i32, u64) -> Result<Option<SignalStopOwnership>, DaemonError>,
{
    let mut port = ControlPort::new(
        |_: &str, _: u32| Ok(Vec::new()),
        no_promotion,
        no_promotion,
        |_: &RuntimeProcess| Ok(true),
        |_: u32, _: &str| Ok(None),
        no_promotion,
        recorded,
        no_promotion,
        no_protection,
        decide,
        decide_after_error,
    );
    signal_stop_ledger_promotion(state, identity, processes, &mut port)
}

fn process(uid: u32, pid: i32, control_state: ControlState) -> RuntimeProcess {
    RuntimeProcess {
        pid,
        uid,
        package_name: "com.example.app".to_owned(),
        process_name: "com.example.app".to_owned(),
        proc_state: ProcessState::Cached,
        control_state,
        cgroup_freeze_path: None,
        binder_state: None,
        start_time_ticks: Some(1),
        last_seen_at_ms: 0,
    }
}

#[test]
fn live_control_state_reconciliation_uses_cgroup_and_stop_evidence() {
    let uid = 10_123;
    let mut cgroup_frozen = process(uid, 123, ControlState::Running);
    cgroup_frozen.cgroup_freeze_path = Some("/cgroup/frozen".to_owned());
    let stopped = process(uid, 124, ControlState::Running);
    let tracing_stopped = process(uid, 125, ControlState::Running);
    let mut cgroup_thawed = process(uid, 126, ControlState::Frozen);
    cgroup_thawed.cgroup_freeze_path = Some("/cgroup/thawed".to_owned());
    let mut processes = vec![cgroup_frozen, stopped, tracing_stopped, cgroup_thawed];

    reconcile_live_process_control_states(
        &mut processes,
        |path| match path {
            "/cgroup/frozen" => Ok(FreezeState::Frozen),
            "/cgroup/thawed" => Ok(FreezeState::Thawed),
            unexpected => Err(DaemonError::system(&format!(
                "unexpected cgroup path {unexpected}"
            ))),
        },
        |pid| match pid {
            123 | 126 => Ok('S'),
            124 => Ok('T'),
            125 => Ok('t'),
            unexpected => Err(DaemonError::system(&format!("unexpected pid {unexpected}"))),
        },
    );

    assert_eq!(processes[0].control_state, ControlState::Frozen);
    assert_eq!(processes[1].control_state, ControlState::Frozen);
    assert_eq!(processes[2].control_state, ControlState::Frozen);
    assert_eq!(processes[3].control_state, ControlState::Running);
}

#[test]
fn live_control_state_reconciliation_keeps_uncertain_processes_unknown() {
    let uid = 10_123;
    let mut unreadable_cgroup = process(uid, 123, ControlState::Running);
    unreadable_cgroup.cgroup_freeze_path = Some("/cgroup/unreadable".to_owned());
    let unreadable_proc = process(uid, 124, ControlState::Running);
    let mut processes = vec![unreadable_cgroup, unreadable_proc];

    reconcile_live_process_control_states(
        &mut processes,
        |_| Err(DaemonError::system("cgroup state unavailable")),
        |pid| match pid {
            123 => Ok('S'),
            124 => Err(DaemonError::system("proc state unavailable")),
            unexpected => Err(DaemonError::system(&format!("unexpected pid {unexpected}"))),
        },
    );

    assert_eq!(processes[0].control_state, ControlState::Unknown);
    assert_eq!(processes[1].control_state, ControlState::Unknown);
}

#[test]
fn refreeze_audit_keeps_unknown_processes_tracked_without_refreezing() {
    let uid = 10_123;
    let mut state = RuntimeControlState::default();
    let freeze_calls = RefCell::new(0);

    run_control_pass(
        &mut state,
        &[config(uid, 30)],
        |_, _| Ok(vec![process(uid, 123, ControlState::Running)]),
        |_| {
            *freeze_calls.borrow_mut() += 1;
            Ok(())
        },
        |_| Ok(()),
        &[],
        0,
        |_, _| Ok(None),
        |_| Ok(()),
        calls(false),
    )
    .expect("initial freeze succeeds");

    run_control_pass(
        &mut state,
        &[config(uid, 30)],
        |_, _| Ok(vec![process(uid, 123, ControlState::Unknown)]),
        |_| {
            *freeze_calls.borrow_mut() += 1;
            Ok(())
        },
        |_| Ok(()),
        &[],
        60_000,
        |_, _| Ok(None),
        |_| Ok(()),
        calls(false),
    )
    .expect("uncertain audit observation is not treated as a thaw");

    assert_eq!(*freeze_calls.borrow(), 1);
    let rows = state.freeze_status_records(
        &[config(uid, 30)],
        &BTreeMap::from([(uid, vec![process(uid, 123, ControlState::Unknown)])]),
        &[],
        60_000,
    );
    assert_eq!(rows[0].state, 3, "unknown state remains tracked as frozen");
}

fn config(uid: u32, mode: i32) -> ManagerAppConfigRecord {
    ManagerAppConfigRecord {
        uid,
        mode,
        permissive: false,
    }
}

#[test]
fn legacy_uid_tokens_require_a_canonical_numeric_format() {
    assert_eq!(parse_legacy_uid_token("10000"), Some(10_000));
    assert_eq!(parse_legacy_uid_token("10000uid10000"), Some(10_000));
    assert_eq!(parse_legacy_uid_token("110000uid110000"), Some(110_000));
    assert_eq!(parse_legacy_uid_token("com.example.uid1000"), None);
    assert_eq!(parse_legacy_uid_token("10000uid10001"), None);
}

#[test]
fn runtime_system_uids_are_protected_from_control() {
    let app = managed_app_from_record("android", 1_000, None);

    assert!(app.is_system_app);
    assert_eq!(app.protected_reason, Some(ProtectedReason::SystemCritical));
}

#[test]
fn system_uid_signal_policy_is_skipped_before_any_signal_is_sent() {
    let uid = 1_000;
    let mut state = RuntimeControlState::default();
    let mut settings = vec![0; 256];
    settings[2] = 10;
    let signal_calls = RefCell::new(0);

    run_control_pass_with_settings(
        &mut state,
        &[config(uid, 20)],
        &settings,
        |_, _| Ok(vec![process(uid, 123, ControlState::Running)]),
        |_| {
            *signal_calls.borrow_mut() += 1;
            Ok(())
        },
        |_| Ok(()),
        &[],
        0,
        |_, _| Ok(None),
        |_| Ok(()),
        calls(false),
    )
    .expect("system uid policy is evaluated without a backend error");

    assert_eq!(*signal_calls.borrow(), 0);
    assert!(
        state.pending_freeze_uids().is_empty(),
        "protected system UID must not be exposed to the hook as pending"
    );
}

#[test]
fn protected_system_uid_thaws_historical_freeze_tracking() {
    let uid = 1_000;
    let mut state = RuntimeControlState::default();
    state.track_frozen(
        ("com.example.app".to_owned(), uid),
        0,
        FrozenOwnership::ResidualUnknown,
    );
    let unfreezes = RefCell::new(Vec::new());

    run_control_pass(
        &mut state,
        &[config(uid, 20)],
        |_, _| Ok(vec![process(uid, 123, ControlState::Frozen)]),
        |_| panic!("protected system UID must never freeze again"),
        |process| {
            unfreezes.borrow_mut().push(process.pid);
            Ok(())
        },
        &[],
        1,
        |_, _| Ok(None),
        |_| Ok(()),
        calls(false),
    )
    .expect("protected system UID recovery");

    assert_eq!(&*unfreezes.borrow(), &[123]);
    assert!(state.pending_freeze_uids().is_empty());
}

#[test]
fn tracking_signal_does_not_downgrade_legacy_frozen_identity() {
    let identity = ("com.example.app".to_owned(), 10_123);
    let mut state = RuntimeControlState::default();
    state.frozen_apps.insert(identity.clone(), ());

    state.track_frozen(identity.clone(), 0, FrozenOwnership::SignalOnly);

    assert_eq!(
        state.frozen_ownership(&identity),
        FrozenOwnership::ResidualUnknown
    );
}

#[test]
fn detached_audit_ownership_is_cleared_when_the_process_exits() {
    let uid = 10_123;
    let identity = ("com.example.app".to_owned(), uid);
    let mut state = RuntimeControlState::default();
    state
        .frozen_ownership
        .insert(identity.clone(), FrozenOwnership::ResidualUnknown);

    run_control_pass(
        &mut state,
        &[config(uid, 30)],
        |_, _| Ok(Vec::new()),
        |_| panic!("an exited process must not be frozen"),
        |_| panic!("an exited process must not be thawed"),
        &[],
        0,
        |_, _| Ok(None),
        |_| Ok(()),
        calls(false),
    )
    .expect("process exit cleanup");

    assert!(!state.frozen_ownership.contains(&identity));
}

#[test]
fn detached_audit_ownership_is_cleared_when_control_is_removed() {
    let identity = ("com.example.app".to_owned(), 10_123);
    let mut state = RuntimeControlState::default();
    state
        .frozen_ownership
        .insert(identity.clone(), FrozenOwnership::ResidualUnknown);

    run_control_pass(
        &mut state,
        &[],
        |_, _| panic!("removed control must not rediscover detached ownership"),
        |_| panic!("removed control must not refreeze detached ownership"),
        |_| panic!("removed control must not thaw an already-running process"),
        &[],
        0,
        |_, _| Ok(None),
        |_| Ok(()),
        calls(false),
    )
    .expect("removed control cleanup");

    assert!(!state.frozen_ownership.contains(&identity));
}

#[test]
fn disabling_control_clears_detached_audit_ownership() {
    let identity = ("com.example.app".to_owned(), 10_123);
    let mut state = RuntimeControlState::default();
    state
        .frozen_ownership
        .insert(identity.clone(), FrozenOwnership::ResidualUnknown);

    state
        .thaw_all_frozen(
            |_, _| panic!("detached ownership has no frozen process to rediscover"),
            |_| panic!("detached ownership has no frozen process to thaw"),
            |_| panic!("detached ownership has no frozen process to validate"),
            0,
        )
        .expect("disabled control cleanup");

    assert!(!state.frozen_ownership.contains(&identity));
}

#[test]
fn sigstop_mode_uses_the_signal_backend_even_when_cgroup_is_available() {
    let uid = 10_123;
    let mut process = process(uid, 123, ControlState::Running);
    process.cgroup_freeze_path =
        Some("/sys/fs/cgroup/uid_10123/pid_123/cgroup.freeze".to_owned());
    let signal_backend_was_used = RefCell::new(false);

    run_control_pass(
        &mut RuntimeControlState::default(),
        &[config(uid, 20)],
        |_, _| Ok(vec![process.clone()]),
        |candidate| {
            *signal_backend_was_used.borrow_mut() = candidate.cgroup_freeze_path.is_none();
            Ok(())
        },
        |_| Ok(()),
        &[],
        0,
        |_, _| Ok(None),
        |_| Ok(()),
        calls(true),
    )
    .expect("SIGSTOP control pass");

    assert!(*signal_backend_was_used.borrow());
}

#[test]
fn freezer_fallback_to_signal_reports_the_signal_backend() {
    let uid = 10_123;
    let mut runtime_process = process(uid, 123, ControlState::Running);
    runtime_process.cgroup_freeze_path =
        Some("/sys/fs/cgroup/uid_10123/pid_123/cgroup.freeze".to_owned());

    let mut state = RuntimeControlState::default();
    run_control_pass(
        &mut state,
        &[config(uid, 30)],
        |_, _| Ok(vec![runtime_process.clone()]),
        |candidate| {
            assert!(candidate.cgroup_freeze_path.is_none());
            Ok(())
        },
        |_| Ok(()),
        &[],
        0,
        |_, _| Ok(None),
        |_| Ok(()),
        calls(false),
    )
    .expect("signal fallback succeeds");

    let json = state.operation_log.to_json();
    assert!(json.contains("\"backend\":\"signal.stop\""));
    assert!(!json.contains("\"backend\":\"cgroup.freeze\""));
}

#[test]
fn binderless_signal_fallback_foreground_thaw_allows_immediate_refreeze() {
    let uid = 10_123;
    let mut runtime_process = process(uid, 123, ControlState::Running);
    runtime_process.cgroup_freeze_path =
        Some("/sys/fs/cgroup/uid_10123/pid_123/cgroup.freeze".to_owned());
    let mut state = RuntimeControlState::default();
    let stop_pids = Rc::new(RefCell::new(Vec::new()));
    let foreground_paths = Rc::new(RefCell::new(Vec::new()));

    run_control_pass(
        &mut state,
        &[config(uid, 30)],
        |_, _| Ok(vec![runtime_process.clone()]),
        {
            let stop_pids = Rc::clone(&stop_pids);
            move |candidate| {
                assert!(candidate.cgroup_freeze_path.is_none());
                stop_pids.borrow_mut().push(candidate.pid);
                Ok(())
            }
        },
        |_| Ok(()),
        &[],
        0,
        |_, _| Ok(None),
        |_| Ok(()),
        calls(false),
    )
    .expect("binderless fallback freezes with SIGSTOP");

    run_control_pass(
        &mut state,
        &[config(uid, 30)],
        |_, _| Ok(vec![runtime_process.clone()]),
        |_| panic!("foreground process must not be frozen"),
        {
            let foreground_paths = Rc::clone(&foreground_paths);
            move |candidate| {
                foreground_paths
                    .borrow_mut()
                    .push(candidate.cgroup_freeze_path.clone());
                if candidate.cgroup_freeze_path.is_some() {
                    Err(DaemonError::system("binder unfreeze failed after SIGCONT"))
                } else {
                    Ok(())
                }
            }
        },
        &[uid],
        1,
        |_, _| Ok(None),
        |_| Ok(()),
        calls(false),
    )
    .expect("foreground signal thaw is handled by the control pass");

    run_control_pass(
        &mut state,
        &[config(uid, 30)],
        |_, _| Ok(vec![runtime_process.clone()]),
        {
            let stop_pids = Rc::clone(&stop_pids);
            move |candidate| {
                assert!(candidate.cgroup_freeze_path.is_none());
                stop_pids.borrow_mut().push(candidate.pid);
                Ok(())
            }
        },
        |_| Ok(()),
        &[],
        2,
        |_, _| Ok(None),
        |_| Ok(()),
        calls(false),
    )
    .expect("background control pass");

    assert_eq!(&*stop_pids.borrow(), &[123, 123]);
    assert_eq!(&*foreground_paths.borrow(), &[None]);
    assert!(state
        .operation_log
        .to_json()
        .contains("\"backend\":\"signal.cont\""));
}

#[test]
fn primary_freezer_failure_signal_fallback_retains_generic_thaw_ownership() {
    let uid = 10_123;
    let mut runtime_process = process(uid, 9_999_999, ControlState::Running);
    runtime_process.cgroup_freeze_path =
        Some("/sys/fs/cgroup/uid_10123/pid_9999999/cgroup.freeze".to_owned());
    let identity = ("com.example.app".to_owned(), uid);
    let mut state = RuntimeControlState::default();
    let signal_fallback_pids = Rc::new(RefCell::new(Vec::new()));
    let foreground_paths = Rc::new(RefCell::new(Vec::new()));

    run_control_pass(
        &mut state,
        &[config(uid, 30)],
        |_, _| Ok(vec![runtime_process.clone()]),
        {
            let signal_fallback_pids = Rc::clone(&signal_fallback_pids);
            move |candidate| {
                if candidate.cgroup_freeze_path.is_some() {
                    Err(DaemonError::system("primary cgroup/binder freezer failed"))
                } else {
                    signal_fallback_pids.borrow_mut().push(candidate.pid);
                    Ok(())
                }
            }
        },
        |_| Ok(()),
        &[],
        0,
        |_, _| Ok(None),
        |_| Ok(()),
        calls(true),
    )
    .expect("signal fallback succeeds through the injected signal backend");

    run_control_pass(
        &mut state,
        &[config(uid, 30)],
        |_, _| Ok(vec![runtime_process.clone()]),
        |_| panic!("foreground process must not be frozen"),
        {
            let foreground_paths = Rc::clone(&foreground_paths);
            move |candidate| {
                foreground_paths
                    .borrow_mut()
                    .push(candidate.cgroup_freeze_path.clone());
                Err(DaemonError::system("binder unfreeze failed after SIGCONT"))
            }
        },
        &[uid],
        1,
        |_, _| Ok(None),
        |_| Ok(()),
        calls(true),
    )
    .expect("foreground generic thaw failure is logged without aborting the pass");

    run_control_pass(
        &mut state,
        &[config(uid, 30)],
        |_, _| Ok(vec![runtime_process.clone()]),
        |_| panic!("retained generic ownership must block immediate refreeze"),
        |_| Ok(()),
        &[],
        2,
        |_, _| Ok(None),
        |_| Ok(()),
        calls(true),
    )
    .expect("retained ownership blocks immediate refreeze");

    assert_eq!(&*signal_fallback_pids.borrow(), &[9_999_999]);
    assert_eq!(
        &*foreground_paths.borrow(),
        &[Some(
            "/sys/fs/cgroup/uid_10123/pid_9999999/cgroup.freeze".to_owned()
        )]
    );
    assert!(state.frozen_apps.contains(&identity));
    assert_eq!(
        state.frozen_ownership(&identity),
        FrozenOwnership::ResidualUnknown
    );
}

#[test]
fn partial_primary_freezer_failure_signal_fallback_keeps_generic_ownership() {
    let uid = 10_123;
    let mut first = process(uid, 123, ControlState::Running);
    first.cgroup_freeze_path =
        Some("/sys/fs/cgroup/uid_10123/pid_123/cgroup.freeze".to_owned());
    let mut second = process(uid, 456, ControlState::Running);
    second.cgroup_freeze_path =
        Some("/sys/fs/cgroup/uid_10123/pid_456/cgroup.freeze".to_owned());
    let processes = vec![first.clone(), second.clone()];
    let identity = ("com.example.app".to_owned(), uid);
    let mut state = RuntimeControlState::default();
    let signal_fallback_pids = Rc::new(RefCell::new(Vec::new()));
    let foreground_paths = Rc::new(RefCell::new(Vec::new()));

    run_control_pass(
        &mut state,
        &[config(uid, 30)],
        |_, _| Ok(processes.clone()),
        {
            let signal_fallback_pids = Rc::clone(&signal_fallback_pids);
            move |candidate| match candidate.cgroup_freeze_path.as_deref() {
                Some(_) if candidate.pid == first.pid => Ok(()),
                Some(_) => Err(DaemonError::system("second generic freezer apply failed")),
                None => {
                    signal_fallback_pids.borrow_mut().push(candidate.pid);
                    Ok(())
                }
            }
        },
        |candidate| {
            assert_eq!(candidate.pid, first.pid);
            assert!(candidate.cgroup_freeze_path.is_some());
            Err(DaemonError::system("primary rollback failed"))
        },
        &[],
        0,
        |_, _| Ok(None),
        |_| Ok(()),
        calls(true),
    )
    .expect("injected signal fallback succeeds after a partial primary transaction");

    run_control_pass(
        &mut state,
        &[config(uid, 30)],
        |_, _| Ok(processes.clone()),
        |_| panic!("foreground process must not be refrozen"),
        {
            let foreground_paths = Rc::clone(&foreground_paths);
            move |candidate| {
                foreground_paths
                    .borrow_mut()
                    .push(candidate.cgroup_freeze_path.clone());
                Err(DaemonError::system("generic thaw remains required"))
            }
        },
        &[uid],
        1,
        |_, _| Ok(None),
        |_| Ok(()),
        calls(true),
    )
    .expect("foreground generic thaw failure is logged without aborting the pass");

    assert_eq!(&*signal_fallback_pids.borrow(), &[123, 456]);
    assert_eq!(
        &*foreground_paths.borrow(),
        &[
            Some("/sys/fs/cgroup/uid_10123/pid_123/cgroup.freeze".to_owned()),
            Some("/sys/fs/cgroup/uid_10123/pid_456/cgroup.freeze".to_owned()),
        ]
    );
    assert!(state.frozen_apps.contains(&identity));
    assert_eq!(
        state.frozen_ownership(&identity),
        FrozenOwnership::ResidualUnknown
    );
}

#[test]
fn abnormal_audit_refreeze_retains_conservative_generic_thaw_ownership() {
    let uid = 10_123;
    let mut runtime_process = process(uid, 123, ControlState::Running);
    runtime_process.cgroup_freeze_path =
        Some("/sys/fs/cgroup/uid_10123/pid_123/cgroup.freeze".to_owned());
    let identity = ("com.example.app".to_owned(), uid);
    let mut state = RuntimeControlState::default();
    state.track_frozen(identity.clone(), 0, FrozenOwnership::ResidualUnknown);
    let refreeze_pids = Rc::new(RefCell::new(Vec::new()));
    let foreground_paths = Rc::new(RefCell::new(Vec::new()));

    run_control_pass(
        &mut state,
        &[config(uid, 30)],
        |_, _| Ok(vec![process(uid, 123, ControlState::Frozen)]),
        |_| panic!("initial audit setup must not refreeze"),
        |_| panic!("initial audit setup must not thaw"),
        &[],
        0,
        |_, _| Ok(None),
        |_| Ok(()),
        calls(false),
    )
    .expect("establish startup audit deadline");

    run_control_pass(
        &mut state,
        &[config(uid, 30)],
        |_, _| Ok(vec![runtime_process.clone()]),
        {
            let refreeze_pids = Rc::clone(&refreeze_pids);
            move |candidate| {
                assert!(candidate.cgroup_freeze_path.is_none());
                refreeze_pids.borrow_mut().push(candidate.pid);
                Ok(())
            }
        },
        |_| panic!("audit refreeze must not thaw"),
        &[],
        60_000,
        |_, _| Ok(None),
        |_| Ok(()),
        calls(false),
    )
    .expect("abnormal audit refreezes through signal fallback");

    run_control_pass(
        &mut state,
        &[config(uid, 30)],
        |_, _| Ok(vec![runtime_process.clone()]),
        |_| panic!("foreground process must not be refrozen"),
        {
            let foreground_paths = Rc::clone(&foreground_paths);
            move |candidate| {
                foreground_paths
                    .borrow_mut()
                    .push(candidate.cgroup_freeze_path.clone());
                Err(DaemonError::system("binder unfreeze failed after SIGCONT"))
            }
        },
        &[uid],
        60_001,
        |_, _| Ok(None),
        |_| Ok(()),
        calls(false),
    )
    .expect("conservative foreground thaw failure is logged without aborting the pass");

    assert_eq!(&*refreeze_pids.borrow(), &[123]);
    assert_eq!(
        &*foreground_paths.borrow(),
        &[Some(
            "/sys/fs/cgroup/uid_10123/pid_123/cgroup.freeze".to_owned()
        )]
    );
    assert!(state.frozen_apps.contains(&identity));
    assert_eq!(
        state.frozen_ownership(&identity),
        FrozenOwnership::ResidualUnknown
    );
}

#[test]
fn sigstop_break_mode_requests_network_restriction() {
    let policy = policy_from_record(&config(10_123, 21));
    let freezeit_daemon::domain::policy::FreezePolicy::Selected {
        allow_network_restriction,
        ..
    } = policy;

    assert!(allow_network_restriction);
}

#[test]
fn mode_change_thaws_a_previously_frozen_uid_before_other_control_records_run() {
    let frozen_uid = 10_001;
    let active_uid = 10_002;
    let mut state = RuntimeControlState::default();
    let frozen_process = process(frozen_uid, 101, ControlState::Running);

    run_control_pass(
        &mut state,
        &[config(frozen_uid, 30)],
        |_, uid| {
            assert_eq!(uid, frozen_uid);
            Ok(vec![frozen_process.clone()])
        },
        |_| Ok(()),
        |_| Ok(()),
        &[],
        0,
        |_, _| Ok(None),
        |_| Ok(()),
        calls(false),
    )
    .expect("initial freeze");

    let unfreezes = RefCell::new(Vec::new());
    run_control_pass(
        &mut state,
        &[config(frozen_uid, 40), config(active_uid, 30)],
        |_, uid| {
            if uid == frozen_uid {
                return Ok(vec![frozen_process.clone()]);
            }
            assert_eq!(
                uid, active_uid,
                "the whitelist uid must not be controlled again"
            );
            Ok(Vec::new())
        },
        |_| Ok(()),
        |candidate| {
            unfreezes.borrow_mut().push(candidate.pid);
            Ok(())
        },
        &[],
        1_000,
        |_, _| Ok(None),
        |_| Ok(()),
        calls(false),
    )
    .expect("mode-change cleanup");

    assert_eq!(&*unfreezes.borrow(), &[101]);
}

#[test]
fn failed_new_pid_rollback_keeps_the_uid_tracked_for_later_recovery() {
    let uid = 10_123;
    let mut state = RuntimeControlState::default();
    let mut discovery_count = 0;

    run_control_pass(
        &mut state,
        &[config(uid, 30)],
        |_, _| {
            discovery_count += 1;
            let mut original = process(uid, 123, ControlState::Running);
            original.cgroup_freeze_path =
                Some("/sys/fs/cgroup/apps/uid_10123/pid_123/cgroup.freeze".to_owned());
            if discovery_count == 1 {
                return Ok(vec![original]);
            }
            let mut new_process = process(uid, 456, ControlState::Running);
            new_process.cgroup_freeze_path =
                Some("/sys/fs/cgroup/apps/uid_10123/pid_456/cgroup.freeze".to_owned());
            Ok(vec![original, new_process])
        },
        |_| Ok(()),
        |_| Err(DaemonError::system("thaw failed")),
        &[],
        0,
        |_, _| Ok(None),
        |_| Ok(()),
        calls(true),
    )
    .expect("new pid rollback is recorded");

    let rows = state.freeze_status_records(
        &[config(uid, 30)],
        &BTreeMap::from([(uid, vec![process(uid, 123, ControlState::Frozen)])]),
        &[],
        1,
    );
    assert_eq!(rows[0].state, 3, "failed thaw must remain recoverable");
}

#[test]
fn periodic_wakeup_thaws_a_frozen_background_uid_after_the_configured_interval() {
    let uid = 10_123;
    let mut state = RuntimeControlState::default();
    let mut settings = vec![0; 256];
    settings[2] = 0;
    settings[3] = 1;
    let mut discovery_count = 0;
    let unfreezes = RefCell::new(0);

    run_control_pass_with_settings(
        &mut state,
        &[config(uid, 30)],
        &settings,
        |_, _| {
            discovery_count += 1;
            Ok(vec![process(
                uid,
                123,
                if discovery_count == 1 {
                    ControlState::Running
                } else {
                    ControlState::Frozen
                },
            )])
        },
        |_| Ok(()),
        |_| {
            *unfreezes.borrow_mut() += 1;
            Ok(())
        },
        &[],
        0,
        |_, _| Ok(None),
        |_| Ok(()),
        calls(false),
    )
    .expect("initial freeze");
    run_control_pass_with_settings(
        &mut state,
        &[config(uid, 30)],
        &settings,
        |_, _| Ok(vec![process(uid, 123, ControlState::Frozen)]),
        |_| Ok(()),
        |_| {
            *unfreezes.borrow_mut() += 1;
            Ok(())
        },
        &[],
        5 * 60_000,
        |_, _| Ok(None),
        |_| Ok(()),
        calls(false),
    )
    .expect("periodic wakeup pass");

    assert_eq!(*unfreezes.borrow(), 1);
}

#[test]
fn audit_refreeze_restarts_the_periodic_wakeup_interval() {
    let uid = 10_123;
    let mut state = RuntimeControlState::default();
    let mut settings = vec![0; 256];
    settings[3] = 1;
    let unfreezes = RefCell::new(0);

    run_control_pass_with_settings(
        &mut state,
        &[config(uid, 30)],
        &settings,
        |_, _| Ok(vec![process(uid, 123, ControlState::Running)]),
        |_| Ok(()),
        |_| Ok(()),
        &[],
        0,
        |_, _| Ok(None),
        |_| Ok(()),
        calls(false),
    )
    .expect("initial freeze");

    run_control_pass_with_settings(
        &mut state,
        &[config(uid, 30)],
        &settings,
        |_, _| Ok(vec![process(uid, 123, ControlState::Running)]),
        |_| Ok(()),
        |_| Ok(()),
        &[],
        60_000,
        |_, _| Ok(None),
        |_| Ok(()),
        calls(false),
    )
    .expect("audit refreeze");

    run_control_pass_with_settings(
        &mut state,
        &[config(uid, 30)],
        &settings,
        |_, _| Ok(vec![process(uid, 123, ControlState::Frozen)]),
        |_| Ok(()),
        |_| {
            *unfreezes.borrow_mut() += 1;
            Ok(())
        },
        &[],
        5 * 60_000,
        |_, _| Ok(None),
        |_| Ok(()),
        calls(false),
    )
    .expect("periodic wakeup check after an audit refreeze");

    assert_eq!(
        *unfreezes.borrow(),
        0,
        "audit refreeze must reset the next periodic wakeup deadline"
    );
}

#[test]
fn disabled_regular_refreeze_does_not_recreate_an_expired_audit_deadline() {
    let mut state = RuntimeControlState::default();
    let settings = vec![0; 256];

    assert!(!refreeze_audit_due(&mut state, &settings, 0));
    assert!(!refreeze_audit_due(&mut state, &settings, 15 * 60_000));
    assert!(!refreeze_audit_due(&mut state, &settings, 15 * 60_000 + 1));
}

#[test]
fn wakeup_timeout_supports_the_two_hour_spinner_value() {
    let mut settings = vec![0; 256];
    settings[3] = 5;

    assert_eq!(manager_wakeup_interval_ms(&settings), Some(120 * 60_000));
}

#[test]
fn disabled_control_thaws_every_tracked_process_and_clears_pending_state() {
    let uid = 10_123;
    let mut state = RuntimeControlState::default();
    let runtime_process = process(uid, 123, ControlState::Running);
    let mut settings = vec![0; 256];
    settings[2] = 5;

    run_control_pass_with_settings(
        &mut state,
        &[config(uid, 30)],
        &settings,
        |_, _| Ok(vec![runtime_process.clone()]),
        |_| Ok(()),
        |_| Ok(()),
        &[],
        0,
        |_, _| Ok(None),
        |_| Ok(()),
        calls(false),
    )
    .expect("schedule pending freeze");
    assert_eq!(state.pending_freeze_uids(), vec![uid]);

    run_control_pass(
        &mut state,
        &[config(uid, 30)],
        |_, _| Ok(vec![runtime_process.clone()]),
        |_| Ok(()),
        |_| Ok(()),
        &[],
        5_000,
        |_, _| Ok(None),
        |_| Ok(()),
        calls(false),
    )
    .expect("freeze before control is disabled");

    let thawed = RefCell::new(Vec::new());
    state
        .thaw_all_frozen(
            |_, discovered_uid| {
                assert_eq!(discovered_uid, uid);
                Ok(vec![runtime_process.clone()])
            },
            |candidate| {
                thawed.borrow_mut().push(candidate.pid);
                Ok(())
            },
            |_| Ok(true),
            6_000,
        )
        .expect("disabled control thaws tracked app");

    assert_eq!(&*thawed.borrow(), &[123]);
    assert!(state.pending_freeze_uids().is_empty());
    let rows = state.freeze_status_records(
        &[config(uid, 30)],
        &BTreeMap::from([(uid, vec![runtime_process])]),
        &[],
        6_000,
    );
    assert_eq!(rows[0].state, 0);
}

#[test]
fn successful_break_mode_queues_network_restriction_only_after_freeze() {
    let uid = 10_123;
    let mut state = RuntimeControlState::default();
    let signal_path_was_selected = RefCell::new(false);

    run_control_pass(
        &mut state,
        &[config(uid, 21)],
        |_, _| Ok(vec![process(uid, 123, ControlState::Running)]),
        |candidate| {
            *signal_path_was_selected.borrow_mut() = candidate.cgroup_freeze_path.is_none();
            Ok(())
        },
        |_| Ok(()),
        &[],
        0,
        |_, _| Ok(None),
        |_| Ok(()),
        calls(false),
    )
    .expect("SIGSTOP-break freeze succeeds");

    assert!(*signal_path_was_selected.borrow());
    assert_eq!(state.take_network_restriction_uids(), vec![uid]);
    assert!(state.take_network_restriction_uids().is_empty());
}

#[test]
fn clean_direct_signal_transaction_promotes_completed_stops_best_effort() {
    let processes = vec![
        process(10_123, 123, ControlState::Running),
        process(10_123, 456, ControlState::Running),
    ];
    let stopped = RefCell::new(Vec::new());
    let promoted = RefCell::new(Vec::new());

    let outcome = stop_transaction(
        &processes,
        &mut |_| Ok(true),
        &mut |candidate| {
            assert!(candidate.cgroup_freeze_path.is_none());
            stopped.borrow_mut().push(candidate.pid);
            Ok(())
        },
        &mut |_| Ok(()),
        SignalStopLedgerPromotion::AfterCompletedDirectTransaction,
        &mut |candidate| {
            promoted.borrow_mut().push(candidate.pid);
            if candidate.pid == 456 {
                Err(DaemonError::system("ledger write unavailable"))
            } else {
                Ok(())
            }
        },
    );

    assert!(outcome.failure.is_none());
    assert_eq!(&*stopped.borrow(), &[123, 456]);
    assert_eq!(&*promoted.borrow(), &[123, 456]);
}

#[test]
fn incomplete_direct_signal_transaction_does_not_promote_stops() {
    let processes = vec![
        process(10_123, 123, ControlState::Running),
        process(10_123, 456, ControlState::Running),
    ];
    let promoted = RefCell::new(Vec::new());

    let outcome = stop_transaction(
        &processes,
        &mut |_| Ok(true),
        &mut |candidate| {
            if candidate.pid == 456 {
                Err(DaemonError::system("second SIGSTOP failed"))
            } else {
                Ok(())
            }
        },
        &mut |_| Ok(()),
        SignalStopLedgerPromotion::AfterCompletedDirectTransaction,
        &mut |candidate| {
            promoted.borrow_mut().push(candidate.pid);
            Ok(())
        },
    );

    assert!(outcome.failure.is_some());
    assert!(promoted.borrow().is_empty());
}

#[test]
fn generic_signal_fallback_transaction_never_promotes_stop_ledger_provenance() {
    let processes = vec![
        process(10_123, 123, ControlState::Running),
        process(10_123, 456, ControlState::Running),
    ];
    let stopped = RefCell::new(Vec::new());
    let promoted = RefCell::new(Vec::new());

    let outcome = stop_transaction(
        &processes,
        &mut |_| Ok(true),
        &mut |candidate| {
            assert!(candidate.cgroup_freeze_path.is_none());
            stopped.borrow_mut().push(candidate.pid);
            Ok(())
        },
        &mut |_| Ok(()),
        SignalStopLedgerPromotion::Never,
        &mut |candidate| {
            promoted.borrow_mut().push(candidate.pid);
            Ok(())
        },
    );

    assert!(outcome.failure.is_none());
    assert_eq!(&*stopped.borrow(), &[123, 456]);
    assert!(promoted.borrow().is_empty());
}

#[test]
fn residual_ownership_blocks_later_direct_signal_ledger_promotion() {
    let identity = ("com.example.app".to_owned(), 10_123);
    let mut state = RuntimeControlState::default();
    state.track_frozen(identity.clone(), 0, FrozenOwnership::ResidualUnknown);
    state.mark_abnormal_thaw_for_refreeze(&identity);
    let promoted = RefCell::new(Vec::new());
    let processes = vec![process(10_123, 123, ControlState::Running)];

    let outcome = stop_transaction(
        &processes,
        &mut |_| Ok(true),
        &mut |_| Ok(()),
        &mut |_| Ok(()),
        ledger_promotion(&state, &identity, &processes, &mut |_, _| Ok(None)),
        &mut |candidate| {
            promoted.borrow_mut().push(candidate.pid);
            Ok(())
        },
    );

    assert!(outcome.failure.is_none());
    assert!(promoted.borrow().is_empty());
    assert_eq!(
        state.frozen_ownership(&identity),
        FrozenOwnership::ResidualUnknown
    );
}

#[test]
fn persisted_residual_ledger_blocks_direct_signal_promotion_after_restart() {
    let identity = ("com.example.app".to_owned(), 10_123);
    let mut state = RuntimeControlState::default();
    let processes = vec![process(10_123, 123, ControlState::Running)];
    let promoted = RefCell::new(Vec::new());

    let promotion = ledger_promotion(
        &state,
        &identity,
        &processes,
        &mut |pid, start_time_ticks| {
            assert_eq!((pid, start_time_ticks), (123, 1));
            Ok(Some(SignalStopOwnership::ResidualUnknown))
        },
    );
    let outcome = stop_transaction(
        &processes,
        &mut |_| Ok(true),
        &mut |_| Ok(()),
        &mut |_| Ok(()),
        promotion,
        &mut |candidate| {
            promoted.borrow_mut().push(candidate.pid);
            Ok(())
        },
    );

    assert!(outcome.failure.is_none());
    assert!(promoted.borrow().is_empty());

    state.track_frozen(identity, 0, promotion.frozen_ownership());
    let mut rediscovered_process = processes[0].clone();
    rediscovered_process.cgroup_freeze_path =
        Some("/sys/fs/cgroup/uid_10123/pid_123/cgroup.freeze".to_owned());
    let thaw_paths = RefCell::new(Vec::new());
    run_control_pass(
        &mut state,
        &[config(10_123, 20)],
        |_, _| Ok(vec![rediscovered_process.clone()]),
        |_| panic!("foreground process must not be frozen"),
        |candidate| {
            thaw_paths
                .borrow_mut()
                .push(candidate.cgroup_freeze_path.clone());
            Ok(())
        },
        &[10_123],
        1,
        |_, _| Ok(None),
        |_| Ok(()),
        calls(false),
    )
    .expect("residual foreground thaw");

    assert_eq!(
        &*thaw_paths.borrow(),
        &[Some(
            "/sys/fs/cgroup/uid_10123/pid_123/cgroup.freeze".to_owned()
        )]
    );
}

#[test]
fn global_sigstop_overrides_freezer_mode_selection() {
    let mut settings = vec![0; 256];
    settings[5] = 2;

    assert_eq!(
        requested_control_backend(&config(10_123, 30), &settings),
        RequestedControlBackend::Signal
    );
}

#[test]
fn terminate_mode_uses_the_injected_sigkill_backend_after_identity_validation() {
    let uid = 10_123;
    let mut state = RuntimeControlState::default();
    let killed = Rc::new(RefCell::new(Vec::new()));
    let killed_by_backend = Rc::clone(&killed);

    run_control_pass_with_sampling_and_terminate(
        &mut state,
        &[config(uid, 10)],
        &[],
        |_, _| Ok(vec![process(uid, 123, ControlState::Running)]),
        |_| Ok(()),
        |_| Ok(()),
        |_| Ok(true),
        |_, _| Ok(None),
        move |candidate| {
            killed_by_backend.borrow_mut().push(candidate.pid);
            Ok(())
        },
        &[],
        0,
        calls(false),
    )
    .expect("terminate control pass");

    assert_eq!(&*killed.borrow(), &[123]);
    assert!(state.operation_log.to_json().contains("signal.kill"));
}

#[test]
fn restart_recovery_refuses_sigcont_after_identity_drift() {
    let runtime_process = process(10_123, 123, ControlState::Frozen);
    let signals = RefCell::new(Vec::new());
    let outcome = recover_process_after_restart(
        &runtime_process,
        Some(SignalStopOwnership::SignalOnly),
        None,
        |_| Ok(false),
        |_| -> Result<(), DaemonError> { Ok(()) },
        |_| -> Result<(), DaemonError> { Ok(()) },
        |candidate| {
            signals.borrow_mut().push(candidate.pid);
            Ok(())
        },
    );

    assert!(signals.borrow().is_empty());
    assert!(outcome
        .failures
        .iter()
        .any(|failure| failure.contains("immediately before SIGCONT")));
}

#[test]
fn restart_signal_only_stop_with_thawed_cgroup_resumes_without_generic_cleanup() {
    let mut runtime_process = process(10_123, 123, ControlState::Frozen);
    runtime_process.cgroup_freeze_path =
        Some("/sys/fs/cgroup/uid_10123/pid_123/cgroup.freeze".to_owned());
    let calls = RefCell::new(Vec::new());
    let outcome = recover_process_after_restart(
        &runtime_process,
        Some(SignalStopOwnership::SignalOnly),
        Some(FreezeState::Thawed),
        |_| Ok(true),
        |path| {
            calls.borrow_mut().push(format!("cgroup:{path}"));
            Ok(())
        },
        |candidate| {
            calls.borrow_mut().push(format!("binder:{}", candidate.pid));
            Ok(())
        },
        |candidate| {
            calls
                .borrow_mut()
                .push(format!("sigcont:{}", candidate.pid));
            Ok(())
        },
    );

    assert!(!outcome.cgroup_thawed);
    assert!(outcome.signal_resumed);
    assert!(outcome.failures.is_empty());
    assert_eq!(&*calls.borrow(), &["sigcont:123".to_owned()]);
}

#[test]
fn restart_residual_unknown_stop_with_thawed_cgroup_keeps_generic_cleanup() {
    let mut runtime_process = process(10_123, 123, ControlState::Frozen);
    runtime_process.cgroup_freeze_path =
        Some("/sys/fs/cgroup/uid_10123/pid_123/cgroup.freeze".to_owned());
    let calls = RefCell::new(Vec::new());
    let outcome = recover_process_after_restart(
        &runtime_process,
        Some(SignalStopOwnership::ResidualUnknown),
        Some(FreezeState::Thawed),
        |_| Ok(true),
        |path| {
            calls.borrow_mut().push(format!("cgroup:{path}"));
            Ok(())
        },
        |candidate| {
            calls.borrow_mut().push(format!("binder:{}", candidate.pid));
            Ok(())
        },
        |candidate| {
            calls
                .borrow_mut()
                .push(format!("sigcont:{}", candidate.pid));
            Ok(())
        },
    );

    assert!(outcome.cgroup_thawed);
    assert!(outcome.signal_resumed);
    assert!(outcome.failures.is_empty());
    assert_eq!(
        &*calls.borrow(),
        &[
            "cgroup:/sys/fs/cgroup/uid_10123/pid_123/cgroup.freeze".to_owned(),
            "binder:123".to_owned(),
            "sigcont:123".to_owned(),
        ]
    );
}

#[test]
fn restart_recovery_thaws_cgroup_and_binder_without_waiting_for_sigstop_state() {
    let mut runtime_process = process(10_123, 123, ControlState::Frozen);
    runtime_process.cgroup_freeze_path =
        Some("/sys/fs/cgroup/uid_10123/pid_123/cgroup.freeze".to_owned());
    let calls = RefCell::new(Vec::new());
    let outcome = recover_process_after_restart(
        &runtime_process,
        None,
        Some(FreezeState::Thawed),
        |_| Ok(true),
        |path| {
            calls.borrow_mut().push(format!("cgroup:{path}"));
            Ok(())
        },
        |candidate| {
            calls.borrow_mut().push(format!("binder:{}", candidate.pid));
            Ok(())
        },
        |candidate| {
            calls
                .borrow_mut()
                .push(format!("sigcont:{}", candidate.pid));
            Ok(())
        },
    );

    assert!(outcome.cgroup_thawed);
    assert!(!outcome.signal_resumed);
    assert_eq!(
        &*calls.borrow(),
        &[
            "cgroup:/sys/fs/cgroup/uid_10123/pid_123/cgroup.freeze".to_owned(),
            "binder:123".to_owned(),
        ]
    );
}

/// The pids that passes at these times freeze or kill, of one application under a mode.
fn harmed(uid: u32, mode: i32, foreground: &[u32], valid: bool, times_ms: &[u128]) -> Vec<i32> {
    let harmed = RefCell::new(Vec::new());
    let mut state = RuntimeControlState::default();
    let mut settings = vec![0; 256];
    settings[2] = 10;
    for time_ms in times_ms {
        let _ = run_control_pass_with_sampling_and_terminate(
            &mut state,
            &[config(uid, mode)],
            &settings,
            |_, _| Ok(vec![process(uid, 123, ControlState::Running)]),
            |candidate| {
                harmed.borrow_mut().push(candidate.pid);
                Ok(())
            },
            |_| Ok(()),
            |_| Ok(valid),
            |_, _| Ok(None),
            |candidate| {
                harmed.borrow_mut().push(candidate.pid);
                Ok(())
            },
            foreground,
            *time_ms,
            calls(true),
        );
    }
    harmed.into_inner()
}

#[test]
fn passes_spare_the_foreground_the_system_and_what_is_not_validated() {
    let times_ms: [u128; 4] = [0, 10_000, 100_000, 10_000_000];
    for mode in [10, 20, 21, 30, 31] {
        assert!(!harmed(10_123, mode, &[], true, &times_ms).is_empty());
        assert!(harmed(10_123, mode, &[10_123], true, &times_ms).is_empty());
        assert!(harmed(10_123, mode, &[], false, &times_ms).is_empty());
        assert!(harmed(1_000, mode, &[], true, &times_ms).is_empty());
    }
}

#[test]
fn recovery_leaves_nothing_out_and_nothing_unrecorded() {
    let calls = RefCell::new(Vec::new());
    let mut frozen = process(10_123, 123, ControlState::Frozen);
    frozen.cgroup_freeze_path = Some("/sys/fs/cgroup/a/cgroup.freeze".to_owned());
    let mut port = RecoveryPort::new(
        |_: &RuntimeProcess| {
            calls.borrow_mut().push("validate");
            Ok(true)
        },
        |path: &str| {
            assert_eq!(path, "/sys/fs/cgroup/a/cgroup.freeze");
            calls.borrow_mut().push("thaw");
            Ok(())
        },
        |_: &RuntimeProcess| {
            calls.borrow_mut().push("binder");
            Ok(())
        },
        |_: &RuntimeProcess| {
            calls.borrow_mut().push("resume");
            Ok(())
        },
    );
    let outcome = recover_process_with(&frozen, None, Some(FreezeState::Frozen), &mut port);
    drop(port);
    assert!(outcome.cgroup_thawed);
    assert!(outcome.failures.is_empty());
    assert!(!outcome.signal_resumed);
    assert_eq!(
        &*calls.borrow(),
        &["validate", "thaw", "validate", "binder"]
    );
}

#[test]
fn restart_recovery_resumes_what_was_stopped_and_reports_it() {
    let calls = RefCell::new(Vec::new());
    let mut state = ReadOnlyState::default();
    state.app_config = vec![config(10_124, 30), config(10_123, 20), config(10_125, 40)];
    recover_stopped_managed_processes_after_restart(
        &mut state,
        |uids| {
            assert_eq!(uids, [10_123, 10_124]);
            Ok(vec![
                process(10_123, 123, ControlState::Frozen),
                process(10_124, 124, ControlState::Running),
            ])
        },
        |process| {
            if process.pid == 123 {
                (Some(SignalStopOwnership::SignalOnly), None)
            } else {
                (None, None)
            }
        },
        |_| Ok(true),
        |_| unreachable!("there is no cgroup"),
        |_| unreachable!("there is no cgroup"),
        |process| {
            calls.borrow_mut().push(process.pid);
            Ok(())
        },
        1_000,
    );
    assert_eq!(&*calls.borrow(), &[123]);
    assert!(state
        .manager_log
        .render(LogView::Debug)
        .contains("restart recovery: cgroup_thawed=0 sigcont_resumed=1 failed=0"));
}

#[test]
fn restart_recovery_looks_for_nothing_where_nothing_is_controlled() {
    let mut state = ReadOnlyState::default();
    state.app_config = vec![config(10_125, 40)];
    let before = state.manager_log.render(LogView::Debug);
    recover_stopped_managed_processes_after_restart(
        &mut state,
        |_: &[u32]| unreachable!("nothing is controlled"),
        |_: &RuntimeProcess| unreachable!("nothing is found"),
        |_: &RuntimeProcess| unreachable!("nothing is found"),
        |_: &str| unreachable!("nothing is found"),
        |_: &RuntimeProcess| unreachable!("nothing is found"),
        |_: &RuntimeProcess| unreachable!("nothing is found"),
        1_000,
    );
    assert_eq!(state.manager_log.render(LogView::Debug), before);
}

#[test]
fn restart_recovery_records_its_calls_in_order() {
    let calls = RefCell::new(Vec::new());
    let mut state = ReadOnlyState::default();
    state.app_config = vec![config(10_123, 20)];
    let mut port = RecoveryPort::new(
        |process: &RuntimeProcess| {
            calls.borrow_mut().push(("validate", process.pid));
            Ok(process.pid != 124)
        },
        |_: &str| unreachable!("there is no cgroup"),
        |_: &RuntimeProcess| unreachable!("there is no cgroup"),
        |process: &RuntimeProcess| {
            calls.borrow_mut().push(("resume", process.pid));
            Ok(())
        },
    );
    recover_managed_with(
        &mut state,
        |_: &[u32]| {
            Ok(vec![
                process(10_123, 123, ControlState::Frozen),
                process(10_123, 124, ControlState::Frozen),
            ])
        },
        |_: &RuntimeProcess| (Some(SignalStopOwnership::SignalOnly), None),
        &mut port,
        1_000,
    );
    drop(port);
    assert_eq!(
        &*calls.borrow(),
        &[("validate", 123), ("resume", 123), ("validate", 124)]
    );
    assert!(state
        .manager_log
        .render(LogView::Debug)
        .contains("restart recovery: cgroup_thawed=0 sigcont_resumed=1 failed=1"));
}

/// The actions of one pass over an application, and the operations that it logs.
fn system_aware(binder_available: bool, transacts: bool, refuse: bool) -> (Vec<i32>, String) {
    let frozen = RefCell::new(Vec::new());
    let mut state = RuntimeControlState::default();
    let mut one = process(10_123, 123, ControlState::Running);
    one.cgroup_freeze_path = Some("/x/apps/cgroup.freeze".to_owned());
    if transacts {
        one.binder_state = Some("binder_queue active_sync_transaction".to_owned());
    }
    let _ = run_system_aware_pass(
        &mut state,
        &[config(10_123, 30)],
        PassContext {
            settings: &[0; 256],
            foreground_uids: &[],
            binder_available,
            timestamp_ms: 0,
        },
        DeviceCalls {
            discover_processes: |_: &str, _: u32| Ok(vec![one.clone()]),
            freeze_process: |process: &RuntimeProcess| {
                frozen.borrow_mut().push(process.pid);
                if refuse {
                    Err(DaemonError::system("refused"))
                } else {
                    Ok(())
                }
            },
            unfreeze_process: no_promotion,
            validate_process: |_: &RuntimeProcess| Ok(true),
            sample_rx_bytes: |_: u32, _: &str| Ok(None),
            terminate_process: no_promotion,
            recorded_ownership: no_record,
            promote_signal_stop: no_promotion,
            protected_reason: no_protection,
        },
    );
    (frozen.into_inner(), state.operation_log.to_json())
}

#[test]
fn system_aware_passes_follow_the_freezer_backend() {
    let (frozen, log) = system_aware(true, false, false);
    assert_eq!(frozen, [123]);
    assert!(log.contains("cgroup and binder freezers available"));

    let (frozen, log) = system_aware(true, true, false);
    assert!(frozen.is_empty());
    assert!(log.contains("binder transaction active"));

    let (_, log) = system_aware(false, false, false);
    assert!(log.contains("cgroup or binder freezer unavailable"));

    let (_, log) = system_aware(true, false, true);
    assert!(log.contains("refused"));
}
