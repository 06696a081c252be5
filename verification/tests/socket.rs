use std::cell::RefCell;

use freezeit_daemon::app::controller::entry::{run_control_pass, BackendCalls};
use freezeit_daemon::app::controller::live::{hook_is_told, thaw_disabled_control_state};
use freezeit_daemon::app::controller::port::ControlPort;
use freezeit_daemon::app::controller::state::RuntimeControlState;
use freezeit_daemon::app::error::{DaemonError, IoKind};
use freezeit_daemon::app::freezer_backend::{
    BackendEnvironment, FreezeDecision, SystemAwareCgroupBinderBackend,
};
use freezeit_daemon::domain::policy::{FreezePolicy, ManagedApp, ProtectedReason};
use freezeit_daemon::domain::runtime::{ControlState, ProcessState, RuntimeProcess};
use freezeit_daemon::protocol::manager_v1::frame::ManagerCommand;
use freezeit_daemon::protocol::manager_v1::state::ReadOnlyState;
use freezeit_daemon::protocol::records::ManagerAppConfigRecord;
use freezeit_daemon::protocol::xposed::XposedCommand;
use freezeit_daemon::sys::procfs::SignalStopOwnership;
use freezeit_daemon::sys::hook::{HealthPort, RequestPort};
use freezeit_daemon::sys::signal::{
    send_signal, signal_on, termination_target, SignalAction, SignalPort,
};
use freezeit_daemon::sys::socket::{
    apply_hook_health_result, execute_hook_health_work, hook_health_on, is_policy_mutation_command,
    prepare_hook_health_work, require_foreground_uids_for_control, require_xposed_success,
    run_freeze_sequence, run_unfreeze_sequence, should_run_control_pass, sync_hook_on,
    sync_hook_runtime_state, HookHealthResult, HookHealthWork,
};
use freezeit_daemon::sys::transfer::{
    advance_transfer, announced_length, begin_transfer, Direction, TransferEvent, TransferStep,
};

const NOW_MS: u128 = 1_700_000_000_000;

fn no_record(_pid: i32, _start: u64) -> Result<Option<SignalStopOwnership>, DaemonError> {
    Ok(None)
}

fn no_promotion(_process: &RuntimeProcess) -> Result<(), DaemonError> {
    Ok(())
}

fn no_protection(_package: &str, _system: bool) -> Option<ProtectedReason> {
    None
}

fn decide(
    app: &ManagedApp,
    policy: &FreezePolicy,
    processes: &[RuntimeProcess],
    environment: BackendEnvironment,
) -> FreezeDecision {
    SystemAwareCgroupBinderBackend::new(environment).can_freeze(app, policy, processes)
}

fn decide_after_error(
    policy: &FreezePolicy,
    error: &DaemonError,
    environment: BackendEnvironment,
) -> FreezeDecision {
    SystemAwareCgroupBinderBackend::new(environment).fallback_after_freeze_apply_error(policy, error)
}

/// The calls that a pass makes besides those that each test scripts.
fn calls(
    binder_available: bool,
) -> BackendCalls<
    impl FnMut(i32, u64) -> Result<Option<SignalStopOwnership>, DaemonError>,
    impl FnMut(&RuntimeProcess) -> Result<(), DaemonError>,
    impl FnMut(&str, bool) -> Option<ProtectedReason>,
    impl FnMut(&ManagedApp, &FreezePolicy, &[RuntimeProcess], BackendEnvironment) -> FreezeDecision,
    impl FnMut(&FreezePolicy, &DaemonError, BackendEnvironment) -> FreezeDecision,
> {
    BackendCalls {
        recorded_ownership: no_record,
        promote_signal_stop: no_promotion,
        protected_reason: no_protection,
        can_freeze: decide,
        fallback_after_freeze_apply_error: decide_after_error,
        binder_available,
    }
}

#[test]
fn stale_hook_sync_result_does_not_mark_new_config_as_synced() {
    let mut state = ReadOnlyState::default();
    let work = prepare_hook_health_work(&state);
    state.settings[0] ^= 1;

    apply_hook_health_result(
        &mut state,
        &work,
        HookHealthResult {
            sync_result: Some(Ok(true)),
            health_result: Ok("{\"status\":\"active\"}".to_owned()),
        },
        NOW_MS,
    );

    assert!(!state.hook_config_synced);
}

#[test]
fn hook_sync_result_rejects_a_reverted_payload_from_an_older_revision() {
    let mut state = ReadOnlyState::default();
    let work = prepare_hook_health_work(&state);

    // The encoded payload is equal again, but two committed policy changes
    // occurred while the Xposed request was in flight.
    state.settings[0] ^= 1;
    state.settings[0] ^= 1;
    state.config_revision = work.config_revision.wrapping_add(2);

    apply_hook_health_result(
        &mut state,
        &work,
        HookHealthResult {
            sync_result: Some(Ok(true)),
            health_result: Ok("{\"status\":\"active\"}".to_owned()),
        },
        NOW_MS,
    );

    assert!(!state.hook_config_synced);
}

#[test]
fn unavailable_hook_invalidates_the_last_synced_config() {
    let mut state = ReadOnlyState {
        hook_config_synced: true,
        ..ReadOnlyState::default()
    };
    let work = prepare_hook_health_work(&state);

    apply_hook_health_result(
        &mut state,
        &work,
        HookHealthResult {
            sync_result: None,
            health_result: Err(DaemonError::system("hook connection refused")),
        },
        NOW_MS,
    );

    assert!(!state.hook_config_synced);
}

#[test]
fn control_requires_a_confirmed_current_hook_config() {
    let mut state = ReadOnlyState {
        control_allowed: true,
        hook_health: "active".to_owned(),
        app_config: vec![ManagerAppConfigRecord {
            uid: 10_123,
            mode: 30,
            permissive: false,
        }],
        ..ReadOnlyState::default()
    };

    assert!(!should_run_control_pass(&state));
    state.hook_config_synced = true;
    assert!(should_run_control_pass(&state));
}

#[test]
fn optional_hook_failure_keeps_active_system_control_eligible() {
    let mut state = ReadOnlyState {
        app_config: vec![ManagerAppConfigRecord {
            uid: 10_123,
            mode: 30,
            permissive: false,
        }],
        ..ReadOnlyState::default()
    };
    let work = prepare_hook_health_work(&state);

    apply_hook_health_result(
        &mut state,
        &work,
        HookHealthResult {
            sync_result: Some(Ok(true)),
            health_result: Ok(
                r#"{"status":"degraded","system_control_status":"active","hook_health":{"hook_status":"active","hooks":[{"id":"broadcast#modern_queue","critical":false,"stage":"registration"}]}}"#.to_owned(),
            ),
        },
        NOW_MS,
    );

    assert_eq!(state.hook_health, "active");
    assert!(state.hook_config_synced);
    // Compatibility is independently derived from the real device. The host unit-test
    // runtime is intentionally not an approved Android target, so model a passed gate here.
    state.control_allowed = true;
    assert!(should_run_control_pass(&state));
}

#[test]
fn whole_frame_deadline_rejects_a_drip_feed() {
    let delay_ms = 40;
    let deadline_ms = 70;
    let mut now_ms = 0;
    let mut offset = 0;
    let mut step = begin_transfer(offset, 2, now_ms >= deadline_ms);
    let error = loop {
        match step {
            TransferStep::Continue(reached) => {
                offset = reached;
                now_ms += delay_ms;
                step = advance_transfer(
                    Direction::Read,
                    offset,
                    2,
                    TransferEvent::Moved(1),
                    now_ms >= deadline_ms,
                );
            }
            TransferStep::Complete => {
                panic!("the frame deadline must apply across partial reads")
            }
            TransferStep::Fail(error) => break error,
        }
    };

    assert!(matches!(error, DaemonError::Io(failure) if failure.kind == IoKind::TimedOut));
}

#[test]
fn disabled_control_thaws_every_runtime_tracked_freeze() {
    let config = vec![ManagerAppConfigRecord {
        uid: 10_123,
        mode: 30,
        permissive: false,
    }];
    let process = RuntimeProcess {
        pid: 321,
        uid: 10_123,
        package_name: "example.app".to_owned(),
        process_name: "example.app".to_owned(),
        proc_state: ProcessState::Cached,
        control_state: ControlState::Running,
        cgroup_freeze_path: None,
        binder_state: None,
        start_time_ticks: Some(1),
        last_seen_at_ms: 0,
    };
    let mut runtime = RuntimeControlState::default();
    run_control_pass(
        &mut runtime,
        &config,
        |_, _| Ok(vec![process.clone()]),
        |_| Ok(()),
        |_| Ok(()),
        &[],
        1_000,
        |_, _| Ok(None),
        no_promotion,
        calls(false),
    )
    .expect("freeze is tracked");

    let calls = RefCell::new(Vec::new());
    let mut state = ReadOnlyState::default();
    let mut port = ControlPort::new(
        |_: &str, _: u32| Ok(vec![process.clone()]),
        no_promotion,
        |process: &RuntimeProcess| {
            calls.borrow_mut().push(process.pid);
            Ok(())
        },
        |_: &RuntimeProcess| Ok(true),
        |_: u32, _: &str| Ok(None),
        no_promotion,
        no_record,
        no_promotion,
        no_protection,
        decide,
        decide_after_error,
    );
    thaw_disabled_control_state(&mut state, &mut runtime, &mut port, 2_000)
        .expect("tracked process thaws when control is disabled");

    assert_eq!(&*calls.borrow(), &[321]);
}

#[test]
fn runtime_hook_sync_updates_pending_and_requeues_failed_network_breaks() {
    let calls = RefCell::new(Vec::new());
    let outcome =
        sync_hook_runtime_state(&[10_001, 10_002], &[10_003, 10_004], |command, payload| {
            calls.borrow_mut().push((command, payload.to_vec()));
            let reply = if command == XposedCommand::BreakNetwork
                && payload == 10_004_u32.to_le_bytes()
            {
                0_i32.to_le_bytes().to_vec()
            } else {
                2_i32.to_le_bytes().to_vec()
            };
            Ok(reply)
        });

    assert!(outcome.pending_error.is_none());
    assert_eq!(outcome.failed_network_uids, vec![10_004]);
    assert_eq!(
        &*calls.borrow(),
        &[
            (
                XposedCommand::UpdatePending,
                [10_001_u32.to_le_bytes(), 10_002_u32.to_le_bytes()].concat(),
            ),
            (
                XposedCommand::BreakNetwork,
                10_003_u32.to_le_bytes().to_vec()
            ),
            (
                XposedCommand::BreakNetwork,
                10_004_u32.to_le_bytes().to_vec()
            ),
        ]
    );
}

#[test]
fn cgroup_unfreeze_always_finishes_with_sigcont() {
    let calls = RefCell::new(Vec::new());
    run_unfreeze_sequence(
        Some("/tmp/cgroup.freeze"),
        |_| {
            calls.borrow_mut().push("cgroup");
            Ok(())
        },
        || {
            calls.borrow_mut().push("binder");
            Ok(())
        },
        || {
            calls.borrow_mut().push("sigcont");
            Ok(())
        },
    )
    .unwrap();

    assert_eq!(&*calls.borrow(), &["cgroup", "binder", "sigcont"]);
}

#[test]
fn signal_only_unfreeze_sends_sigcont_without_other_backends() {
    let calls = RefCell::new(Vec::new());
    run_unfreeze_sequence(
        None,
        |_| -> Result<(), DaemonError> {
            calls.borrow_mut().push("cgroup");
            Ok(())
        },
        || {
            calls.borrow_mut().push("binder");
            Ok(())
        },
        || {
            calls.borrow_mut().push("sigcont");
            Ok(())
        },
    )
    .unwrap();

    assert_eq!(&*calls.borrow(), &["sigcont"]);
}

#[test]
fn sigcont_is_attempted_when_cgroup_and_binder_unfreeze_fail() {
    let calls = RefCell::new(Vec::new());
    let error = run_unfreeze_sequence(
        Some("/tmp/cgroup.freeze"),
        |_| {
            calls.borrow_mut().push("cgroup");
            Err(DaemonError::system("thaw"))
        },
        || {
            calls.borrow_mut().push("binder");
            Err(DaemonError::system("binder"))
        },
        || {
            calls.borrow_mut().push("sigcont");
            Ok(())
        },
    )
    .unwrap_err();

    assert_eq!(&*calls.borrow(), &["cgroup", "binder", "sigcont"]);
    assert!(error.message().contains("cgroup thaw failed"));
    assert!(error.message().contains("binder unfreeze failed"));
}

#[test]
fn a_refused_cgroup_freeze_releases_the_binder_again() {
    let calls = RefCell::new(Vec::new());
    let error = run_freeze_sequence(
        "/tmp/cgroup.freeze",
        || {
            calls.borrow_mut().push("freeze binder");
            Ok(())
        },
        |_| {
            calls.borrow_mut().push("freeze cgroup");
            Err(DaemonError::system("read only"))
        },
        || {
            calls.borrow_mut().push("unfreeze binder");
            Ok(())
        },
    )
    .unwrap_err();

    assert_eq!(
        &*calls.borrow(),
        &["freeze binder", "freeze cgroup", "unfreeze binder"]
    );
    assert!(error.message().contains("read only"));
}

#[test]
fn only_writes_are_policy_changes() {
    assert!(is_policy_mutation_command(ManagerCommand::SetAppCfg));
    assert!(is_policy_mutation_command(ManagerCommand::SetSettingsVar));
    assert!(!is_policy_mutation_command(ManagerCommand::GetLog));
}

#[test]
fn a_pass_needs_the_foreground_uids() {
    assert_eq!(
        require_foreground_uids_for_control(Ok(vec![10_123])),
        Ok(vec![10_123])
    );
    assert!(require_foreground_uids_for_control(Err(DaemonError::system("closed"))).is_err());
}

#[test]
fn the_hook_accepts_with_two() {
    assert!(require_xposed_success(XposedCommand::UpdatePending, &2_i32.to_le_bytes()).is_ok());
    assert!(require_xposed_success(XposedCommand::UpdatePending, &1_i32.to_le_bytes()).is_err());
    assert!(require_xposed_success(XposedCommand::UpdatePending, &[]).is_err());
}

#[test]
fn hook_work_sends_the_configuration_and_asks_for_health() {
    let state = ReadOnlyState::default();
    let work = prepare_hook_health_work(&state);
    assert!(work.needs_config_sync);
    let result = execute_hook_health_work(
        &work,
        |payload| {
            assert_eq!(Some(payload.to_vec()), work.xposed_payload);
            Ok(true)
        },
        || Ok("{\"status\":\"active\"}".to_owned()),
    );
    assert_eq!(result.sync_result, Some(Ok(true)));
    assert_eq!(result.health_result, Ok("{\"status\":\"active\"}".to_owned()));
}

#[test]
fn transfers_end_on_completion_closed_streams_and_errors() {
    assert!(matches!(
        advance_transfer(Direction::Read, 1, 2, TransferEvent::Moved(1), false),
        TransferStep::Complete
    ));
    assert!(matches!(
        advance_transfer(Direction::Read, 1, 2, TransferEvent::Moved(0), false),
        TransferStep::Fail(DaemonError::Io(failure)) if failure.kind == IoKind::UnexpectedEof
    ));
    assert!(matches!(
        advance_transfer(Direction::Write, 1, 2, TransferEvent::Moved(0), false),
        TransferStep::Fail(DaemonError::Io(failure)) if failure.kind == IoKind::WriteZero
    ));
    assert!(matches!(
        advance_transfer(Direction::Read, 1, 2, TransferEvent::Interrupted, false),
        TransferStep::Continue(1)
    ));
    assert!(announced_length(&[1, 0, 0, 0, 0, 0]).is_ok());
    assert!(announced_length(&[255, 255, 255, 255, 0, 0]).is_err());
}

#[test]
fn sent_stops_are_recorded() {
    let calls = RefCell::new(Vec::new());
    let sent = send_signal(
        123,
        SignalAction::Stop,
        |_, _| {
            calls.borrow_mut().push("kill");
            Ok(())
        },
        |_| {
            calls.borrow_mut().push("record");
            Ok(())
        },
        |_| {
            calls.borrow_mut().push("take");
            Ok(true)
        },
    );
    assert!(sent.is_ok());
    assert_eq!(&*calls.borrow(), &["kill", "record"]);
}

#[test]
fn a_freeze_that_succeeds_leaves_the_binder_frozen() {
    let calls = RefCell::new(Vec::new());
    run_freeze_sequence(
        "/tmp/cgroup.freeze",
        || {
            calls.borrow_mut().push("freeze binder");
            Ok(())
        },
        |path| {
            assert_eq!(path, "/tmp/cgroup.freeze");
            calls.borrow_mut().push("freeze cgroup");
            Ok(())
        },
        || unreachable!("nothing is rolled back"),
    )
    .unwrap();
    assert_eq!(&*calls.borrow(), &["freeze binder", "freeze cgroup"]);
}

#[test]
fn a_stop_that_cannot_be_recorded_is_taken_back() {
    let calls = RefCell::new(Vec::new());
    let mut port = SignalPort::new(
        |pid: i32, action: SignalAction| {
            calls.borrow_mut().push((pid, action.signal_number()));
            Ok(())
        },
        |_: i32| Err(DaemonError::system("ledger is read only")),
        |_: i32| unreachable!("nothing was recorded"),
    );
    let error = signal_on(123, SignalAction::Stop, &mut port).unwrap_err();
    drop(port);
    assert!(error.message().contains("ledger is read only"));
    assert_eq!(&*calls.borrow(), &[(123, 19), (123, 18)]);
}

#[test]
fn groups_are_never_signalled() {
    for pid in [0, -1, i32::MIN] {
        let mut port = SignalPort::new(
            |_: i32, _: SignalAction| unreachable!("no signal is sent"),
            |_: i32| unreachable!("nothing is recorded"),
            |_: i32| unreachable!("nothing is taken"),
        );
        assert!(signal_on(pid, SignalAction::Stop, &mut port).is_err());
        assert!(signal_on(pid, SignalAction::Continue, &mut port).is_err());
        assert_eq!(
            termination_target(pid),
            Err(DaemonError::system("refusing to SIGKILL non-positive pid"))
        );
    }
    assert_eq!(termination_target(123), Ok(123));
}

#[test]
fn the_hook_hears_of_pending_applications_first() {
    let calls = RefCell::new(Vec::new());
    let mut port = RequestPort::new(|command: XposedCommand, payload: &[u8]| {
        calls.borrow_mut().push((command, payload.to_vec()));
        if command == XposedCommand::UpdatePending {
            Err(DaemonError::system("bridge closed"))
        } else {
            Ok(2_i32.to_le_bytes().to_vec())
        }
    });
    let outcome = sync_hook_on(&[], &[10_003], &mut port);
    drop(port);
    assert!(outcome
        .pending_error
        .is_some_and(|error| error.contains("bridge closed")));
    assert!(outcome.failed_network_uids.is_empty());
    assert_eq!(
        &*calls.borrow(),
        &[
            (XposedCommand::UpdatePending, vec![]),
            (
                XposedCommand::BreakNetwork,
                10_003_u32.to_le_bytes().to_vec()
            ),
        ]
    );
}

#[test]
fn hook_work_without_a_payload_sends_no_configuration() {
    for (needs_config_sync, xposed_payload) in
        [(true, None), (false, Some(vec![1, 2])), (false, None)]
    {
        let work = HookHealthWork {
            needs_config_sync,
            xposed_payload,
            config_revision: 1,
        };
        let mut port = HealthPort::new(
            |_: &[u8]| unreachable!("no configuration is sent"),
            || Ok("{}".to_owned()),
        );
        let result = hook_health_on(&work, &mut port);
        let expected = if needs_config_sync {
            Some(Err(DaemonError::protocol(
                "failed to encode xposed config payload for sync",
            )))
        } else {
            None
        };
        assert_eq!(result.sync_result, expected);
        assert_eq!(result.health_result, Ok("{}".to_owned()));
    }
}

#[test]
fn only_an_active_hook_is_told() {
    let mut state = ReadOnlyState::default();
    for (health, told) in [("active", true), ("missing", false), ("Active", false), ("", false)] {
        state.hook_health = health.to_owned();
        assert_eq!(hook_is_told(&state), told);
    }
}
