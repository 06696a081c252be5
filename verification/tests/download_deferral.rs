use freezeit_daemon::app::controller::entry::{run_control_pass_with_sampling, BackendCalls};
use freezeit_daemon::app::controller::state::RuntimeControlState;
use freezeit_daemon::app::download_deferral::{
    parse_uid_rx_bytes, DownloadDeferral, DownloadDeferralAction, UidRxSample,
    DOWNLOAD_THRESHOLD_BYTES_PER_SEC,
};
use freezeit_daemon::app::error::DaemonError;
use freezeit_daemon::app::freezer_backend::{
    BackendEnvironment, FreezeDecision, SystemAwareCgroupBinderBackend,
};
use freezeit_daemon::domain::policy::{FreezePolicy, ManagedApp, ProtectedReason};
use freezeit_daemon::domain::runtime::{ControlState, ProcessState, RuntimeProcess};
use freezeit_daemon::protocol::records::ManagerAppConfigRecord;
use freezeit_daemon::sys::procfs::SignalStopOwnership;

fn no_record(_pid: i32, _start: u64) -> Result<Option<SignalStopOwnership>, DaemonError> {
    Ok(None)
}

fn no_promotion(_process: &RuntimeProcess) -> Result<(), DaemonError> {
    Ok(())
}

fn no_protection(_package: &str, _system: bool) -> Option<ProtectedReason> {
    None
}

fn decide(
    app: &ManagedApp,
    policy: &FreezePolicy,
    processes: &[RuntimeProcess],
    environment: BackendEnvironment,
) -> FreezeDecision {
    SystemAwareCgroupBinderBackend::new(environment).can_freeze(app, policy, processes)
}

fn decide_after_error(
    policy: &FreezePolicy,
    error: &DaemonError,
    environment: BackendEnvironment,
) -> FreezeDecision {
    SystemAwareCgroupBinderBackend::new(environment).fallback_after_freeze_apply_error(policy, error)
}

/// The calls that a pass makes besides those that each test scripts.
fn calls(
    binder_available: bool,
) -> BackendCalls<
    impl FnMut(i32, u64) -> Result<Option<SignalStopOwnership>, DaemonError>,
    impl FnMut(&RuntimeProcess) -> Result<(), DaemonError>,
    impl FnMut(&str, bool) -> Option<ProtectedReason>,
    impl FnMut(&ManagedApp, &FreezePolicy, &[RuntimeProcess], BackendEnvironment) -> FreezeDecision,
    impl FnMut(&FreezePolicy, &DaemonError, BackendEnvironment) -> FreezeDecision,
> {
    BackendCalls {
        recorded_ownership: no_record,
        promote_signal_stop: no_promotion,
        protected_reason: no_protection,
        can_freeze: decide,
        fallback_after_freeze_apply_error: decide_after_error,
        binder_available,
    }
}

#[test]
fn parses_android_16_netstats_uid_rx_bytes() {
    let dump = r#"
      mAppUidStatsMap: OK
      mAppUidStatsMap:
        uid rxBytes rxPackets txBytes txPackets
        10502 131259371 87762 796372 15107
        10140 489026 831 288329 842
      mStatsMapA:
    "#;

    let values = parse_uid_rx_bytes(dump).expect("netstats table parses");
    assert_eq!(values.get(&10_502), Some(&131_259_371));
    assert_eq!(values.get(&10_140), Some(&489_026));
}

#[test]
fn active_cloud_download_postpones_freeze() {
    let mut deferral = DownloadDeferral::default();
    assert_eq!(
        deferral.evaluate(
            10_123,
            "com.baidu.netdisk",
            UidRxSample::Value(1_000),
            1_000,
        ),
        DownloadDeferralAction::Postpone
    );
    assert_eq!(
        deferral.evaluate(
            10_123,
            "com.baidu.netdisk",
            UidRxSample::Value(1_000 + DOWNLOAD_THRESHOLD_BYTES_PER_SEC + 1),
            2_000,
        ),
        DownloadDeferralAction::Postpone
    );
}

#[test]
fn threshold_is_strictly_greater_than_five_mib_per_second() {
    let mut deferral = DownloadDeferral::default();
    deferral.evaluate(
        10_124,
        "com.quark.clouddrive",
        UidRxSample::Value(2_000),
        1_000,
    );
    assert_eq!(
        deferral.evaluate(
            10_124,
            "com.quark.clouddrive",
            UidRxSample::Value(2_000 + DOWNLOAD_THRESHOLD_BYTES_PER_SEC),
            2_000,
        ),
        DownloadDeferralAction::Proceed
    );
}

#[test]
fn sampling_failure_is_fail_safe_for_candidate_packages() {
    let mut deferral = DownloadDeferral::default();
    assert_eq!(
        deferral.evaluate(10_125, "com.pikpak.android", UidRxSample::Failed, 1_000,),
        DownloadDeferralAction::Postpone
    );
    assert_eq!(
        deferral.evaluate(10_126, "com.example.reader", UidRxSample::Failed, 1_000,),
        DownloadDeferralAction::Proceed
    );
}

#[test]
fn control_pass_records_postpone_while_download_is_active() {
    let config = [ManagerAppConfigRecord {
        uid: 10_123,
        mode: 30,
        permissive: false,
    }];
    let process = RuntimeProcess {
        pid: 123,
        uid: 10_123,
        package_name: "com.baidu.netdisk".to_owned(),
        process_name: "com.baidu.netdisk".to_owned(),
        proc_state: ProcessState::Cached,
        control_state: ControlState::Running,
        cgroup_freeze_path: Some("/sys/fs/cgroup/uid_10123/cgroup.freeze".to_owned()),
        binder_state: Some("idle".to_owned()),
        start_time_ticks: Some(1),
        last_seen_at_ms: 0,
    };
    let mut state = RuntimeControlState::default();
    let mut sample = 1_000;
    let mut freezes = 0;

    for timestamp_ms in [1_000, 2_000] {
        run_control_pass_with_sampling(
            &mut state,
            &config,
            &[],
            |_, _| Ok(vec![process.clone()]),
            |_| {
                freezes += 1;
                Ok(())
            },
            |_| Ok(()),
            |_| Ok(true),
            |_, _| {
                let value = sample;
                sample += DOWNLOAD_THRESHOLD_BYTES_PER_SEC + 1;
                Ok(Some(value))
            },
            &[],
            timestamp_ms,
            |_| Ok(()),
            calls(false),
        )
        .unwrap();
    }

    assert_eq!(freezes, 0);
    assert!(state.operation_log.to_json().contains("download activity"));
}

#[test]
fn non_candidate_app_never_invokes_netstats_sampler() {
    let config = [ManagerAppConfigRecord {
        uid: 10_200,
        mode: 30,
        permissive: false,
    }];
    let process = RuntimeProcess {
        pid: 200,
        uid: 10_200,
        package_name: "com.example.reader".to_owned(),
        process_name: "com.example.reader".to_owned(),
        proc_state: ProcessState::Cached,
        control_state: ControlState::Running,
        cgroup_freeze_path: Some("/sys/fs/cgroup/uid_10200/cgroup.freeze".to_owned()),
        binder_state: Some("idle".to_owned()),
        start_time_ticks: Some(1),
        last_seen_at_ms: 0,
    };
    let mut state = RuntimeControlState::default();
    let mut samples = 0;

    run_control_pass_with_sampling(
        &mut state,
        &config,
        &[],
        |_, _| Ok(vec![process.clone()]),
        |_| Ok(()),
        |_| Ok(()),
        |_| Ok(true),
        |_, _| {
            samples += 1;
            Ok(Some(1))
        },
        &[],
        1_000,
        |_| Ok(()),
        calls(false),
    )
    .unwrap();

    assert_eq!(samples, 0);
}
