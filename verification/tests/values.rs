use std::collections::BTreeMap;

use freezeit_daemon::app::controller::rules::{
    manager_policy_delay_ms, manager_wakeup_interval_ms,
};
use freezeit_daemon::app::controller::startup::{
    cpu_core_count, ext_memory_mib, kernel_release, load_policy_with_retries,
};
use freezeit_daemon::app::error::DaemonError;
use freezeit_daemon::app::freezer_backend::{
    discover_capabilities, BackendEnvironment, DecisionAction, SystemAwareCgroupBinderBackend,
};
use freezeit_daemon::app::operation_log::{
    legacy_timestamped_line, operation_to_legacy_text, OperationLog,
};
use freezeit_daemon::app::package_inventory::{
    find_first_uid, find_last_uid, parse_cmd_package_list, reconcile_uid, PackageRecord,
};
use freezeit_daemon::config::loader::load_policy_files_recovering;
use freezeit_daemon::domain::capability::{CapabilityName, CapabilityStatus, RiskLevel};
use freezeit_daemon::domain::operation::{ControlAction, ControlOperation, OperationResult};
use freezeit_daemon::domain::policy::{FreezePolicy, ManagedApp, ProtectedReason};
use freezeit_daemon::domain::runtime::{ControlState, ProcessState, RuntimeProcess};
use freezeit_daemon::protocol::manager_v1::app_config::{
    decode_app_config, encode_app_config, format_config_change_log, merge_app_config_records,
    write_uid_token,
};
use freezeit_daemon::protocol::manager_v1::chart::{
    draw_realtime_chart, realtime_request_validation_response,
};
use freezeit_daemon::protocol::manager_v1::frame::{
    checksum, encode_frame, parse_frame, ManagerCommand, MAX_PAYLOAD_LEN,
};
use freezeit_daemon::protocol::manager_v1::labels::{
    decode_app_label_payload, format_label_update_log,
};
use freezeit_daemon::protocol::manager_v1::persistence::{
    parse_legacy_uid_token, split_line_ending,
};
use freezeit_daemon::protocol::manager_v1::realtime::{
    battery_power_mw_from_readings, battery_switches, cpu_delta_usage_percent, frequency_mhz,
    is_thermal_zone, normalize_temperature_milli_celsius, parse_meminfo_mib, parse_proc_stat,
    proc_stat_is_countable, readings_are_measurable, CpuHistory, MemInfoMib, ProcStatSample,
};
use freezeit_daemon::protocol::manager_v1::state::{legacy_default_settings, normalize_settings};
use freezeit_daemon::protocol::manager_v1::uid_time::{encode_uid_time, parse_uid_cpu_time_line};
use freezeit_daemon::protocol::manager_v1::update::check_setting;
use freezeit_daemon::protocol::records::ManagerAppConfigRecord;
use freezeit_daemon::sys::binder::BinderFreezerCapability;

fn record(uid: u32, mode: i32, permissive: bool) -> ManagerAppConfigRecord {
    ManagerAppConfigRecord {
        uid,
        mode,
        permissive,
    }
}

fn operation(operation_id: u64, details: &str) -> ControlOperation {
    ControlOperation {
        operation_id,
        timestamp_ms: 42,
        package_name: "com.example.app".to_owned(),
        uid: 10_123,
        pid_list: vec![123, 124],
        action: ControlAction::Freeze,
        backend: "cgroup.freeze".to_owned(),
        reason: "delay elapsed".to_owned(),
        result: OperationResult::Success,
        details: details.to_owned(),
    }
}

#[test]
fn frame_bytes_are_length_command_checksum_and_payload() {
    assert_eq!(checksum(&[0b1010, 0b0110]), 0b1100);
    let bytes = encode_frame(ManagerCommand::SetSettingsVar, &[13, 1]).expect("short payload");
    assert_eq!(bytes[..4], [2, 0, 0, 0]);
    assert_eq!(bytes[4], ManagerCommand::SetSettingsVar.number());
    assert_eq!(bytes[5], 13 ^ 1);
    assert_eq!(bytes[6..], [13, 1]);
    let parsed = parse_frame(&bytes).expect("whole frame");
    assert_eq!(parsed.command, ManagerCommand::SetSettingsVar);
    assert_eq!(parsed.payload, vec![13, 1]);

    let mut changed = bytes.clone();
    changed[7] ^= 4;
    assert!(matches!(parse_frame(&changed), Err(DaemonError::Protocol(_))));
    assert!(matches!(parse_frame(&bytes[..5]), Err(DaemonError::Protocol(_))));
    assert!(matches!(parse_frame(&bytes[..7]), Err(DaemonError::Protocol(_))));
    let mut unknown = encode_frame(ManagerCommand::GetLog, &[]).expect("empty payload");
    unknown[4] = 200;
    assert!(parse_frame(&unknown).is_err());
    assert!(encode_frame(ManagerCommand::GetLog, &vec![0; MAX_PAYLOAD_LEN + 1]).is_err());
}

#[test]
fn application_records_are_twelve_bytes_each() {
    let records = [record(10_123, 30, true), record(10_124, -1, false)];
    let bytes = encode_app_config(&records);
    assert_eq!(bytes.len(), 24);
    assert_eq!(bytes[..12], [0x8b, 0x27, 0, 0, 30, 0, 0, 0, 1, 0, 0, 0]);
    assert_eq!(decode_app_config(&bytes).expect("whole records"), records);
    assert!(decode_app_config(&bytes[..23]).is_err());
}

#[test]
fn requests_change_known_records_and_add_new_ones() {
    let previous = [record(1, 30, true), record(2, 40, false)];
    let merged = merge_app_config_records(&previous, &[record(2, 20, true), record(3, 10, false)]);
    assert_eq!(
        merged,
        vec![record(1, 30, true), record(2, 20, true), record(3, 10, false)]
    );
    assert_eq!(
        format_config_change_log(&previous, &merged).as_deref(),
        Some("配置变化：\n\n40->20 [2uid2] 宽松:0->1")
    );
    assert_eq!(format_config_change_log(&previous, &previous), None);
}

#[test]
fn uid_tokens_have_at_least_five_digits() {
    assert_eq!(write_uid_token(123), "00123uid123");
    assert_eq!(write_uid_token(110_000), "110000uid110000");
    assert_eq!(parse_legacy_uid_token("00123uid123"), Some(123));
}

#[test]
fn lines_part_from_their_ends() {
    for (line, body, end) in [
        ("a\r\n", "a", "\r\n"),
        ("a\n", "a", "\n"),
        ("a\r", "a\r", ""),
        ("\n", "", "\n"),
        ("", "", ""),
    ] {
        assert_eq!(split_line_ending(line), (body.to_owned(), end.to_owned()));
    }
}

#[test]
fn old_settings_are_filled_up() {
    let defaults = legacy_default_settings();
    assert_eq!(normalize_settings(None), defaults);
    let old = normalize_settings(Some(vec![7, 1, 55]));
    assert_eq!(old.len(), 256);
    assert_eq!(old[..3], [8, 1, 55]);
    assert_eq!(old[3..], defaults[3..]);
    assert_eq!(normalize_settings(Some(old.clone())), old);
}

#[test]
fn settings_have_ranges() {
    for (index, value) in [(2, 60), (3, 5), (4, 3), (5, 2), (6, 3), (10, 1), (29, 0), (30, 4)] {
        assert_eq!(check_setting(index, value), None);
    }
    assert_eq!(
        check_setting(2, 61).as_deref(),
        Some("超时冻结参数错误, 欲设为:61")
    );
    assert_eq!(
        check_setting(3, 6).as_deref(),
        Some("定时解冻参数错误 欲设为:6")
    );
    assert_eq!(
        check_setting(4, 2).as_deref(),
        Some("超时杀死参数错误, 欲设为:2")
    );
    assert_eq!(
        check_setting(7, 1).as_deref(),
        Some("设置项不存在, [7]:[1]")
    );
}

#[test]
fn delays_and_intervals_come_from_the_settings() {
    let mut settings = vec![0; 256];
    settings[2] = 10;
    settings[4] = 20;
    settings[3] = 4;
    assert_eq!(manager_policy_delay_ms(&record(1, 30, false), &settings), 10_000);
    assert_eq!(manager_policy_delay_ms(&record(1, 10, false), &settings), 20_000);
    assert_eq!(manager_policy_delay_ms(&record(1, 40, false), &settings), 0);
    assert_eq!(manager_wakeup_interval_ms(&settings), Some(3_600_000));
    assert_eq!(manager_wakeup_interval_ms(&[]), None);
}

#[test]
fn processor_load_is_the_share_of_busy_time() {
    let mut last = None;
    let first = Some(ProcStatSample {
        total: 1_000,
        idle: 900,
    });
    assert_eq!(cpu_delta_usage_percent(&mut last, first), 0);
    let second = Some(ProcStatSample {
        total: 1_300,
        idle: 1_000,
    });
    assert_eq!(cpu_delta_usage_percent(&mut last, second), 66);
    assert_eq!(cpu_delta_usage_percent(&mut last, None), 0);
    assert_eq!(last.map(|sample| sample.total), Some(1_300));
}

#[test]
fn processor_times_are_summed() {
    let text = "cpu  1 2 3 4 5 6 7 8 9 10\ncpu1 1 1 1 1\nintr 5\n";
    assert!(proc_stat_is_countable(text));
    let snapshot = parse_proc_stat(text);
    let summary = snapshot.summary.expect("summary line");
    assert!(summary.idle <= summary.total);
    assert!(snapshot.cores[0].is_none());
    assert!(snapshot.cores[1].is_some());
    assert!(!proc_stat_is_countable(
        "cpu  18446744073709551615 1 0 0 0 0 0 0\n"
    ));
}

#[test]
fn memory_is_counted_in_mebibytes() {
    assert_eq!(
        parse_meminfo_mib(
            "MemTotal:       4194304 kB\nMemAvailable: 2048 kB\nSwapTotal: 1023 kB\nBuffers: 9 kB\n"
        ),
        MemInfoMib {
            mem_total: 4096,
            mem_available: 2,
            swap_total: 0,
            swap_free: 0,
        }
    );
    assert_eq!(ext_memory_mib("MemTotal: 1 kB\nSwapTotal:  2097152 kB\n"), 2048);
    assert_eq!(ext_memory_mib(""), 0);
}

#[test]
fn temperatures_are_millidegrees_in_range() {
    assert_eq!(normalize_temperature_milli_celsius(41), Some(41_000));
    assert_eq!(normalize_temperature_milli_celsius(41_500), Some(41_500));
    assert_eq!(normalize_temperature_milli_celsius(0), None);
    assert_eq!(normalize_temperature_milli_celsius(150_001), None);
}

#[test]
fn frequencies_are_megahertz() {
    assert_eq!(frequency_mhz(1_804_800), 1_804);
}

#[test]
fn reported_power_needs_no_other_reading() {
    assert!(readings_are_measurable(
        Some(-2_500_000),
        Some(i64::MIN),
        Some(i64::MIN),
        Some(i64::MAX),
        Some(i64::MAX),
        true,
        true
    ));
    assert_eq!(
        battery_power_mw_from_readings(
            Some(-2_500_000),
            Some(i64::MIN),
            Some(i64::MIN),
            Some(i64::MAX),
            Some(i64::MAX),
            true,
            true
        ),
        Some(2_500)
    );
    assert!(!readings_are_measurable(
        None,
        None,
        None,
        Some(i64::MAX),
        Some(2),
        false,
        false
    ));
    assert_eq!(
        battery_power_mw_from_readings(
            None,
            Some(4_000_000),
            Some(-1_000_000),
            None,
            None,
            false,
            true
        ),
        Some(8_000)
    );
}

#[test]
fn realtime_requests_name_a_drawable_size() {
    let request = |height: u32, width: u32| {
        let mut payload = height.to_le_bytes().to_vec();
        payload.extend_from_slice(&width.to_le_bytes());
        payload.extend_from_slice(&0_u32.to_le_bytes());
        realtime_request_validation_response(&payload)
    };
    assert_eq!(request(20, 20), Ok(None));
    assert_eq!(
        request(19, 20),
        Ok(Some("宽高不符合, height[19] width[20]".as_bytes().to_vec()))
    );
    assert_eq!(
        request(600, 600),
        Ok(Some(
            "实时信息响应过大, height[600] width[600]".as_bytes().to_vec()
        ))
    );
    assert!(request(u32::MAX, u32::MAX).is_err());
    assert_eq!(
        realtime_request_validation_response(&[1, 2]),
        Ok(Some("实时信息需要12字节, 实际收到[2]".as_bytes().to_vec()))
    );
}

#[test]
fn charts_have_four_bytes_for_each_pixel() {
    let image = draw_realtime_chart(20, 24, &[0; 23], &CpuHistory::default());
    assert_eq!(image.len(), 20 * 24 * 4);
}

#[test]
fn processor_times_of_applications_are_listed_by_time() {
    assert_eq!(parse_uid_cpu_time_line(" 10042 : 1999 2002"), Some((10_042, 4)));
    assert_eq!(parse_uid_cpu_time_line("10042: 1"), None);
    let mut totals = BTreeMap::from([(10_043, 1), (10_099, 7)]);
    let bytes = encode_uid_time(
        &mut totals,
        &[record(10_042, 30, false), record(10_043, 20, false)],
        "10042: 2000 1000\n10043: 5000 0\n10044: 9000 0\n",
    );
    let values: Vec<i32> = bytes
        .chunks_exact(4)
        .map(|chunk| i32::from_le_bytes(chunk.try_into().unwrap()))
        .collect();
    assert_eq!(values, vec![10_043, 4, 5, 10_042, 3, 3]);
    assert_eq!(totals, BTreeMap::from([(10_042, 3), (10_043, 5)]));
}

#[test]
fn labels_that_are_not_text_are_read_with_replacements() {
    assert_eq!(
        decode_app_label_payload(b"10000  Example App \n\n10001\n10002 a\xffb\n"),
        vec!["Example App".to_owned(), "a\u{fffd}b".to_owned()]
    );
    assert_eq!(format_label_update_log(&[]), "更新 0 款应用名称");
    assert_eq!(
        format_label_update_log(&["a\tb".to_owned(), "c".to_owned()]),
        "更新 2 款应用名称:\n\n[a b] [c]"
    );
}

#[test]
fn package_lists_give_names_and_uids() {
    let packages =
        parse_cmd_package_list("package:com.a uid:10001\nnoise\npackage:com.b uid:10002,1010002\n");
    assert_eq!(packages.len(), 2);
    assert_eq!(packages[1].package_name, "com.b");
    assert_eq!(packages[1].uid, 10_002);
    assert_eq!(find_first_uid(&packages, "com.a"), Some(10_001));
    assert_eq!(find_last_uid(&packages, "com.c"), None);
}

#[test]
fn changed_packages_are_noticed() {
    let app = ManagedApp {
        package_name: "com.a".to_owned(),
        user_id: 0,
        uid: 10_001,
        label: "A".to_owned(),
        is_system_app: false,
        protected_reason: None,
        policy_id: "p".to_owned(),
        last_seen_baseline: "b".to_owned(),
    };
    let package = |name: &str, uid: u32| PackageRecord {
        package_name: name.to_owned(),
        uid,
    };
    assert_eq!(reconcile_uid(&app, &package("com.a", 10_001)), Ok(()));
    assert!(reconcile_uid(&app, &package("com.a", 10_002)).is_err());
    assert!(reconcile_uid(&app, &package("com.b", 10_001)).is_err());
}

#[test]
fn the_backend_skips_protected_and_postpones_busy_applications() {
    let environment = BackendEnvironment {
        cgroup_available: true,
        binder_available: true,
        network_available: true,
        wakelock_available: true,
        screen_state_available: true,
        hook_fresh: true,
    };
    let backend = SystemAwareCgroupBinderBackend::new(environment);
    let mut app = ManagedApp {
        package_name: "com.a".to_owned(),
        user_id: 0,
        uid: 10_001,
        label: "A".to_owned(),
        is_system_app: false,
        protected_reason: None,
        policy_id: "p".to_owned(),
        last_seen_baseline: "b".to_owned(),
    };
    let mut process = RuntimeProcess {
        pid: 5,
        uid: 10_001,
        package_name: "com.a".to_owned(),
        process_name: "com.a".to_owned(),
        proc_state: ProcessState::Cached,
        control_state: ControlState::Running,
        cgroup_freeze_path: Some("/sys/fs/cgroup/uid_10001/pid_5/cgroup.freeze".to_owned()),
        binder_state: Some("binder_queue idle".to_owned()),
        start_time_ticks: Some(1),
        last_seen_at_ms: 0,
    };
    let policy = FreezePolicy::from_legacy_mode(30, false);
    assert_eq!(
        backend.can_freeze(&app, &policy, &[process.clone()]).action,
        DecisionAction::Freeze
    );
    process.binder_state = Some("binder_queue active_sync_transaction".to_owned());
    assert_eq!(
        backend.can_freeze(&app, &policy, &[process.clone()]).action,
        DecisionAction::Postpone
    );
    app.protected_reason = Some(ProtectedReason::InputMethod);
    assert_eq!(
        backend.can_freeze(&app, &policy, &[process]).action,
        DecisionAction::Skip
    );
}

#[test]
fn operations_are_written_as_json_with_escapes() {
    let mut log = OperationLog::new(2);
    log.push(operation(1, "dropped"));
    log.push(operation(2, "plain"));
    log.push(operation(3, "a \"quoted\" \\ line\nend"));
    assert_eq!(log.records().len(), 2);
    assert_eq!(log.records()[1].operation_id, 3);
    let json = log.to_json();
    assert!(json.starts_with("{\"operations\":[{\"operationId\":2,"));
    assert!(json.contains("\"details\":\"a \\\"quoted\\\" \\\\ line\\nend\""));
    assert!(!json.contains("dropped"));
}

#[test]
fn log_lines_carry_the_time_of_day() {
    assert_eq!(legacy_timestamped_line(0, "x"), "[08:00:00]  x\n");
    assert_eq!(
        legacy_timestamped_line(57_599_000, "x"),
        "[23:59:59]  x\n"
    );
    assert_eq!(legacy_timestamped_line(57_600_000, "x"), "[00:00:00]  x\n");
    assert!(operation_to_legacy_text(&operation(1, "")).contains("com.example.app"));
}

#[test]
fn device_facts_are_read_from_their_texts() {
    let names: Vec<String> = ["cpu0", "cpu1", "cpufreq", "cpu", "online"]
        .iter()
        .map(|name| name.to_string())
        .collect();
    assert_eq!(cpu_core_count(&names), 2);
    assert_eq!(cpu_core_count(&[]), 1);
    assert_eq!(
        kernel_release("Linux version 6.1.0 (builder@host)").as_deref(),
        Some("6.1.0")
    );
    assert_eq!(kernel_release("Linux version"), None);
}

#[test]
fn loading_the_policy_is_tried_again() {
    let mut calls = 0;
    let loaded = load_policy_with_retries(
        || {
            calls += 1;
            Ok(load_policy_files_recovering(
                Ok(if calls < 3 {
                    None
                } else {
                    Some("com.a 30 0\n".to_owned())
                }),
                Ok(None),
                Ok(None),
            ))
        },
        3,
    );
    assert!(loaded.expect("readable files").is_available());
    assert_eq!(calls, 3);
    assert_eq!(
        load_policy_with_retries(|| Err(DaemonError::system("unreadable")), 3),
        Err(DaemonError::system("unreadable"))
    );
}

#[test]
fn capabilities_tell_what_was_found() {
    let binder = BinderFreezerCapability {
        status: CapabilityStatus::Degraded,
        device_path: None,
        evidence: "probe failed".to_owned(),
    };
    let found = discover_capabilities(
        true,
        &Err(DaemonError::system("no cgroup file system")),
        &binder,
        9,
    );
    let summary: Vec<_> = found
        .iter()
        .map(|c| (c.name, c.status, c.evidence.as_str(), c.risk_level))
        .collect();
    assert_eq!(
        summary,
        vec![
            (
                CapabilityName::Root,
                CapabilityStatus::Available,
                "effective user id",
                RiskLevel::Normal
            ),
            (
                CapabilityName::CgroupV2Freezer,
                CapabilityStatus::Missing,
                "no cgroup file system",
                RiskLevel::Disabled
            ),
            (
                CapabilityName::BinderFreezer,
                CapabilityStatus::Degraded,
                "probe failed",
                RiskLevel::Disabled
            ),
            (
                CapabilityName::SignalControl,
                CapabilityStatus::Available,
                "kill(2) available",
                RiskLevel::Caution
            ),
        ]
    );
}

#[test]
fn battery_switches_are_settings() {
    let mut settings = vec![0; 256];
    settings[15] = 1;
    assert_eq!(battery_switches(&settings), (false, true));
    assert_eq!(battery_switches(&settings[..15]), (false, false));
    assert!(is_thermal_zone("thermal_zone3"));
    assert!(!is_thermal_zone("cooling_device0"));
}
