use std::cell::{Cell, RefCell};
use std::collections::BTreeMap;

use freezeit_daemon::app::compatibility::RuntimeEnvironment;
use freezeit_daemon::app::controller::startup::{
    detect_runtime_environment, read_only_state_with_diagnostics,
    startup_read_only_state_from_paths, sync_loaded_config_to_hook, DeviceOutputs, DiagnosticState,
    StartupFacts,
};
use freezeit_daemon::app::error::{DaemonError, IoKind};
use freezeit_daemon::app::health::{HealthStatus, ModuleHealth};
use freezeit_daemon::app::logging::{LogLevel, LogRecord, LogView};
use freezeit_daemon::app::operation_log::OperationLog;
use freezeit_daemon::config::loader::{load_policy_files_recovering, DaemonPaths};
use freezeit_daemon::domain::capability::{CapabilityName, ControlCapability};
use freezeit_daemon::domain::operation::{ControlAction, ControlOperation, OperationResult};
use freezeit_daemon::protocol::manager_v1::app_config::{
    encode_app_config, encode_xposed_config_payload,
};
use freezeit_daemon::protocol::manager_v1::chart::RealtimeSample;
use freezeit_daemon::protocol::manager_v1::frame::{
    encode_frame, parse_frame, ManagerCommand, ManagerFrame,
};
use freezeit_daemon::protocol::manager_v1::handle::{
    handle_manager_command, handle_read_only_command,
};
use freezeit_daemon::protocol::manager_v1::port::ManagerPort;
use freezeit_daemon::protocol::manager_v1::realtime::RealtimeSampler;
use freezeit_daemon::protocol::manager_v1::state::ReadOnlyState;
use freezeit_daemon::protocol::records::{ManagerAppConfigRecord, ManagerFreezeStatusRecord};
use freezeit_daemon::protocol::xposed::{classify_bridge_error, HookBridgeStatus};

const NOW_MS: u128 = 1_700_000_000_000;

/// A file system kept in memory.
struct Files {
    entries: RefCell<BTreeMap<String, Entry>>,
    writes: Cell<usize>,
}

enum Entry {
    Directory,
    File(Vec<u8>),
}

impl Files {
    fn new() -> Self {
        Files {
            entries: RefCell::new(BTreeMap::new()),
            writes: Cell::new(0),
        }
    }

    fn write(&self, path: &str, content: impl AsRef<[u8]>) {
        self.entries
            .borrow_mut()
            .insert(path.to_owned(), Entry::File(content.as_ref().to_vec()));
    }

    fn create_dir(&self, path: &str) {
        self.entries
            .borrow_mut()
            .insert(path.to_owned(), Entry::Directory);
    }

    fn store(&self, path: &str, content: &[u8]) -> Result<(), DaemonError> {
        if let Some(Entry::Directory) = self.entries.borrow().get(path) {
            return Err(DaemonError::io(IoKind::Other, "is a directory"));
        }
        self.writes.set(self.writes.get() + 1);
        self.write(path, content);
        Ok(())
    }

    fn load(&self, path: &str) -> Result<Vec<u8>, DaemonError> {
        match self.entries.borrow().get(path) {
            Some(Entry::File(content)) => Ok(content.clone()),
            Some(Entry::Directory) => Err(DaemonError::io(IoKind::Other, "is a directory")),
            None => Err(DaemonError::io(IoKind::NotFound, "No such file or directory")),
        }
    }

    fn remove(&self, path: &str) -> Result<(), DaemonError> {
        self.load(path)?;
        self.entries.borrow_mut().remove(path);
        Ok(())
    }

    fn text(&self, path: &str) -> String {
        String::from_utf8(self.load(path).expect("file exists")).expect("file is utf-8")
    }

    fn names(&self) -> Vec<String> {
        self.entries.borrow().keys().cloned().collect()
    }
}

/// Answers a request against the files and a scripted hook.
fn manage<H>(
    frame: &ManagerFrame,
    state: &mut ReadOnlyState,
    files: &Files,
    hook: H,
) -> Result<Vec<u8>, DaemonError>
where
    H: FnMut(&[u8]) -> Result<bool, DaemonError>,
{
    let mut port = ManagerPort::new(
        hook,
        |path: &str| files.load(path),
        |path: &str, content: &[u8]| files.store(path, content),
        |path: &str| files.remove(path),
        |_: &[u8]| RealtimeSample::default(),
    );
    handle_manager_command(frame, state, &mut RealtimeSampler::default(), NOW_MS, &mut port)
}

fn manager_frame(command: ManagerCommand, payload: &[u8]) -> ManagerFrame {
    parse_frame(&encode_frame(command, payload).unwrap()).expect("manager frame parses")
}

/// What a desktop machine shows at startup: none of the device's commands are there.
fn plain_facts() -> StartupFacts {
    let nothing = DeviceOutputs {
        model: None,
        android_version: None,
        sdk: None,
        fingerprint: None,
        kernel: None,
    };
    StartupFacts {
        module_prop: None,
        changelog: None,
        log: None,
        policy: load_policy_files_recovering(Ok(None), Ok(None), Ok(None)),
        packages: Vec::new(),
        runtime: detect_runtime_environment(
            &nothing,
            &Some("Linux version 6.1.0 (builder@host) #1 SMP".to_owned()),
            "linux",
            "x86_64",
            false,
        ),
        cluster_num: 1,
        ext_memory_mib: 0,
        capabilities: Vec::new(),
        hook_health: Err(DaemonError::system("Connection refused")),
        now_ms: NOW_MS,
    }
}

#[test]
fn get_prop_info_returns_legacy_six_line_payload() {
    let state = ReadOnlyState::default();

    let payload =
        handle_read_only_command(ManagerCommand::GetPropInfo, &state).expect("prop info succeeds");
    let text = String::from_utf8(payload).expect("payload is utf-8");
    let lines = text.lines().collect::<Vec<_>>();

    assert!(lines.len() >= 6);
    assert_eq!(lines[0], "freezeit");
    assert_eq!(lines[1], "Freezeit");
    assert_eq!(lines[11], "degraded");
    assert_eq!(lines[12], "unknown");
}

#[test]
fn get_settings_returns_legacy_256_byte_block() {
    let state = ReadOnlyState::default();

    let payload =
        handle_read_only_command(ManagerCommand::GetSettings, &state).expect("settings succeeds");

    assert_eq!(payload.len(), 256);
    assert_eq!(payload[0], 8);
    assert_eq!(payload[2], 10);
    assert_eq!(payload[3], 4);
    assert_eq!(payload[4], 20);
    assert_eq!(payload[13], 1);
}

#[test]
fn app_config_read_and_write_remain_manager_compatible() {
    let files = Files::new();
    let mut state = ReadOnlyState::default();
    state.app_config_path = Some("appcfg.txt".to_owned());
    state.app_config = vec![
        ManagerAppConfigRecord {
            uid: 10_000,
            mode: 20,
            permissive: true,
        },
    ];

    let payload =
        handle_read_only_command(ManagerCommand::GetAppCfg, &state).expect("app cfg succeeds");
    assert_eq!(payload.len(), 12);

    let set_payload = encode_app_config(&[ManagerAppConfigRecord {
        uid: 10_000,
        mode: 30,
        permissive: false,
    }]);
    let frame = manager_frame(ManagerCommand::SetAppCfg, &set_payload);
    let response = manage(&frame, &mut state, &files, |payload| {
        assert!(String::from_utf8_lossy(payload).contains("10000uid10000"));
        Ok(true)
    })
    .expect("set app cfg succeeds");
    assert_eq!(response, b"success");
    assert_eq!(
        state.app_config,
        vec![ManagerAppConfigRecord {
            uid: 10_000,
            mode: 30,
            permissive: false,
        }]
    );
    let info = state.manager_log.render(LogView::Info);
    assert!(info.contains("配置变化"));
    assert!(info.contains("10000uid10000"));
    assert!(info.contains("20->30"));
}

#[test]
fn set_app_label_logs_legacy_label_update_summary() {
    let files = Files::new();
    let mut state = ReadOnlyState::default();
    let label_path = "applabel.txt";
    state.app_label_path = Some(label_path.to_owned());
    let frame = manager_frame(
        ManagerCommand::SetAppLabel,
        "10000 Example App\n10001 Other App\n".as_bytes(),
    );

    let response =
        manage(&frame, &mut state, &files, |_| Ok(true)).expect("set app label succeeds");

    assert_eq!(response, b"success");
    let info = state.manager_log.render(LogView::Info);
    assert!(info.contains("更新 2 款应用名称"));
    assert!(info.contains("[Example App]"));
    assert!(info.contains("[Other App]"));
    assert_eq!(
        files.text(label_path),
        "10000 Example App\n10001 Other App\n"
    );
}

#[test]
fn set_app_cfg_restores_file_state_and_hook_when_new_hook_sync_fails() {
    let files = Files::new();
    let app_config_path = "appcfg.txt";
    files.write(app_config_path, "10000uid10000 20 1\n");
    let mut state = ReadOnlyState::default();
    state.app_config_path = Some(app_config_path.to_owned());
    state.app_config = vec![ManagerAppConfigRecord {
        uid: 10_000,
        mode: 20,
        permissive: true,
    }];
    let frame = manager_frame(
        ManagerCommand::SetAppCfg,
        &encode_app_config(&[ManagerAppConfigRecord {
            uid: 10_000,
            mode: 30,
            permissive: false,
        }]),
    );
    let mut hook_payloads = Vec::new();

    let response = manage(&frame, &mut state, &files, |payload| {
        hook_payloads.push(payload.to_vec());
        Ok(hook_payloads.len() != 1)
    })
    .expect("hook rejection is reported without corrupting persistence");

    assert_eq!(response, b"failure");
    assert_eq!(
        files.text(app_config_path),
        "10000uid10000 20 1\n"
    );
    assert_eq!(state.app_config[0].mode, 20);
    assert_eq!(hook_payloads.len(), 2, "old hook config must be restored");
    assert_eq!(files.names(), vec!["appcfg.txt".to_owned()]);
}

#[test]
fn set_app_cfg_noop_preserves_package_names_and_file_bytes() {
    let files = Files::new();
    let app_config_path = "appcfg.txt";
    let original = "com.example.first 30 1\ncom.example.second 40 0\n";
    files.write(app_config_path, original);
    let mut state = ReadOnlyState::default();
    state.app_config_path = Some(app_config_path.to_owned());
    state.app_config = vec![
        ManagerAppConfigRecord {
            uid: 10_001,
            mode: 30,
            permissive: true,
        },
        ManagerAppConfigRecord {
            uid: 10_002,
            mode: 40,
            permissive: false,
        },
    ];
    let frame = manager_frame(
        ManagerCommand::SetAppCfg,
        &encode_app_config(&state.app_config),
    );

    let response = manage(&frame, &mut state, &files, |_| Ok(true))
        .expect("no-op config save succeeds");

    assert_eq!(response, b"success");
    assert_eq!(files.text(app_config_path), original);
}

#[test]
fn set_app_cfg_change_preserves_existing_package_token() {
    let files = Files::new();
    let app_config_path = "appcfg.txt";
    files.write(app_config_path, "com.example.first 30 1\n");
    let mut state = ReadOnlyState::default();
    state.app_config_path = Some(app_config_path.to_owned());
    state.app_config = vec![ManagerAppConfigRecord {
        uid: 10_001,
        mode: 30,
        permissive: true,
    }];
    let frame = manager_frame(
        ManagerCommand::SetAppCfg,
        &encode_app_config(&[ManagerAppConfigRecord {
            uid: 10_001,
            mode: 20,
            permissive: false,
        }]),
    );

    let response = manage(&frame, &mut state, &files, |_| Ok(true))
        .expect("changed config save succeeds");

    assert_eq!(response, b"success");
    assert_eq!(
        files.text(app_config_path),
        "com.example.first 20 0\n"
    );
}

#[test]
fn set_app_cfg_noop_preserves_comments_blank_lines_and_spacing() {
    let files = Files::new();
    let app_config_path = "appcfg.txt";
    let original = "# user note\n\ncom.example.first   30   1\n";
    files.write(app_config_path, original);
    let mut state = ReadOnlyState::default();
    state.app_config_path = Some(app_config_path.to_owned());
    state.app_config = vec![ManagerAppConfigRecord {
        uid: 10_001,
        mode: 30,
        permissive: true,
    }];
    let frame = manager_frame(
        ManagerCommand::SetAppCfg,
        &encode_app_config(&state.app_config),
    );
    manage(&frame, &mut state, &files, |_| Ok(true)).expect("no-op config save succeeds");

    assert_eq!(files.text(app_config_path), original);
    assert_eq!(files.writes.get(), 0);
}

#[test]
fn set_app_cfg_rebuilds_existing_records_when_config_file_is_missing() {
    let files = Files::new();
    let app_config_path = "appcfg.txt";
    let mut state = ReadOnlyState::default();
    state.app_config_path = Some(app_config_path.to_owned());
    state.app_config = vec![ManagerAppConfigRecord {
        uid: 10_001,
        mode: 30,
        permissive: true,
    }];
    let frame = manager_frame(
        ManagerCommand::SetAppCfg,
        &encode_app_config(&state.app_config),
    );

    manage(&frame, &mut state, &files, |_| Ok(true)).expect("missing config is rebuilt");

    assert_eq!(
        files.text(app_config_path),
        "10001uid10001 30 1\n"
    );
}

#[test]
fn write_commands_do_not_report_success_without_persistence_paths() {
    let files = Files::new();
    let mut state = ReadOnlyState::default();
    let app_cfg = manager_frame(
        ManagerCommand::SetAppCfg,
        &encode_app_config(&[ManagerAppConfigRecord {
            uid: 10_000,
            mode: 30,
            permissive: false,
        }]),
    );
    assert!(manage(&app_cfg, &mut state, &files, |_| Ok(true)).is_err());

    let labels = manager_frame(ManagerCommand::SetAppLabel, b"10000 Example App\n");
    assert!(manage(&labels, &mut state, &files, |_| Ok(true)).is_err());

    let settings = manager_frame(ManagerCommand::SetSettingsVar, &[13, 0]);
    let response = manage(&settings, &mut state, &files, |_| Ok(true)).unwrap();
    assert_ne!(response, b"success");
}

#[test]
fn empty_app_config_still_returns_legacy_placeholder_record() {
    let state = ReadOnlyState::default();

    let payload =
        handle_read_only_command(ManagerCommand::GetAppCfg, &state).expect("app cfg succeeds");

    assert_eq!(payload.len(), 12);
}

#[test]
fn set_app_config_reports_failure_when_hook_rejects_payload() {
    let files = Files::new();
    let mut state = ReadOnlyState::default();
    state.app_config_path = Some("appcfg.txt".to_owned());
    let payload = encode_app_config(&[ManagerAppConfigRecord {
        uid: 10_000,
        mode: 30,
        permissive: false,
    }]);
    let frame = manager_frame(ManagerCommand::SetAppCfg, &payload);

    let response =
        manage(&frame, &mut state, &files, |_| Ok(false)).expect("set app cfg handled");

    assert_eq!(response, b"failure");
}

#[test]
fn set_settings_var_updates_legacy_setting_byte() {
    let files = Files::new();
    let mut state = ReadOnlyState::default();
    state.settings_path = Some("settings.db".to_owned());
    let frame = manager_frame(ManagerCommand::SetSettingsVar, &[13, 0]);

    let response = manage(&frame, &mut state, &files, |_| Ok(true))
        .expect("set settings var succeeds");

    assert_eq!(response, b"success");
    assert_eq!(state.settings[13], 0);
    let info = state.manager_log.render(LogView::Info);
    assert!(info.ends_with("]  ⚙️设置成功\n"));
    assert!(!info.contains("[13]:0"));
}

#[test]
fn set_settings_var_rejects_invalid_switch_value() {
    let files = Files::new();
    let mut state = ReadOnlyState::default();
    let original = state.settings[13];
    let frame = manager_frame(ManagerCommand::SetSettingsVar, &[13, 2]);

    let response =
        manage(&frame, &mut state, &files, |_| Ok(true)).expect("set settings var handled");

    let text = String::from_utf8(response).expect("response text");
    assert!(text.contains("开关值错误"));
    assert_eq!(state.settings[13], original);
}

#[test]
fn get_log_filters_in_daemon_using_setting_byte_30() {
    let mut state = ReadOnlyState::default();
    state.manager_log.clear(0);
    state
        .manager_log
        .push(LogRecord::legacy_text(1_000, "🧊冻结 demo"));
    state.manager_log.push(LogRecord::diagnostic(
        LogLevel::Debug,
        2_000,
        "daemon active: apps=1",
    ));

    state.settings[30] = 0;
    let info = handle_read_only_command(ManagerCommand::GetLog, &state).unwrap();
    assert_eq!(
        String::from_utf8(info).unwrap(),
        "[08:00:01]  🧊冻结 demo\n"
    );

    state.settings[30] = 1;
    let debug = handle_read_only_command(ManagerCommand::GetLog, &state).unwrap();
    assert!(String::from_utf8(debug)
        .unwrap()
        .contains("daemon active: apps=1"));
}

#[test]
fn setting_index_30_accepts_only_log_view_values() {
    let files = Files::new();
    for value in 0..=4 {
        let mut state = ReadOnlyState::default();
        state.settings_path = Some("settings.db".to_owned());
        let response = manage(
            &manager_frame(ManagerCommand::SetSettingsVar, &[30, value]),
            &mut state,
            &files,
            |_| Ok(true),
        )
        .expect("log level setting is handled");
        assert_eq!(response, b"success", "value {value} must be accepted");
        assert_eq!(state.settings[30], value);
    }

    let mut state = ReadOnlyState::default();
    let response = manage(
        &manager_frame(ManagerCommand::SetSettingsVar, &[30, 5]),
        &mut state,
        &files,
        |_| Ok(true),
    )
    .expect("invalid log level is handled");
    assert_ne!(response, b"success");
    assert_eq!(state.settings[30], 0);
}

#[test]
fn get_uid_time_returns_managed_legacy_cpu_records_with_delta() {
    let files = Files::new();
    let uid_time_path = "show_uid_stat";
    files.write(uid_time_path, "10042: 1000 2000\n10043: 9000 9000\n10044: 0 0\n");

    let mut state = ReadOnlyState::default();
    state.uid_time_path = uid_time_path.to_owned();
    state.app_config = vec![
        ManagerAppConfigRecord {
            uid: 10042,
            mode: 30,
            permissive: false,
        },
        ManagerAppConfigRecord {
            uid: 10043,
            mode: 40,
            permissive: false,
        },
    ];

    let first = manage(
        &manager_frame(ManagerCommand::GetUidTime, &[]),
        &mut state,
        &files,
        |_| Ok(true),
    )
    .expect("uid time succeeds");
    assert_eq!(first.len(), 12);
    assert_eq!(
        first
            .chunks_exact(4)
            .map(|chunk| i32::from_le_bytes(chunk.try_into().unwrap()))
            .collect::<Vec<_>>(),
        vec![10042, 3, 3]
    );

    files.write(uid_time_path, "10042: 4000 4000\n10043: 9000 9000\n");
    let second = manage(
        &manager_frame(ManagerCommand::GetUidTime, &[]),
        &mut state,
        &files,
        |_| Ok(true),
    )
    .expect("uid time succeeds");
    assert_eq!(
        second
            .chunks_exact(4)
            .map(|chunk| i32::from_le_bytes(chunk.try_into().unwrap()))
            .collect::<Vec<_>>(),
        vec![10042, 5, 8]
    );
}

#[test]
fn realtime_info_returns_legacy_image_and_23_int_payload() {
    let files = Files::new();
    let mut state = ReadOnlyState::default();
    let mut request = Vec::new();
    request.extend_from_slice(&20_u32.to_le_bytes());
    request.extend_from_slice(&24_u32.to_le_bytes());
    request.extend_from_slice(&123_u32.to_le_bytes());
    let frame = manager_frame(ManagerCommand::GetRealTimeInfo, &request);

    let response =
        manage(&frame, &mut state, &files, |_| Ok(true)).expect("realtime info succeeds");

    let image_bytes = 20 * 24 * 4;
    assert_eq!(response.len(), image_bytes + 23 * 4);
    assert!(
        response[..image_bytes].iter().any(|byte| *byte != 0),
        "legacy manager chart image must not be blank"
    );
    assert_eq!(
        i32::from_le_bytes(
            response[image_bytes + 4..image_bytes + 8]
                .try_into()
                .unwrap()
        ),
        123
    );
}

#[test]
fn remaining_legacy_commands_return_compatibility_payloads() {
    let files = Files::new();
    let mut state = ReadOnlyState::default();
    state.changelog = "### local changelog\ncompatibility fixes".to_owned();
    state.operation_log_json = "{\"operations\":[{\"action\":\"freeze\"}]}".to_owned();

    let changelog = manage(
        &manager_frame(ManagerCommand::GetChangelog, &[]),
        &mut state,
        &files,
        |_| Ok(true),
    )
    .expect("changelog succeeds");
    assert!(String::from_utf8(changelog)
        .unwrap()
        .contains("local changelog"));

    let uid_time = manage(
        &manager_frame(ManagerCommand::GetUidTime, &[]),
        &mut state,
        &files,
        |_| Ok(true),
    )
    .expect("uid time succeeds");
    assert_eq!(uid_time.len() % 12, 0);

    let proc_state = manage(
        &manager_frame(ManagerCommand::GetProcState, &[]),
        &mut state,
        &files,
        |_| Ok(true),
    )
    .expect("proc state succeeds");
    let proc_state = String::from_utf8(proc_state).unwrap();
    assert!(proc_state.contains("进程冻结状态"));
    assert!(proc_state.contains("后台很干净，一个黑名单应用都没有"));
    assert!(!proc_state.contains("process state:"));

    let cleared = manage(
        &manager_frame(ManagerCommand::ClearLog, &[]),
        &mut state,
        &files,
        |_| Ok(true),
    )
    .expect("clear log succeeds");
    assert!(cleared.is_empty());
    assert!(state.manager_log.is_empty());

    let diagnostics = manage(
        &manager_frame(ManagerCommand::GetOperationLogJson, &[]),
        &mut state,
        &files,
        |_| Ok(true),
    )
    .expect("structured diagnostics still available");
    assert_eq!(diagnostics, b"{\"operations\":[{\"action\":\"freeze\"}]}");
}

#[test]
fn get_freeze_status_returns_manager_five_int_rows() {
    let files = Files::new();
    let mut state = ReadOnlyState::default();
    state.freeze_status = vec![
        ManagerFreezeStatusRecord {
            uid: 10_042,
            foreground: true,
            state: 1,
            seconds: 12,
            process_count: 2,
        },
        ManagerFreezeStatusRecord {
            uid: 10_043,
            foreground: false,
            state: 3,
            seconds: 34,
            process_count: 1,
        },
    ];

    let payload = manage(
        &manager_frame(ManagerCommand::GetFreezeStatus, &[]),
        &mut state,
        &files,
        |_| Ok(true),
    )
    .expect("freeze status succeeds");

    assert_eq!(payload.len(), 40);
    let values = payload
        .chunks_exact(4)
        .map(|bytes| i32::from_le_bytes(bytes.try_into().unwrap()))
        .collect::<Vec<_>>();
    assert_eq!(values, vec![10_042, 1, 1, 12, 2, 10_043, 0, 3, 34, 1]);
}

#[test]
fn get_log_includes_original_emoji_operation_entries() {
    let mut state = ReadOnlyState::default();
    state.manager_log.push(LogRecord::operation(
        ControlOperation {
            operation_id: 7,
            timestamp_ms: 42,
            package_name: "com.example.app".to_owned(),
            uid: 10_123,
            pid_list: vec![123, 124],
            action: ControlAction::Freeze,
            backend: "cgroup.freeze".to_owned(),
            reason: "delay elapsed".to_owned(),
            result: OperationResult::Success,
            details: "process_count=2".to_owned(),
        },
    ));

    let payload = handle_read_only_command(ManagerCommand::GetLog, &state).expect("log succeeds");
    let text = String::from_utf8(payload).expect("log is utf-8");

    assert_eq!(text, "[08:00:00]  ❄️冻结 com.example.app 2进程\n");
    assert!(!text.contains("UID:"));
    assert!(!text.contains("PID:"));
    assert!(!text.contains("方式:"));
    assert!(!text.contains("结果:"));
    assert!(!text.contains("原因:"));
    assert!(!text.contains("backend="));
    assert!(!text.contains("result="));
    assert!(!text.contains("reason="));
    assert!(!text.contains("operationId="));
    assert!(!text.contains("action=freeze"));
}

#[test]
fn startup_state_loads_legacy_module_files() {
    let mut settings = ReadOnlyState::default().settings;
    settings[13] = 0;
    let facts = StartupFacts {
        module_prop: Some(
            "id=freezeit.test\nname=Freezeit Test\nversion=3.2.0\nversionCode=320\n\
             author=jark006\n"
                .to_owned(),
        ),
        changelog: Some("### local changelog\nfixed manager UI".to_owned()),
        log: Some(
            "[2026-07-04] 启动冻它\n\
             [2026-07-04] WARNING ROM fingerprint mismatch; continuing startup\n\
             baseline=old-device\n\
             device=current-device\n\
             [2026-07-04] loaded config\n"
                .to_owned(),
        ),
        policy: load_policy_files_recovering(
            Ok(Some("10000uid10000 31 0\n".to_owned())),
            Ok(None),
            Ok(Some(settings)),
        ),
        ..plain_facts()
    };

    let state = startup_read_only_state_from_paths(
        &DaemonPaths::from_module_dir("/data/adb/modules/freezeit"),
        facts,
    );

    assert_eq!(state.module_id, "freezeit.test");
    assert_eq!(state.module_name, "Freezeit Test");
    assert_eq!(state.version, "3.2.0");
    assert_eq!(state.version_code, 320);
    assert_eq!(state.settings[13], 0);
    assert_eq!(
        state.app_config,
        vec![ManagerAppConfigRecord {
            uid: 10_000,
            mode: 31,
            permissive: false,
        }]
    );
    let debug = state.manager_log.render(LogView::Debug);
    assert!(debug.contains("启动冻它"));
    assert!(debug.contains("loaded config"));
    assert!(debug.contains("daemon active"));
    assert!(!debug.contains("ROM fingerprint mismatch"));
    assert!(state.changelog.contains("local changelog"));
    assert_ne!(state.android_version, "Unknown");
    assert_ne!(state.kernel_version, "Unknown");
}

#[test]
fn startup_log_keeps_verified_cpp_lines_in_info_and_diagnostics_in_debug() {
    let facts = StartupFacts {
        log: Some(
            "[12:34:56]  ⚙️设置成功\n\
             daemon active: apps=1\n\
             hook config synced: managed_apps=1 settings=256\n"
                .to_owned(),
        ),
        ..plain_facts()
    };
    let mut state = startup_read_only_state_from_paths(
        &DaemonPaths::from_module_dir("/data/adb/modules/freezeit"),
        facts,
    );

    state.settings[30] = 0;
    let info = String::from_utf8(
        handle_read_only_command(ManagerCommand::GetLog, &state).expect("INFO log"),
    )
    .expect("INFO is UTF-8");
    assert_eq!(info, "[12:34:56]  ⚙️设置成功\n");
    assert!(!info.contains("daemon active:"));
    assert!(!info.contains("hook config synced:"));
    assert!(!info.contains("[INFO]"));

    state.settings[30] = 1;
    let debug = String::from_utf8(
        handle_read_only_command(ManagerCommand::GetLog, &state).expect("DEBUG log"),
    )
    .expect("DEBUG is UTF-8");
    assert!(debug.contains("[12:34:56]  ⚙️设置成功"));
    assert!(debug.contains("daemon active: apps=1"));
    assert!(debug.contains("hook config synced: managed_apps=1 settings=256"));
}

#[test]
fn xposed_config_payload_translates_manager_binary_records() {
    let settings = [1_u8, 0, 30];
    let payload = encode_app_config(&[
        ManagerAppConfigRecord {
            uid: 10_000,
            mode: 30,
            permissive: true,
        },
        ManagerAppConfigRecord {
            uid: 10_001,
            mode: 40,
            permissive: false,
        },
    ]);

    let text = String::from_utf8(encode_xposed_config_payload(&settings, &payload).unwrap())
        .expect("xposed config is utf-8");

    assert_eq!(text, "1 0 30\n10000uid10000\n10000");
}

#[test]
fn xposed_config_payload_keeps_empty_config_parseable_by_hook_split() {
    let settings = [1_u8, 0, 30];
    let payload = encode_app_config(&[ManagerAppConfigRecord {
        uid: 10_001,
        mode: 40,
        permissive: false,
    }]);

    let text = String::from_utf8(encode_xposed_config_payload(&settings, &payload).unwrap())
        .expect("xposed config is utf-8");

    assert_eq!(text, "1 0 30\n \n ");
}

#[test]
fn missing_hook_evaluates_degraded_and_blocks_control() {
    let health = ModuleHealth::evaluate(true, true, false, true, true, true);

    assert_eq!(health.status, HealthStatus::Degraded);
    assert!(!health.is_safe_for_control());
    assert!(health
        .degraded_reasons
        .iter()
        .any(|reason| reason.contains("hook")));
}

#[test]
fn missing_hook_bridge_classifies_as_fail_closed_degraded_health() {
    let bridge = classify_bridge_error(&DaemonError::system("Connection refused"));
    assert!(matches!(bridge, HookBridgeStatus::Missing(_)));
    assert!(!bridge.is_ready_for_control());

    let health = ModuleHealth::with_hook_bridge(
        true,
        true,
        true,
        true,
        true,
        bridge.is_ready_for_control(),
        Some(&format!("hook bridge {}", bridge.health_label())),
    );

    assert_eq!(health.status, HealthStatus::Degraded);
    assert!(!health.is_safe_for_control());
}

#[test]
fn capability_failures_are_reported_as_degraded_reasons() {
    let health = ModuleHealth::with_capability_failures(
        true, true, true, true, false, false, false, false, false,
    );

    assert_eq!(health.status, HealthStatus::Degraded);
    assert!(health
        .degraded_reasons
        .iter()
        .any(|reason| reason.contains("package inventory")));
    assert!(health
        .degraded_reasons
        .iter()
        .any(|reason| reason.contains("freezer")));
    assert!(health
        .degraded_reasons
        .iter()
        .any(|reason| reason.contains("network")));
    assert!(health
        .degraded_reasons
        .iter()
        .any(|reason| reason.contains("wake-lock")));
    assert!(health
        .degraded_reasons
        .iter()
        .any(|reason| reason.contains("screen-state")));
}

#[test]
fn v2_diagnostic_commands_return_json_payloads() {
    let diagnostics = DiagnosticState {
        health: ModuleHealth::evaluate(true, true, false, true, true, true),
        capabilities: vec![ControlCapability::missing(
            CapabilityName::LsposedSystemServer,
            "hook missing",
        )],
        operation_log: OperationLog::new(8),
    };
    let state = read_only_state_with_diagnostics(&diagnostics);

    assert!(String::from_utf8(
        handle_read_only_command(ManagerCommand::GetHealthReport, &state).unwrap()
    )
    .unwrap()
    .contains("\"status\":\"degraded\""));
    assert!(String::from_utf8(
        handle_read_only_command(ManagerCommand::GetCapabilityReport, &state).unwrap()
    )
    .unwrap()
    .contains("\"capabilities\""));
    assert!(String::from_utf8(
        handle_read_only_command(ManagerCommand::GetOperationLogJson, &state).unwrap()
    )
    .unwrap()
    .contains("\"operations\""));
    assert!(String::from_utf8(
        handle_read_only_command(ManagerCommand::RunSelfCheck, &state).unwrap()
    )
    .unwrap()
    .contains("\"controlAllowed\":false"));
}

#[test]
fn v2_diagnostic_command_ids_match_published_contract() {
    assert_eq!(
        ManagerCommand::try_from(71).unwrap(),
        ManagerCommand::GetHealthReport
    );
    assert_eq!(
        ManagerCommand::try_from(72).unwrap(),
        ManagerCommand::GetCapabilityReport
    );
    assert_eq!(
        ManagerCommand::try_from(73).unwrap(),
        ManagerCommand::GetCompatibilityBaseline
    );
    assert_eq!(
        ManagerCommand::try_from(74).unwrap(),
        ManagerCommand::GetOperationLogJson
    );
    assert_eq!(
        ManagerCommand::try_from(75).unwrap(),
        ManagerCommand::RunSelfCheck
    );
    assert!(ManagerCommand::try_from(70).is_err());
}

#[test]
fn v2_compatibility_baseline_command_returns_report_json() {
    let mut state = ReadOnlyState::default();
    state.compatibility_report_json = RuntimeEnvironment::new(
        "CPH2653",
        "16",
        36,
        "runtime-fingerprint",
        "6.6.89",
        true,
        true,
        true,
    )
    .compatibility_json(&[]);

    let text = String::from_utf8(
        handle_read_only_command(ManagerCommand::GetCompatibilityBaseline, &state).unwrap(),
    )
    .unwrap();

    assert!(text.contains("\"deviceModel\":\"CPH2653\""));
    assert!(text.contains("\"androidVersion\":\"16\""));
    assert!(text.contains("\"capabilities\""));
}

#[test]
fn startup_loaded_config_can_be_synchronized_to_hook_without_manager_save() {
    let mut state = ReadOnlyState::default();
    state.app_config = vec![ManagerAppConfigRecord {
        uid: 10_123,
        mode: 30,
        permissive: true,
    }];

    let response = sync_loaded_config_to_hook(&mut state, |payload| {
        let text = String::from_utf8_lossy(payload);
        assert!(text.contains("10123uid10123"));
        assert!(text.lines().nth(2).unwrap_or_default().contains("10123"));
        Ok(true)
    }, NOW_MS)
    .expect("startup sync succeeds");

    assert!(response);
    assert!(state
        .manager_log
        .render(LogView::Debug)
        .contains("hook config synced"));
}

#[test]
fn a_configuration_that_cannot_be_encoded_is_not_sent_to_the_hook() {
    let mut state = ReadOnlyState::default();
    state.app_config = vec![ManagerAppConfigRecord {
        uid: 110_000,
        mode: 30,
        permissive: true,
    }];

    let before = state.manager_log.render(LogView::Debug);
    let result = sync_loaded_config_to_hook(
        &mut state,
        |_: &[u8]| unreachable!("nothing is sent"),
        NOW_MS,
    );
    assert!(result.is_err());
    assert_eq!(state.manager_log.render(LogView::Debug), before);
}
