use std::cell::{Cell, RefCell};
use std::collections::BTreeMap;

use freezeit_daemon::app::error::{DaemonError, IoKind};
use freezeit_daemon::protocol::manager_v1::app_config::{
    encode_app_config, encode_xposed_config_payload,
};
use freezeit_daemon::protocol::manager_v1::chart::{
    encode_realtime_info_with_sample, realtime_metrics_from_sample, RealtimeSample,
};
use freezeit_daemon::protocol::manager_v1::frame::{ManagerCommand, ManagerFrame};
use freezeit_daemon::protocol::manager_v1::handle::{
    encode_realtime_info_with_settings, handle_manager_command,
};
use freezeit_daemon::protocol::manager_v1::port::ManagerPort;
use freezeit_daemon::protocol::manager_v1::realtime::{
    battery_power_mw_from_readings, parse_proc_stat, select_temperature_milli_celsius, MemInfoMib,
    RealtimeSampler,
};
use freezeit_daemon::protocol::manager_v1::state::{legacy_default_settings, ReadOnlyState};
use freezeit_daemon::protocol::manager_v1::update::{
    set_app_config_with_persistence_writer, set_settings_var_with_writer,
};
use freezeit_daemon::protocol::records::{ManagerAppConfigRecord, ManagerFreezeStatusRecord};

const NOW_MS: u128 = 1_700_000_000_000;

/// A file system kept in memory.
struct Files {
    entries: RefCell<BTreeMap<String, Entry>>,
    writes: Cell<usize>,
}

enum Entry {
    Directory,
    File(Vec<u8>),
}

impl Files {
    fn new() -> Self {
        Files {
            entries: RefCell::new(BTreeMap::new()),
            writes: Cell::new(0),
        }
    }

    fn write(&self, path: &str, content: impl AsRef<[u8]>) {
        self.entries
            .borrow_mut()
            .insert(path.to_owned(), Entry::File(content.as_ref().to_vec()));
    }

    fn create_dir(&self, path: &str) {
        self.entries
            .borrow_mut()
            .insert(path.to_owned(), Entry::Directory);
    }

    fn store(&self, path: &str, content: &[u8]) -> Result<(), DaemonError> {
        if let Some(Entry::Directory) = self.entries.borrow().get(path) {
            return Err(DaemonError::io(IoKind::Other, "is a directory"));
        }
        self.writes.set(self.writes.get() + 1);
        self.write(path, content);
        Ok(())
    }

    fn load(&self, path: &str) -> Result<Vec<u8>, DaemonError> {
        match self.entries.borrow().get(path) {
            Some(Entry::File(content)) => Ok(content.clone()),
            Some(Entry::Directory) => Err(DaemonError::io(IoKind::Other, "is a directory")),
            None => Err(DaemonError::io(IoKind::NotFound, "No such file or directory")),
        }
    }

    fn remove(&self, path: &str) -> Result<(), DaemonError> {
        self.load(path)?;
        self.entries.borrow_mut().remove(path);
        Ok(())
    }

    fn text(&self, path: &str) -> String {
        String::from_utf8(self.load(path).expect("file exists")).expect("file is utf-8")
    }
}

/// Answers a request against the files and a scripted hook.
fn manage<H>(
    frame: &ManagerFrame,
    state: &mut ReadOnlyState,
    files: &Files,
    hook: H,
) -> Result<Vec<u8>, DaemonError>
where
    H: FnMut(&[u8]) -> Result<bool, DaemonError>,
{
    let mut port = ManagerPort::new(
        hook,
        |path: &str| files.load(path),
        |path: &str, content: &[u8]| files.store(path, content),
        |path: &str| files.remove(path),
        |_: &[u8]| RealtimeSample::default(),
    );
    handle_manager_command(frame, state, &mut RealtimeSampler::default(), NOW_MS, &mut port)
}

#[test]
fn battery_power_uses_usb_input_when_full_battery_reports_zero_current() {
    let power = battery_power_mw_from_readings(
        None,
        Some(4_446_000),
        Some(0),
        Some(4_902_000),
        Some(434_000),
        false,
        false,
    );

    assert_eq!(power, Some(2_127));
}

#[test]
fn battery_power_ignores_noise_level_battery_current() {
    let power = battery_power_mw_from_readings(
        Some(0),
        Some(4_439_000),
        Some(-52),
        Some(4_850_000),
        Some(497_000),
        false,
        false,
    );

    assert_eq!(power, Some(2_410));
}

#[test]
fn battery_power_honors_current_fix_milliamp_reading_when_discharging() {
    let power = battery_power_mw_from_readings(
        Some(0),
        Some(4_000_000),
        Some(-300),
        Some(0),
        Some(0),
        true,
        false,
    );

    assert_eq!(power, Some(1_200));
}

#[test]
fn realtime_cpu_usage_uses_proc_stat_deltas() {
    let mut sampler = RealtimeSampler::default();
    let mut sample = RealtimeSample {
        meminfo: MemInfoMib {
            mem_total: 4096,
            mem_available: 1024,
            swap_total: 2048,
            swap_free: 1024,
        },
        proc_stat: parse_proc_stat(
            "cpu  100 0 50 850 0 0 0 0 0 0\n\
             cpu0 50 0 25 425 0 0 0 0 0 0\n\
             cpu1 50 0 25 425 0 0 0 0 0 0\n",
        ),
        ..RealtimeSample::default()
    };

    let first = realtime_metrics_from_sample(777, &mut sampler, &sample);

    assert_eq!(first[20], 0);
    assert_eq!(first[12], 0);
    assert_eq!(first[13], 0);
    assert_eq!(first[1], 777);

    sample.proc_stat = parse_proc_stat(
        "cpu  160 0 90 950 0 0 0 0 0 0\n\
         cpu0 70 0 35 505 0 0 0 0 0 0\n\
         cpu1 150 0 25 425 0 0 0 0 0 0\n",
    );
    let second = realtime_metrics_from_sample(777, &mut sampler, &sample);

    assert_eq!(second[20], 50);
    assert_eq!(second[12], 27);
    assert_eq!(second[13], 100);
}

#[test]
fn realtime_chart_uses_persistent_sample_history() {
    let mut sampler = RealtimeSampler::default();
    let mut request = Vec::new();
    request.extend_from_slice(&48_u32.to_le_bytes());
    request.extend_from_slice(&64_u32.to_le_bytes());
    request.extend_from_slice(&123_u32.to_le_bytes());

    let mut sample = RealtimeSample {
        meminfo: MemInfoMib {
            mem_total: 4096,
            mem_available: 2048,
            swap_total: 1024,
            swap_free: 512,
        },
        proc_stat: parse_proc_stat(
            "cpu  100 0 0 900 0 0 0 0 0 0\n\
             cpu0 100 0 0 900 0 0 0 0 0 0\n",
        ),
        ..RealtimeSample::default()
    };
    let first =
        encode_realtime_info_with_sample(&request, &mut sampler, &sample)
            .expect("first realtime response succeeds");

    sample.proc_stat = parse_proc_stat(
        "cpu  125 0 0 975 0 0 0 0 0 0\n\
         cpu0 125 0 0 975 0 0 0 0 0 0\n",
    );
    let second =
        encode_realtime_info_with_sample(&request, &mut sampler, &sample)
            .expect("second realtime response succeeds");

    sample.proc_stat = parse_proc_stat(
        "cpu  200 0 0 1000 0 0 0 0 0 0\n\
         cpu0 200 0 0 1000 0 0 0 0 0 0\n",
    );
    let third = encode_realtime_info_with_sample(&request, &mut sampler, &sample)
        .expect("third realtime response succeeds");

    let image_len = 48 * 64 * 4;
    assert_ne!(&first[..image_len], &second[..image_len]);
    assert_ne!(&second[..image_len], &third[..image_len]);
    assert_eq!(
        i32::from_le_bytes(
            third[image_len + 20 * 4..image_len + 21 * 4]
                .try_into()
                .unwrap()
        ),
        75
    );
    assert_eq!(
        i32::from_le_bytes(
            third[image_len + 12 * 4..image_len + 13 * 4]
                .try_into()
                .unwrap()
        ),
        75
    );
}

#[test]
fn realtime_temperature_ignores_zero_bcl_and_prefers_cpu_zone() {
    let zones = vec![
        ("pm8550-bcl-lvl0".to_owned(), 0),
        ("aoss-0".to_owned(), 36_900),
        ("cpu-0-0-0".to_owned(), 40_300),
        ("cpuss-1-1".to_owned(), 38_200),
    ];

    assert_eq!(select_temperature_milli_celsius(&zones), Some(40_300));
}

#[test]
fn settings_write_failure_keeps_memory_unchanged_and_marks_hook_unsynced() {
    let files = Files::new();
    files.create_dir("module");
    let mut state = ReadOnlyState::default();
    let previous_settings = state.settings.clone();
    state.settings_path = Some("module".to_owned());
    state.hook_config_synced = true;
    let frame = ManagerFrame {
        command: ManagerCommand::SetSettingsVar,
        payload: vec![13, 0],
    };

    let response = manage(&frame, &mut state, &files, |_| Ok(true))
        .expect("persistence failure is returned to the manager");

    assert_ne!(response, b"success");
    assert_eq!(state.settings, previous_settings);
    assert!(!state.hook_config_synced);
}

#[test]
fn settings_post_commit_write_failure_reconciles_memory_and_advances_revision() {
    let files = Files::new();
    let path = "settings.db";
    let mut state = ReadOnlyState::default();
    state.settings_path = Some(path.to_owned());
    state.hook_config_synced = true;
    let previous_revision = state.config_revision;

    let mut port = ManagerPort::new(
        |_: &[u8]| Ok(true),
        |path: &str| files.load(path),
        |path: &str, bytes: &[u8]| {
            files.write(path, bytes);
            Err(DaemonError::system("parent directory sync failed"))
        },
        |path: &str| files.remove(path),
        |_: &[u8]| RealtimeSample::default(),
    );
    let response = set_settings_var_with_writer(&mut state, &[13, 0], &mut port);

    assert_ne!(response, "success");
    assert_eq!(state.settings[13], 0);
    assert_eq!(
        files.load(path).expect("read committed settings"),
        state.settings
    );
    assert_eq!(state.config_revision, previous_revision + 1);
    assert!(!state.hook_config_synced);
}

#[test]
fn app_config_post_commit_write_failure_reconciles_memory_and_invalidates_hook_sync() {
    let files = Files::new();
    let path = "appcfg.txt";
    files.write(path, "10000uid10000 30 0\n");
    let mut state = ReadOnlyState::default();
    state.app_config_path = Some(path.to_owned());
    state.app_config = vec![ManagerAppConfigRecord {
        uid: 10_000,
        mode: 30,
        permissive: false,
    }];
    state.hook_config_synced = true;
    let previous_revision = state.config_revision;
    let requested = encode_app_config(&[ManagerAppConfigRecord {
        uid: 10_000,
        mode: 20,
        permissive: false,
    }]);
    let hook_calls = Cell::new(0);

    let mut port = ManagerPort::new(
        |_: &[u8]| {
            hook_calls.set(hook_calls.get() + 1);
            Ok(true)
        },
        |path: &str| files.load(path),
        |path: &str, bytes: &[u8]| {
            files.write(path, bytes);
            Err(DaemonError::system("parent directory sync failed"))
        },
        |path: &str| files.remove(path),
        |_: &[u8]| RealtimeSample::default(),
    );
    let response = set_app_config_with_persistence_writer(
        &mut state,
        &requested,
        NOW_MS,
        &mut port,
    )
    .expect("post-commit persistence failure keeps the daemon coherent");

    assert_eq!(response, "failure");
    assert_eq!(
        hook_calls.get(),
        0,
        "unconfirmed write must not sync the hook"
    );
    assert_eq!(
        state.app_config,
        vec![ManagerAppConfigRecord {
            uid: 10_000,
            mode: 20,
            permissive: false,
        }]
    );
    assert_eq!(
        files.text(path),
        "10000uid10000 20 0\n"
    );
    assert_eq!(state.config_revision, previous_revision + 1);
    assert!(!state.hook_config_synced);
}

#[test]
fn config_revision_tracks_only_committed_manager_config_mutations() {
    let files = Files::new();
    let app_config_path = "appcfg.txt";
    files.write(app_config_path, "10000uid10000 30 0\n");
    let settings_path = "settings.db";
    let mut state = ReadOnlyState::default();
    state.app_config_path = Some(app_config_path.to_owned());
    state.settings_path = Some(settings_path.to_owned());
    state.app_config = vec![ManagerAppConfigRecord {
        uid: 10_000,
        mode: 30,
        permissive: false,
    }];
    let change = ManagerFrame {
        command: ManagerCommand::SetAppCfg,
        payload: encode_app_config(&[ManagerAppConfigRecord {
            uid: 10_000,
            mode: 20,
            permissive: false,
        }]),
    };

    let rejected = manage(&change, &mut state, &files, |_| Ok(false))
        .expect("rejected app config has a legacy failure response");
    assert_eq!(rejected, b"failure");
    assert_eq!(state.config_revision, 0);

    let applied = manage(&change, &mut state, &files, |_| Ok(true))
        .expect("app config update succeeds");
    assert_eq!(applied, b"success");
    assert_eq!(state.config_revision, 1);

    let repeated = manage(&change, &mut state, &files, |_| Ok(true))
        .expect("identical app config update succeeds");
    assert_eq!(repeated, b"success");
    assert_eq!(state.config_revision, 1);

    let setting = ManagerFrame {
        command: ManagerCommand::SetSettingsVar,
        payload: vec![13, 0],
    };
    let setting_applied = manage(&setting, &mut state, &files, |_| Ok(true))
        .expect("settings update succeeds");
    assert_eq!(setting_applied, b"success");
    assert_eq!(state.config_revision, 2);

    let setting_repeated = manage(&setting, &mut state, &files, |_| Ok(true))
        .expect("identical settings update succeeds");
    assert_eq!(setting_repeated, b"success");
    assert_eq!(state.config_revision, 2);
}

#[test]
fn app_config_save_skips_unloaded_policy_lines_when_aligning_known_uid_rows() {
    let files = Files::new();
    let path = "appcfg.txt";
    files.write(path, "com.example.uninstalled 30 0\n10000uid10000 30 0\n");
    let mut state = ReadOnlyState::default();
    state.app_config_path = Some(path.to_owned());
    state.app_config = vec![ManagerAppConfigRecord {
        uid: 10_000,
        mode: 30,
        permissive: false,
    }];
    let frame = ManagerFrame {
        command: ManagerCommand::SetAppCfg,
        payload: encode_app_config(&[ManagerAppConfigRecord {
            uid: 10_000,
            mode: 20,
            permissive: false,
        }]),
    };

    let response = manage(&frame, &mut state, &files, |_| Ok(true))
        .expect("valid UID record remains writable despite a stale package line");

    assert_eq!(response, b"success");
    assert_eq!(
        files.text(path),
        "com.example.uninstalled 30 0\n10000uid10000 20 0\n"
    );
}

#[test]
fn app_config_rollback_replays_old_hook_config_even_when_disk_restore_fails() {
    let files = Files::new();
    let path = "appcfg.txt";
    files.write(path, "10000uid10000 30 0\n");
    let mut state = ReadOnlyState::default();
    state.app_config_path = Some(path.to_owned());
    state.app_config = vec![ManagerAppConfigRecord {
        uid: 10_000,
        mode: 30,
        permissive: false,
    }];
    state.hook_config_synced = true;
    let frame = ManagerFrame {
        command: ManagerCommand::SetAppCfg,
        payload: encode_app_config(&[ManagerAppConfigRecord {
            uid: 10_000,
            mode: 20,
            permissive: false,
        }]),
    };
    let mut calls = 0;

    let result = manage(&frame, &mut state, &files, |_| {
        calls += 1;
        if calls == 1 {
            files.remove(path).expect("remove persisted config before rollback");
            files.create_dir(path);
            Ok(false)
        } else {
            Ok(true)
        }
    });

    assert!(result.is_err(), "failed disk rollback must be surfaced");
    assert_eq!(calls, 2, "old hook config must still be replayed");
    assert!(!state.hook_config_synced);
}

#[test]
fn proc_state_summary_uses_live_freeze_status_instead_of_a_fixed_clean_message() {
    let files = Files::new();
    let mut state = ReadOnlyState::default();
    state.freeze_status = vec![ManagerFreezeStatusRecord {
        uid: 10_042,
        foreground: false,
        state: 3,
        seconds: 12,
        process_count: 2,
    }];
    let frame = ManagerFrame {
        command: ManagerCommand::GetProcState,
        payload: Vec::new(),
    };

    let response = manage(&frame, &mut state, &files, |_| Ok(true))
        .expect("proc-state request succeeds");
    let text = String::from_utf8(response).expect("proc-state output is UTF-8");

    assert!(text.contains("10042"));
    assert!(text.contains("冻结"));
    assert!(!text.contains("后台很干净，一个黑名单应用都没有"));
}

#[test]
fn invalid_realtime_request_does_not_collect_system_metrics() {
    let files = Files::new();
    let calls = Cell::new(0);
    let mut port = ManagerPort::new(
        |_: &[u8]| Ok(true),
        |path: &str| files.load(path),
        |path: &str, content: &[u8]| files.store(path, content),
        |path: &str| files.remove(path),
        |_: &[u8]| {
            calls.set(calls.get() + 1);
            RealtimeSample::default()
        },
    );

    let response = encode_realtime_info_with_settings(
        &[],
        &legacy_default_settings(),
        &mut RealtimeSampler::default(),
        &mut port,
    )
    .expect("malformed realtime request receives a legacy error payload");

    assert!(String::from_utf8_lossy(&response).contains("实时信息需要12字节"));
    assert_eq!(
        calls.get(),
        0,
        "invalid requests must not sample proc/sysfs data"
    );
}

#[test]
fn xposed_config_rejects_uid_that_legacy_hook_cannot_parse() {
    let payload = encode_app_config(&[ManagerAppConfigRecord {
        uid: 110_000,
        mode: 30,
        permissive: false,
    }]);

    let error = encode_xposed_config_payload(&legacy_default_settings(), &payload)
        .expect_err("work-profile UID must not be truncated to five digits");

    assert!(error.message().contains("five-digit"));
}
