use std::cell::RefCell;
use std::collections::BTreeMap;

use freezeit_daemon::app::controller::startup::{
    load_manager_app_config_records, source_tokens_of_packages,
};
use freezeit_daemon::app::error::{DaemonError, IoKind};
use freezeit_daemon::app::package_inventory::PackageRecord;
use freezeit_daemon::protocol::manager_v1::app_config::{encode_app_config, find_record};
use freezeit_daemon::protocol::manager_v1::chart::RealtimeSample;
use freezeit_daemon::protocol::manager_v1::persistence::{
    plan_app_config_persistence, AppConfigPlan,
};
use freezeit_daemon::protocol::manager_v1::port::ManagerPort;
use freezeit_daemon::protocol::manager_v1::state::{normalize_settings, ReadOnlyState};
use freezeit_daemon::protocol::manager_v1::update::{
    set_app_config_with_persistence_writer, set_settings_var_with_writer,
};
use freezeit_daemon::protocol::records::ManagerAppConfigRecord;

const NOW_MS: u128 = 1_700_000_000_000;

fn packages() -> Vec<PackageRecord> {
    vec![
        PackageRecord {
            package_name: "com.example.first".to_owned(),
            uid: 10_001,
        },
        PackageRecord {
            package_name: "com.example.second".to_owned(),
            uid: 10_002,
        },
    ]
}

fn record(uid: u32, mode: i32, permissive: bool) -> ManagerAppConfigRecord {
    ManagerAppConfigRecord {
        uid,
        mode,
        permissive,
    }
}

fn loaded_state(text: &str) -> ReadOnlyState {
    ReadOnlyState {
        app_config: load_manager_app_config_records(Some(text), &packages()),
        app_config_source_tokens: source_tokens_of_packages(Some(text), &packages()),
        app_config_path: Some("appcfg.txt".to_owned()),
        settings_path: Some("settings.db".to_owned()),
        ..ReadOnlyState::default()
    }
}

/// Asks for new records; gives the answer and the file afterwards.
fn change(
    state: &mut ReadOnlyState,
    text: &str,
    requested: &[ManagerAppConfigRecord],
    accepted: bool,
) -> (Result<String, DaemonError>, String) {
    let file = RefCell::new(text.as_bytes().to_vec());
    let mut port = ManagerPort::new(
        |_: &[u8]| Ok(accepted),
        |_: &str| Ok(file.borrow().clone()),
        |_: &str, bytes: &[u8]| {
            *file.borrow_mut() = bytes.to_vec();
            Ok(())
        },
        |_: &str| Err(DaemonError::io(IoKind::NotFound, "not found")),
        |_: &[u8]| RealtimeSample::default(),
    );
    let answer = set_app_config_with_persistence_writer(
        state,
        &encode_app_config(requested),
        NOW_MS,
        &mut port,
    );
    let written = String::from_utf8(file.borrow().clone()).expect("text file");
    (answer, written)
}

#[test]
fn changed_records_are_loaded_again() {
    let text = "# note\ncom.example.first 30 1\r\n10003uid10003   40 0\ncom.gone 20 0";
    let mut state = loaded_state(text);
    let (answer, written) = change(
        &mut state,
        text,
        &[record(10_001, 20, false), record(10_002, 10, true)],
        true,
    );
    assert_eq!(answer, Ok("success".to_owned()));
    assert_eq!(
        written,
        "# note\ncom.example.first 20 0\r\n10003uid10003   40 0\ncom.gone 20 0\n\
         10002uid10002 10 1\n"
    );
    let again = load_manager_app_config_records(Some(&written), &packages());
    for uid in [10_001, 10_002, 10_003, 10_004] {
        assert_eq!(find_record(&again, uid), find_record(&state.app_config, uid));
    }
    assert_eq!(
        source_tokens_of_packages(Some(&written), &packages()),
        state.app_config_source_tokens
    );
}

#[test]
fn refused_records_leave_the_file_and_the_state() {
    let text = "com.example.first 30 1\n";
    let mut state = loaded_state(text);
    let before = state.app_config.clone();
    let (answer, written) = change(&mut state, text, &[record(10_001, 20, false)], false);
    assert_eq!(answer, Ok("failure".to_owned()));
    assert_eq!(written, text);
    assert_eq!(state.app_config, before);
    assert!(!state.hook_config_synced);
}

#[test]
fn a_missing_file_is_written_with_all_records() {
    let records = [record(10_001, 30, true), record(123, 20, false)];
    let plan = plan_app_config_persistence(&BTreeMap::new(), &records, &records, None)
        .expect("nothing to refuse");
    let AppConfigPlan::Write(bytes, tokens) = plan else {
        panic!("a missing file must be written");
    };
    let text = String::from_utf8(bytes).expect("text file");
    assert_eq!(text, "10001uid10001 30 1\n00123uid123 20 0\n");
    assert_eq!(tokens.get(&123).map(String::as_str), Some("00123uid123"));
    assert_eq!(
        load_manager_app_config_records(Some(&text), &packages()),
        records
    );
}

#[test]
fn a_file_that_is_not_text_is_not_overwritten() {
    let refused = plan_app_config_persistence(
        &BTreeMap::new(),
        &[record(1, 30, true)],
        &[record(1, 20, true)],
        Some(&[0xff]),
    );
    assert!(matches!(refused, Err(DaemonError::Config(_))));
}

#[test]
fn written_settings_are_loaded_as_they_are() {
    let mut state = loaded_state("");
    let written = RefCell::new(Vec::new());
    let mut port = ManagerPort::new(
        |_: &[u8]| Ok(true),
        |_: &str| Err(DaemonError::io(IoKind::NotFound, "not found")),
        |_: &str, bytes: &[u8]| {
            *written.borrow_mut() = bytes.to_vec();
            Ok(())
        },
        |_: &str| Ok(()),
        |_: &[u8]| RealtimeSample::default(),
    );
    let answer = set_settings_var_with_writer(&mut state, &[13, 0], &mut port);
    assert_eq!(answer, "success");
    assert_eq!(*written.borrow(), state.settings);
    assert_eq!(normalize_settings(Some(written.borrow().clone())), state.settings);
}
