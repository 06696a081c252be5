use freezeit_daemon::app::error::{DaemonError, IoKind};
use freezeit_daemon::config::loader::{
    load_policy_files, load_policy_files_recovering, parse_manager_app_config, resolve_module_dir,
    serialize_manager_app_config, settings_size_check, DaemonPaths, DEFAULT_MODULE_DIR,
    MODULE_DIR_ENV,
};
use freezeit_daemon::config::migration::{
    migrate_legacy_files, migrate_legacy_policy, normalize_legacy_line, parse_legacy_label_line,
    parse_legacy_policy_line, parse_legacy_policy_target, LegacyPolicyTarget,
};
use freezeit_daemon::domain::policy::FreezePolicy;

fn words(words: &[&str]) -> Vec<String> {
    words.iter().map(|word| word.to_string()).collect()
}

#[test]
fn environment_module_dir_is_trimmed_before_it_is_returned() {
    assert_eq!(
        resolve_module_dir(&words(&["freezeit"]), Some("  /data/adb/modules/freezeit  "))
            .expect("module directory"),
        "/data/adb/modules/freezeit"
    );
}

#[test]
fn strict_loader_propagates_metadata_errors_instead_of_treating_them_as_missing() {
    let error = load_policy_files(
        Err(DaemonError::io(IoKind::NotADirectory, "not a directory")),
        Err(DaemonError::io(IoKind::NotADirectory, "not a directory")),
        Err(DaemonError::io(IoKind::NotADirectory, "not a directory")),
    )
    .expect_err("metadata failure must not be missing");

    assert!(matches!(
        error,
        DaemonError::Io(error) if error.kind == IoKind::NotADirectory
    ));
}

#[test]
fn settings_database_over_the_limit_is_rejected_before_reading_it() {
    let error = load_policy_files(Ok(None), Ok(None), Ok(Some(vec![0; 2 * 1024 * 1024])))
        .expect_err("oversized settings must be rejected");
    assert!(matches!(error, DaemonError::Config(_)));
    assert_eq!(
        error,
        DaemonError::Config("settings database exceeds 1048576 byte limit".to_owned())
    );
    assert_eq!(settings_size_check(2 * 1024 * 1024), Err(error));
}

#[test]
fn unreadable_text_files_are_reported_before_oversized_settings() {
    let unreadable = DaemonError::system("label file unreadable");
    assert_eq!(
        load_policy_files(
            Ok(None),
            Err(DaemonError::system("label file unreadable")),
            Ok(Some(vec![0; 2 * 1024 * 1024])),
        ),
        Err(unreadable)
    );
}

#[test]
fn settings_of_exactly_the_limit_are_loaded() {
    let loaded = load_policy_files(Ok(None), Ok(None), Ok(Some(vec![7; 1024 * 1024])))
        .expect("settings up to the limit");
    assert_eq!(loaded.settings, Some(vec![7; 1024 * 1024]));
    let loaded = load_policy_files_recovering(Ok(None), Ok(None), Ok(Some(vec![7; 1024 * 1024])));
    assert_eq!(loaded.settings, Some(vec![7; 1024 * 1024]));
}

#[test]
fn recovering_loader_leaves_out_oversized_settings() {
    let loaded = load_policy_files_recovering(
        Ok(Some("com.example.app 30 0\n".to_owned())),
        Ok(Some("com.example.app Example\n".to_owned())),
        Ok(Some(vec![7; 1024 * 1024 + 1])),
    );
    assert_eq!(loaded.app_config.as_deref(), Some("com.example.app 30 0\n"));
    assert_eq!(loaded.app_label.as_deref(), Some("com.example.app Example\n"));
    assert_eq!(loaded.settings, None);
}

#[test]
fn read_lines_survive_being_written_and_read_again() {
    let payload = "\u{3000}com.example.app 30 0 \r\n# note\n\n10123uid10123 20 1\r".as_bytes();
    let lines = parse_manager_app_config(payload).expect("utf-8");
    assert_eq!(lines, words(&["com.example.app 30 0", "10123uid10123 20 1"]));
    let bytes = serialize_manager_app_config(&lines);
    assert_eq!(parse_manager_app_config(&bytes).expect("utf-8"), lines);
}

#[test]
fn settings_database_up_to_the_limit_is_accepted() {
    assert!(settings_size_check(1024 * 1024).is_ok());
    assert!(settings_size_check(1024 * 1024 + 1).is_err());
}

#[test]
fn recovering_loader_keeps_the_files_that_can_be_read() {
    let loaded = load_policy_files_recovering(
        Ok(Some("com.example.app 30 0\n".to_owned())),
        Err(DaemonError::system("label file unreadable")),
        Ok(Some(vec![1, 2, 3])),
    );
    assert_eq!(loaded.app_config.as_deref(), Some("com.example.app 30 0\n"));
    assert_eq!(loaded.app_label, None);
    assert_eq!(loaded.settings, Some(vec![1, 2, 3]));
    assert!(loaded.is_available());

    let nothing = load_policy_files_recovering(Ok(None), Ok(None), Ok(None));
    assert!(!nothing.is_available());
}

#[test]
fn manager_app_config_text_drops_comments_and_blank_lines() {
    let lines = words(&["com.example.app 30 0", "10123uid10123 20 1"]);
    let bytes = serialize_manager_app_config(&lines);
    assert_eq!(bytes, b"com.example.app 30 0\n10123uid10123 20 1".to_vec());
    assert_eq!(parse_manager_app_config(&bytes).expect("utf-8"), lines);
    assert_eq!(
        parse_manager_app_config(b"# note\n\n  com.example.app 30 0  \n").expect("utf-8"),
        words(&["com.example.app 30 0"])
    );
    assert!(matches!(
        parse_manager_app_config(&[0xff, 0xfe]),
        Err(DaemonError::Config(_))
    ));
}

#[test]
fn paths_stand_under_the_module_directory() {
    let paths = DaemonPaths::from_module_dir("/data/adb/modules/freezeit");
    assert_eq!(paths.module_dir, "/data/adb/modules/freezeit");
    assert_eq!(paths.app_config, "/data/adb/modules/freezeit/appcfg.txt");
    assert_eq!(paths.app_label, "/data/adb/modules/freezeit/applabel.txt");
    assert_eq!(paths.settings_db, "/data/adb/modules/freezeit/settings.db");
}

#[test]
fn module_dir_prefers_cli_then_environment_then_default() {
    assert_eq!(
        resolve_module_dir(
            &words(&["freezeit", "--module-dir", "/cli/module"]),
            Some("/env/module")
        )
        .unwrap(),
        "/cli/module"
    );
    assert_eq!(
        resolve_module_dir(&words(&["freezeit"]), Some("/env/module")).unwrap(),
        "/env/module"
    );
    assert_eq!(
        resolve_module_dir(&words(&["freezeit"]), None).unwrap(),
        DEFAULT_MODULE_DIR
    );
    assert_eq!(MODULE_DIR_ENV, "FREEZEIT_MODULE_DIR");
}

#[test]
fn module_dir_rejects_missing_cli_value() {
    assert!(resolve_module_dir(&words(&["freezeit", "--module-dir"]), None).is_err());
}

#[test]
fn legacy_uid_parser_only_accepts_canonical_uid_tokens() {
    assert_eq!(
        parse_legacy_policy_target("10123uid10123"),
        Some(LegacyPolicyTarget::Uid(10_123))
    );
    assert_eq!(
        parse_legacy_policy_target("com.example.uid12345"),
        Some(LegacyPolicyTarget::PackageName(
            "com.example.uid12345".to_owned()
        ))
    );
    assert_eq!(parse_legacy_policy_target("10123uid99999"), None);
}

#[test]
fn migration_uses_the_shared_legacy_mode_conversion() {
    let record = parse_legacy_policy_line("com.example.app 21 1").expect("legacy policy");

    assert_eq!(
        migrate_legacy_policy(&record),
        FreezePolicy::from_legacy_mode(21, true)
    );
}

#[test]
fn migration_omits_invalid_canonical_uid_targets() {
    let migrated = migrate_legacy_files("10123uid99999 30 1\n", "", &[]);

    assert!(migrated.policies.is_empty());
}

#[test]
fn migration_reads_policies_labels_and_settings() {
    let migrated = migrate_legacy_files(
        "# policies\ncom.example.app 30 1\n\n10123uid10123 20 0\n",
        "com.example.app####Example label\n",
        &[7, 8],
    );
    assert_eq!(migrated.policies.len(), 2);
    assert_eq!(migrated.policies[0].0.package_or_uid, "com.example.app");
    assert_eq!(migrated.policies[0].0.mode, 30);
    assert!(migrated.policies[0].0.permissive);
    assert_eq!(migrated.policies[1].1, FreezePolicy::from_legacy_mode(20, false));
    assert_eq!(migrated.labels.len(), 1);
    assert_eq!(migrated.labels[0].package_name, "com.example.app");
    assert_eq!(migrated.labels[0].label, "Example label");
    assert_eq!(migrated.settings, vec![7, 8]);
}

#[test]
fn legacy_lines_are_trimmed_and_comments_skipped() {
    assert_eq!(normalize_legacy_line("  a b "), Some("a b".to_owned()));
    assert_eq!(normalize_legacy_line("# note"), None);
    assert_eq!(normalize_legacy_line("   "), None);
    assert!(parse_legacy_policy_line("com.example.app").is_none());
    assert!(parse_legacy_label_line("com.example.app").is_none());
}
