use std::cell::RefCell;
use std::path::Path;

use freezeit_daemon::app::error::DaemonError;
use freezeit_daemon::app::freezer_backend::capabilities_are_fresh;
use freezeit_daemon::domain::capability::CapabilityStatus;
use freezeit_daemon::sys::binder::{
    binder_freezer_ioctl_number, binder_freezer_request, binder_pid,
    detect_binder_freezer_capability_with_probe, discover_binder_device, BinderFreezeInfo,
    BinderFreezeRequest, ProbeFailure,
};
use freezeit_daemon::sys::cgroup::{
    classify_cgroup_entry, detect_cgroup_v2_freezer_capability, parse_freeze_state, CgroupEntry,
    CgroupFreezerPreference, FreezeFile, FreezeState,
};

use freezeit_daemon::sys::discovery::cgroup_freeze_path;
use freezeit_daemon::sys::freezer::{
    freeze_on, freeze_process_on, thaw_on, FreezerStep, StepPort,
};
use freezeit_daemon::sys::paths::{is_in, joined_path};
use freezeit_daemon::sys::procfs::process_status_path;

fn refused(error_number: i32) -> ProbeFailure {
    ProbeFailure {
        error_number: Some(error_number),
        message: format!("os error {error_number}"),
    }
}

fn writable(path: &str) -> FreezeFile {
    FreezeFile {
        path: path.to_owned(),
        writable: true,
    }
}

fn unwritable(path: &str) -> FreezeFile {
    FreezeFile {
        path: path.to_owned(),
        writable: false,
    }
}

#[test]
fn probe_tries_a_later_binder_device_after_the_first_one_is_unusable() {
    let first = "dev/binder";
    let second = "dev/binderfs/binder";

    let capability = detect_binder_freezer_capability_with_probe(
        &[first.to_owned(), second.to_owned()],
        |path| {
            if path == first {
                Err(refused(libc::EINVAL))
            } else {
                Err(refused(libc::ESRCH))
            }
        },
    );

    assert_eq!(capability.status, CapabilityStatus::Available);
    assert_eq!(capability.device_path.as_deref(), Some(second));
}

#[test]
fn unsupported_or_denied_ioctl_is_not_reported_as_available() {
    for errno in [libc::EINVAL, libc::EPERM] {
        let capability = detect_binder_freezer_capability_with_probe(
            &["dev/binder".to_owned()],
            |_| Err(refused(errno)),
        );
        assert_ne!(capability.status, CapabilityStatus::Available);
    }
}

#[test]
fn non_writable_discovered_freeze_node_is_not_available() {
    let capability = detect_cgroup_v2_freezer_capability(
        "cgroup",
        "",
        &[unwritable("cgroup/uid_10123/pid_123/cgroup.freeze")],
    );

    assert_eq!(capability.status, CapabilityStatus::Degraded);
}

#[test]
fn writable_system_hierarchy_follows_an_unwritable_app_hierarchy() {
    let system_freeze = "cgroup/system/uid_10123/pid_123/cgroup.freeze";

    let capability = detect_cgroup_v2_freezer_capability(
        "cgroup",
        "",
        &[
            unwritable("cgroup/apps/uid_10123/pid_123/cgroup.freeze"),
            writable(system_freeze),
        ],
    );

    assert_eq!(capability.status, CapabilityStatus::Available);
    assert_eq!(
        capability.preference,
        CgroupFreezerPreference::SystemCgroupV2
    );
    assert_eq!(capability.freeze_files, vec![system_freeze.to_owned()]);
}

#[test]
fn cgroup_freeze_state_round_trips_through_file() {
    let mut freeze_file = "0".to_owned();

    assert_eq!(
        parse_freeze_state(&freeze_file).expect("read"),
        FreezeState::Thawed
    );

    freeze_file.replace_range(.., FreezeState::Frozen.as_str());
    assert_eq!(freeze_file, "1");
    assert_eq!(parse_freeze_state(&freeze_file), Ok(FreezeState::Frozen));

    freeze_file.replace_range(.., FreezeState::Thawed.as_str());
    assert_eq!(freeze_file, "0");
}

#[test]
fn freeze_state_text_other_than_zero_and_one_is_an_error() {
    assert_eq!(parse_freeze_state("1\n"), Ok(FreezeState::Frozen));
    assert!(matches!(parse_freeze_state("2"), Err(DaemonError::System(_))));
    assert!(parse_freeze_state("").is_err());
}

#[test]
fn binder_freezer_abi_matches_linux_android_uapi() {
    assert_eq!(std::mem::size_of::<BinderFreezeInfo>(), 12);
    assert_eq!(binder_freezer_ioctl_number(), 0x400c_620e);
    assert_eq!(
        binder_freezer_request(123, BinderFreezeRequest::Freeze, 250),
        BinderFreezeInfo {
            pid: 123,
            enable: 1,
            timeout_ms: 250,
        }
    );
    assert_eq!(
        binder_freezer_request(123, BinderFreezeRequest::Unfreeze, 250),
        BinderFreezeInfo {
            pid: 123,
            enable: 0,
            timeout_ms: 250,
        }
    );
}

#[test]
fn cgroup_v2_detection_reads_controllers_and_prefers_android_app_paths() {
    let app_freeze = "sys/fs/cgroup/apps/uid_10123/pid_123/cgroup.freeze";
    let system_freeze = "sys/fs/cgroup/system/uid_10123/pid_123/cgroup.freeze";

    let capability = detect_cgroup_v2_freezer_capability(
        "sys/fs/cgroup",
        "cpu freezer memory",
        &[writable(app_freeze), writable(system_freeze)],
    );

    assert_eq!(capability.status, CapabilityStatus::Available);
    assert_eq!(
        capability.preference,
        CgroupFreezerPreference::AndroidAppCgroupV2
    );
    assert_eq!(
        capability.freeze_files.first().map(String::as_str),
        Some(app_freeze)
    );
    assert!(capability.evidence.contains("cgroup.controllers"));
    assert!(capability.evidence.contains("freezer"));
}

#[test]
fn cgroup_v2_detection_accepts_android_freeze_files_when_root_controllers_omit_freezer() {
    let capability = detect_cgroup_v2_freezer_capability(
        "sys/fs/cgroup",
        "cpu memory",
        &[writable("sys/fs/cgroup/apps/uid_10123/pid_123/cgroup.freeze")],
    );

    assert_eq!(capability.status, CapabilityStatus::Available);
    assert_eq!(
        capability.preference,
        CgroupFreezerPreference::AndroidAppCgroupV2
    );
    assert!(capability.evidence.contains("contains freezer=false"));
}

#[test]
fn binder_device_rejecting_freezer_ioctl_reports_degraded_error() {
    let candidates = vec!["dev/binder".to_owned()];

    let capability = detect_binder_freezer_capability_with_probe(&candidates, |_| {
        Err(refused(libc::ENOTTY))
    });

    assert_eq!(capability.status, CapabilityStatus::Degraded);
    assert_eq!(capability.device_path.as_deref(), Some("dev/binder"));
    assert!(capability.evidence.contains("ioctl probe failed"));
}

#[test]
fn binder_probe_accepts_kernel_recognition_errors_as_available() {
    let capability = detect_binder_freezer_capability_with_probe(&["dev/binder".to_owned()], |_| {
        Err(refused(libc::ESRCH))
    });

    assert_eq!(capability.status, CapabilityStatus::Available);
    assert!(capability.evidence.contains("kernel recognized"));
}

#[test]
fn without_a_device_there_is_no_binder_freezer() {
    let capability = detect_binder_freezer_capability_with_probe(&[], |_| Ok(()));
    assert_eq!(capability.status, CapabilityStatus::Missing);
    assert_eq!(capability.device_path, None);
    assert_eq!(discover_binder_device(&capability), None);
}

#[test]
fn cgroup_walk_follows_directories_and_collects_freeze_files() {
    assert_eq!(
        classify_cgroup_entry("cgroup.freeze", false),
        CgroupEntry::FreezeFile
    );
    assert_eq!(
        classify_cgroup_entry("uid_10123", true),
        CgroupEntry::Subdirectory
    );
    assert_eq!(
        classify_cgroup_entry("cgroup.procs", false),
        CgroupEntry::Other
    );
}

/// The name of a step, with its path where it has one.
fn name(step: FreezerStep<'_>) -> String {
    match step {
        FreezerStep::FreezeBinder => "freeze binder".to_owned(),
        FreezerStep::UnfreezeBinder => "unfreeze binder".to_owned(),
        FreezerStep::FreezeCgroup(path) => format!("freeze {path}"),
        FreezerStep::ThawCgroup(path) => format!("thaw {path}"),
        FreezerStep::Stop => "stop".to_owned(),
        FreezerStep::Resume => "resume".to_owned(),
    }
}

/// The steps that freezing takes, where these fail, and what comes of it.
fn frozen_with(
    path: Option<&str>,
    failing: &[&str],
) -> (Vec<String>, Result<(), DaemonError>) {
    let steps = RefCell::new(Vec::new());
    let mut port = StepPort::new(|step: FreezerStep<'_>| {
        let name = name(step);
        steps.borrow_mut().push(name.clone());
        if failing.contains(&name.as_str()) {
            Err(DaemonError::system(&format!("no {name}")))
        } else {
            Ok(())
        }
    });
    let result = freeze_process_on(path, &mut port);
    (steps.into_inner(), result)
}

/// The steps that thawing takes, where these fail, and what comes of it.
fn thawed_with(
    path: Option<&str>,
    failing: &[&str],
) -> (Vec<String>, Result<(), DaemonError>) {
    let steps = RefCell::new(Vec::new());
    let mut port = StepPort::new(|step: FreezerStep<'_>| {
        let name = name(step);
        steps.borrow_mut().push(name.clone());
        if failing.contains(&name.as_str()) {
            Err(DaemonError::system(&format!("no {name}")))
        } else {
            Ok(())
        }
    });
    let result = thaw_on(path, &mut port);
    (steps.into_inner(), result)
}

#[test]
fn a_process_without_a_cgroup_is_only_signalled() {
    assert_eq!(frozen_with(None, &[]), (vec!["stop".to_owned()], Ok(())));
    assert_eq!(
        frozen_with(None, &["stop"]),
        (vec!["stop".to_owned()], Err(DaemonError::system("no stop")))
    );
    assert_eq!(thawed_with(None, &[]), (vec!["resume".to_owned()], Ok(())));
    assert_eq!(
        thawed_with(None, &["resume"]),
        (
            vec!["resume".to_owned()],
            Err(DaemonError::system("SIGCONT failed: no resume"))
        )
    );
}

#[test]
fn a_freeze_that_succeeds_takes_two_steps() {
    let (steps, result) = frozen_with(Some("/a"), &[]);
    assert_eq!(steps, ["freeze binder", "freeze /a"]);
    assert_eq!(result, Ok(()));
}

#[test]
fn a_refused_binder_freeze_ends_the_freeze() {
    let (steps, result) = frozen_with(Some("/a"), &["freeze binder", "unfreeze binder"]);
    assert_eq!(steps, ["freeze binder"]);
    assert_eq!(result, Err(DaemonError::system("no freeze binder")));
}

#[test]
fn a_failed_rollback_names_both_failures() {
    let (steps, result) = frozen_with(Some("/a"), &["freeze /a"]);
    assert_eq!(steps, ["freeze binder", "freeze /a", "unfreeze binder"]);
    assert_eq!(result, Err(DaemonError::system("no freeze /a")));

    let (steps, result) = frozen_with(Some("/a"), &["freeze /a", "unfreeze binder"]);
    assert_eq!(steps, ["freeze binder", "freeze /a", "unfreeze binder"]);
    assert_eq!(
        result,
        Err(DaemonError::system(
            "cgroup freeze failed: no freeze /a; binder rollback failed: no unfreeze binder"
        ))
    );
}

#[test]
fn every_step_of_a_thaw_is_taken_and_every_failure_is_named() {
    let (steps, result) = thawed_with(Some("/a"), &[]);
    assert_eq!(steps, ["thaw /a", "unfreeze binder", "resume"]);
    assert_eq!(result, Ok(()));

    let (steps, result) = thawed_with(Some("/a"), &["thaw /a", "unfreeze binder", "resume"]);
    assert_eq!(steps, ["thaw /a", "unfreeze binder", "resume"]);
    assert_eq!(
        result,
        Err(DaemonError::system(
            "cgroup thaw failed: no thaw /a; binder unfreeze failed: no unfreeze binder; \
             SIGCONT failed: no resume"
        ))
    );
}

#[test]
fn freezing_in_a_cgroup_hands_on_the_path() {
    let paths = RefCell::new(Vec::new());
    let mut port = StepPort::new(|step: FreezerStep<'_>| {
        if let FreezerStep::FreezeCgroup(path) = step {
            paths.borrow_mut().push(path.to_owned());
        }
        Ok(())
    });
    assert_eq!(freeze_on("/sys/fs/cgroup/a/cgroup.freeze", &mut port), Ok(()));
    drop(port);
    assert_eq!(paths.into_inner(), ["/sys/fs/cgroup/a/cgroup.freeze"]);
}

#[test]
fn the_binder_takes_pids_that_are_not_negative() {
    assert_eq!(binder_pid(0), Ok(0));
    assert_eq!(binder_pid(i32::MAX), Ok(2_147_483_647));
    assert_eq!(
        binder_pid(-7),
        Err(DaemonError::system("invalid binder pid -7"))
    );
}

#[test]
fn probed_capabilities_stand_for_half_a_minute() {
    assert!(capabilities_are_fresh(0));
    assert!(capabilities_are_fresh(29_999_999_999));
    assert!(!capabilities_are_fresh(30_000_000_000));
}

#[test]
fn the_cgroup_root_may_end_with_separators() {
    for (root, controllers) in [
        ("/x", "/x/cgroup.controllers"),
        ("/x/", "/x/cgroup.controllers"),
        ("/x//", "/x//cgroup.controllers"),
        ("/", "/cgroup.controllers"),
        ("", "cgroup.controllers"),
        (".", "./cgroup.controllers"),
    ] {
        let capability = detect_cgroup_v2_freezer_capability(root, "cpu freezer", &[]);
        assert_eq!(
            capability.evidence,
            format!("{controllers} contains freezer=true; freeze_files=0; writable_freeze_files=0")
        );
    }
    for root in ["/x", "/x/", "/x//", "/x/.", "//x"] {
        let files = [
            writable("/x/apps/cgroup.freeze"),
            writable("/x/appsx/cgroup.freeze"),
            unwritable("/x/system/cgroup.freeze"),
        ];
        let capability = detect_cgroup_v2_freezer_capability(root, "", &files);
        assert_eq!(
            capability.preference,
            CgroupFreezerPreference::AndroidAppCgroupV2
        );
        assert_eq!(capability.freeze_files, ["/x/apps/cgroup.freeze"]);
    }
    for root in ["x", "/y", "/x/..", ""] {
        let capability = detect_cgroup_v2_freezer_capability(
            root,
            "",
            &[writable("/x/apps/cgroup.freeze")],
        );
        assert_eq!(
            capability.preference,
            CgroupFreezerPreference::GenericCgroupV2
        );
    }
}

#[test]
fn paths_lie_in_directories_by_their_components() {
    for (path, dir) in [
        ("/x/apps", "/x/apps"),
        ("/x/apps/", "/x/apps"),
        ("/x//apps/a", "/x/apps/"),
        ("/x/./apps/a", "/x/apps"),
        ("./a/b", "./a"),
        ("a", ""),
    ] {
        assert!(is_in(path, dir));
        assert!(Path::new(path).starts_with(dir));
    }
    for (path, dir) in [
        ("/x/appsx", "/x/apps"),
        ("/x", "/x/apps"),
        ("./a", "a"),
        ("a", "/a"),
        ("/x/../x/apps", "/x/apps"),
    ] {
        assert!(!is_in(path, dir));
        assert!(!Path::new(path).starts_with(dir));
    }
    for dir in ["", "/", "/x", "/x/", "x//", "."] {
        assert_eq!(
            joined_path(dir, "name"),
            Path::new(dir).join("name").to_string_lossy()
        );
    }
}

#[test]
fn files_of_a_process_stand_under_any_root() {
    assert_eq!(process_status_path("/proc", 12), "/proc/12/status");
    assert_eq!(process_status_path("/proc/", -1), "/proc/-1/status");
    assert_eq!(process_status_path("/", 12), "/12/status");
    assert_eq!(
        cgroup_freeze_path("/x", 10_123, 12),
        "/x/uid_10123/pid_12/cgroup.freeze"
    );
    assert_eq!(
        cgroup_freeze_path("/x/", 10_123, 12),
        "/x/uid_10123/pid_12/cgroup.freeze"
    );
}
