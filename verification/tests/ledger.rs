use std::collections::BTreeSet;

use freezeit_daemon::app::error::{DaemonError, IoKind};
use freezeit_daemon::sys::discovery::discover_package_processes;
use freezeit_daemon::sys::ledger::{
    clear_freezeit_signal_stop, freezeit_signal_stop_ownership, proc_state_is_stopped,
    promote_freezeit_signal_stop, record_freezeit_signal_stop,
    recorded_freezeit_signal_stop_ownership, take_freezeit_signal_stop, FileText, LedgerFiles,
    LedgerRewrite, SignalStopLedgerGeneration,
};
use freezeit_daemon::sys::procfs::{
    classify_binder_transaction_snapshot, recheck_process_identity, runtime_cgroup_roots,
    IdentityFacts, ProcEntry, SignalStopOwnership, CGROUP_ROOT,
};

/// The two ledger files, kept in memory; each rewrite of the main file is a new file.
struct Disk {
    ledger: Option<String>,
    provenance: Option<String>,
    provenance_readable: bool,
    inode: u64,
}

impl Disk {
    fn with_ledger(text: &str) -> Self {
        Disk {
            ledger: Some(text.to_owned()),
            provenance: None,
            provenance_readable: true,
            inode: 41,
        }
    }

    fn empty() -> Self {
        Disk {
            ledger: None,
            provenance: None,
            provenance_readable: true,
            inode: 41,
        }
    }

    fn generation(&self) -> SignalStopLedgerGeneration {
        SignalStopLedgerGeneration {
            device: 7,
            inode: self.inode,
        }
    }

    fn files(&self) -> LedgerFiles {
        LedgerFiles {
            ledger: match &self.ledger {
                Some(text) => FileText::Text(text.clone()),
                None => FileText::Missing,
            },
            provenance: match &self.provenance {
                _ if !self.provenance_readable => {
                    FileText::Unreadable(DaemonError::io(IoKind::Other, "is a directory"))
                }
                Some(text) => FileText::Text(text.clone()),
                None => FileText::Missing,
            },
            generation: self.ledger.as_ref().map(|_| self.generation()),
        }
    }

    fn rewrite(&mut self, change: LedgerRewrite) {
        self.inode += 1;
        self.ledger = change.ledger.clone();
        self.provenance = match self.ledger {
            Some(_) => change.provenance_for(self.generation()),
            None => None,
        };
    }

    fn record(&mut self, pid: i32, start_time_ticks: u64) {
        let change = record_freezeit_signal_stop(&self.files(), pid, start_time_ticks)
            .expect("record stop");
        self.rewrite(change);
    }

    fn take(&mut self, pid: i32, start_time_ticks: u64) -> bool {
        let (found, change) = take_freezeit_signal_stop(&self.files(), pid, start_time_ticks)
            .expect("remove matching record");
        self.rewrite(change);
        found
    }

    fn promote(&mut self, pid: i32, start_time_ticks: u64) -> bool {
        match promote_freezeit_signal_stop(&self.files(), pid, start_time_ticks)
            .expect("readable ledger")
        {
            Some(text) => {
                self.provenance = Some(text);
                true
            }
            None => false,
        }
    }

    fn signal_only_line(&self, pid: i32, start_time_ticks: u64) -> String {
        format!("{pid} {start_time_ticks} SignalOnly 7:{}", self.inode)
    }

    fn ownership(&self, stat: &str) -> Option<SignalStopOwnership> {
        freezeit_signal_stop_ownership(stat, &self.files())
    }
}

fn stat_with_state(state: char, start_time_ticks: u64) -> String {
    let mut fields = vec!["0".to_owned(); 20];
    fields[0] = state.to_string();
    fields[19] = start_time_ticks.to_string();
    format!("123 (example) {}\n", fields.join(" "))
}

fn plain_ledger_records(text: &str) -> BTreeSet<(i32, u64)> {
    text.lines()
        .filter_map(|line| {
            let (pid, start_time_ticks) = line.split_once(' ')?;
            Some((pid.parse().ok()?, start_time_ticks.parse().ok()?))
        })
        .collect()
}

#[test]
fn identity_recheck_treats_a_disappeared_proc_entry_as_a_mismatch() {
    let entry = ProcEntry {
        name: "123".to_owned(),
        status: Some("Name:\texample\nUid:\t10123\t10123\t10123\t10123\n".to_owned()),
        cmdline: Some("com.example.app\0".to_owned()),
        stat: Some("123 (example) S 0 0 0 0 0 0 0 0 0 0 0 0 0 0 0 0 0 4242\n".to_owned()),
        binder_snapshot: None,
        cgroup_freeze_path: None,
    };
    let process = discover_package_processes(&[entry], "com.example.app", 10_123).remove(0);

    assert!(matches!(
        recheck_process_identity(
            &process,
            IdentityFacts {
                exists: true,
                uid: Err(DaemonError::io(IoKind::NotFound, "status is gone")),
                cmdline: Ok("com.example.app".to_owned()),
                start_time: Ok(4242),
            }
        ),
        Ok(false)
    ));
}

#[test]
fn identity_recheck_compares_uid_command_and_start_time() {
    let entry = ProcEntry {
        name: "123".to_owned(),
        status: Some("Name:\texample\nUid:\t10123\t10123\t10123\t10123\n".to_owned()),
        cmdline: Some("com.example.app\0".to_owned()),
        stat: Some(stat_with_state('S', 4242)),
        binder_snapshot: None,
        cgroup_freeze_path: None,
    };
    let process = discover_package_processes(&[entry], "com.example.app", 10_123).remove(0);
    let facts = |uid: u32, cmdline: &str, start_time: u64| IdentityFacts {
        exists: true,
        uid: Ok(uid),
        cmdline: Ok(cmdline.to_owned()),
        start_time: Ok(start_time),
    };
    assert_eq!(
        recheck_process_identity(&process, facts(10_123, "com.example.app", 4242)),
        Ok(true)
    );
    assert_eq!(
        recheck_process_identity(&process, facts(10_124, "com.example.app", 4242)),
        Ok(false)
    );
    assert_eq!(
        recheck_process_identity(&process, facts(10_123, "com.example.other", 4242)),
        Ok(false)
    );
    assert_eq!(
        recheck_process_identity(&process, facts(10_123, "com.example.app", 4243)),
        Ok(false)
    );
}

#[test]
fn runtime_discovery_checks_the_generic_cgroup_hierarchy_last() {
    assert_eq!(runtime_cgroup_roots()[2], CGROUP_ROOT);
}

#[test]
fn binder_debug_snapshot_distinguishes_active_transaction_from_idle_state() {
    assert_eq!(
        classify_binder_transaction_snapshot("proc 123\n  thread 123\n  transaction stack:\n"),
        "binder_queue active_sync_transaction"
    );
    assert_eq!(
        classify_binder_transaction_snapshot("proc 123\n  thread 123\n"),
        "binder_queue idle"
    );
}

#[test]
fn stopped_process_without_a_freezeit_ledger_entry_is_not_owned() {
    assert!(!proc_state_is_stopped(
        "123 (example) T 0 0 0 0 0 0 0 0 0 0 0 0 0 0 0 0 0 4242\n",
        &Disk::empty().files()
    ));
}

#[test]
fn matching_signal_stop_ledger_entry_is_required_for_restart_recovery() {
    let disk = Disk::with_ledger("123 4242\n");

    assert_eq!(
        disk.ownership(&stat_with_state('T', 4242)),
        Some(SignalStopOwnership::ResidualUnknown)
    );
    assert_eq!(disk.ownership(&stat_with_state('t', 4242)), None);
    assert_eq!(disk.ownership(&stat_with_state('T', 9999)), None);
}

#[test]
fn legacy_signal_stop_ledger_entry_is_owned_but_residual_unknown() {
    let disk = Disk::with_ledger("123 4242\n");

    assert_eq!(
        disk.ownership(&stat_with_state('T', 4242)),
        Some(SignalStopOwnership::ResidualUnknown)
    );
}

#[test]
fn signal_only_sidecar_entry_is_recognized() {
    let mut disk = Disk::with_ledger("123 4242\n");
    disk.provenance = Some(format!("{}\n", disk.signal_only_line(123, 4242)));

    assert_eq!(
        disk.ownership(&stat_with_state('T', 4242)),
        Some(SignalStopOwnership::SignalOnly)
    );
}

#[test]
fn unbound_signal_only_sidecar_entry_is_residual_unknown() {
    let mut disk = Disk::with_ledger("123 4242\n");
    disk.provenance = Some("123 4242 SignalOnly\n".to_owned());

    assert_eq!(
        disk.ownership(&stat_with_state('T', 4242)),
        Some(SignalStopOwnership::ResidualUnknown)
    );
}

#[test]
fn duplicate_signal_stop_ledger_entries_retain_residual_unknown_provenance() {
    let mut disk = Disk::with_ledger("123 4242\n123 4242\n");
    disk.provenance = Some(format!("{}\n", disk.signal_only_line(123, 4242)));

    assert_eq!(
        disk.ownership(&stat_with_state('T', 4242)),
        Some(SignalStopOwnership::ResidualUnknown)
    );
}

#[test]
fn duplicate_signal_only_sidecar_entries_are_residual_unknown() {
    let mut disk = Disk::with_ledger("123 4242\n");
    let record = disk.signal_only_line(123, 4242);
    disk.provenance = Some(format!("{record}\n{record}\n"));

    assert_eq!(
        disk.ownership(&stat_with_state('T', 4242)),
        Some(SignalStopOwnership::ResidualUnknown)
    );
}

#[test]
fn malformed_signal_only_sidecar_entry_with_extra_fields_is_residual_unknown() {
    let mut disk = Disk::with_ledger("123 4242\n");
    disk.provenance = Some(format!("{} unexpected\n", disk.signal_only_line(123, 4242)));

    assert_eq!(
        disk.ownership(&stat_with_state('T', 4242)),
        Some(SignalStopOwnership::ResidualUnknown)
    );
}

#[test]
fn new_signal_stop_ledger_records_are_written_in_the_legacy_two_field_format() {
    let mut disk = Disk::empty();

    disk.record(123, 4242);

    let text = disk.ledger.clone().expect("ledger text");
    assert!(text
        .lines()
        .all(|line| line.split_whitespace().count() == 2));
    assert_eq!(plain_ledger_records(&text), BTreeSet::from([(123, 4242)]));
    assert_eq!(
        disk.ownership(&stat_with_state('T', 4242)),
        Some(SignalStopOwnership::ResidualUnknown)
    );
}

#[test]
fn promotion_requires_an_exact_existing_main_ledger_identity_and_writes_sidecar_provenance() {
    let mut disk = Disk::empty();
    disk.record(123, 4242);

    assert!(!disk.promote(123, 9999));
    assert_eq!(
        disk.ownership(&stat_with_state('T', 4242)),
        Some(SignalStopOwnership::ResidualUnknown)
    );
    assert!(disk.promote(123, 4242));
    assert_eq!(disk.ledger.as_deref(), Some("123 4242\n"));
    assert_eq!(
        disk.provenance,
        Some(format!("{}\n", disk.signal_only_line(123, 4242)))
    );
    assert_eq!(
        disk.ownership(&stat_with_state('T', 4242)),
        Some(SignalStopOwnership::SignalOnly)
    );
}

#[test]
fn recording_a_signal_stop_resets_matching_signal_only_provenance() {
    let mut disk = Disk::with_ledger("123 4242\n");
    disk.provenance = Some(format!("{}\n", disk.signal_only_line(123, 4242)));

    disk.record(123, 4242);

    assert_eq!(disk.ledger.as_deref(), Some("123 4242\n"));
    assert_eq!(disk.provenance, None);
    assert_eq!(
        disk.ownership(&stat_with_state('T', 4242)),
        Some(SignalStopOwnership::ResidualUnknown)
    );
}

#[test]
fn taking_signal_stop_ledger_record_removes_matching_main_and_sidecar_records() {
    let mut disk = Disk::with_ledger("123 4242\n123 9999\n");
    disk.provenance = Some(format!(
        "{}\n{}\n",
        disk.signal_only_line(123, 4242),
        disk.signal_only_line(123, 9999)
    ));

    assert!(disk.take(123, 4242));
    assert_eq!(disk.ledger.as_deref(), Some("123 9999\n"));
    assert_eq!(
        disk.provenance,
        Some(format!("{}\n", disk.signal_only_line(123, 9999)))
    );
    assert_eq!(disk.ownership(&stat_with_state('T', 4242)), None);
    assert_eq!(
        disk.ownership(&stat_with_state('T', 9999)),
        Some(SignalStopOwnership::SignalOnly)
    );
}

#[test]
fn mismatching_sidecar_provenance_is_residual_unknown() {
    let mut disk = Disk::with_ledger("123 4242\n");
    disk.provenance = Some(format!("{}\n", disk.signal_only_line(123, 9999)));

    assert_eq!(
        disk.ownership(&stat_with_state('T', 4242)),
        Some(SignalStopOwnership::ResidualUnknown)
    );
}

#[test]
fn unknown_sidecar_provenance_is_residual_unknown() {
    let mut disk = Disk::with_ledger("123 4242\n");
    disk.provenance = Some("123 4242 Unknown\n".to_owned());

    assert_eq!(
        disk.ownership(&stat_with_state('T', 4242)),
        Some(SignalStopOwnership::ResidualUnknown)
    );
}

#[test]
fn unreadable_sidecar_provenance_is_residual_unknown() {
    let mut disk = Disk::with_ledger("123 4242\n");
    disk.provenance_readable = false;

    assert_eq!(
        disk.ownership(&stat_with_state('T', 4242)),
        Some(SignalStopOwnership::ResidualUnknown)
    );
}

#[test]
fn rollback_daemon_main_ledger_rewrite_invalidates_signal_only_sidecar() {
    let mut disk = Disk::with_ledger("123 4242\n");
    disk.provenance = Some(format!("{}\n", disk.signal_only_line(123, 4242)));
    let original_inode = disk.inode;

    disk.inode += 1;
    disk.ledger = Some("123 4242\n".to_owned());

    assert_ne!(disk.inode, original_inode);
    assert_eq!(
        disk.ownership(&stat_with_state('T', 4242)),
        Some(SignalStopOwnership::ResidualUnknown)
    );
}

#[test]
fn stale_sidecar_provenance_without_a_main_ledger_record_is_not_owned() {
    let mut disk = Disk::empty();
    disk.provenance = Some("123 4242 SignalOnly 1:2\n".to_owned());

    assert_eq!(disk.ownership(&stat_with_state('T', 4242)), None);
}

#[test]
fn legacy_extended_main_ledger_provenance_is_residual_unknown() {
    let disk = Disk::with_ledger("123 4242 SignalOnly\n");

    assert_eq!(
        disk.ownership(&stat_with_state('T', 4242)),
        Some(SignalStopOwnership::ResidualUnknown)
    );
}

#[test]
fn taking_a_record_that_is_not_there_changes_nothing() {
    let mut disk = Disk::with_ledger("123 4242\n");
    assert!(!disk.take(123, 9999));
    assert_eq!(disk.ledger.as_deref(), Some("123 4242\n"));
    assert_eq!(
        recorded_freezeit_signal_stop_ownership(&disk.files(), 123, 4242),
        Ok(Some(SignalStopOwnership::ResidualUnknown))
    );
}

#[test]
fn clearing_the_last_record_leaves_no_ledger() {
    let disk = Disk::with_ledger("123 4242\n");
    let change = clear_freezeit_signal_stop(&disk.files(), 123, 4242).expect("readable ledger");
    assert_eq!(change.ledger, None);
}
