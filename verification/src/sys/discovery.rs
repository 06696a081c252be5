//! The processes of applications, from what stands under `/proc`.

use std::collections::{BTreeMap, BTreeSet};
use vstd::prelude::*;
use vstd::string::*;

use crate::domain::runtime::{
    optional_text, process_views, ControlState, ProcessState, ProcessView, RuntimeProcess,
};
use crate::sys::cgroup::CGROUP_FREEZE_FILE;
use crate::sys::paths::{join_path, joined_path};
use crate::sys::procfs::{
    belongs_to, binder_control_evidence, command_name, command_of, control_evidence,
    discovered_process, parse_process_start_time, process_belongs_to, process_from_entry,
    read_uid_from_status, stat_start_time, status_uid, ProcEntry,
};
use crate::text::{
    copy, decimal, number, parse_i32, parse_signed, signed_decimal, signed_number, text,
};

verus! {

broadcast use {vstd::std_specs::btree::group_btree_axioms, vstd::laws_cmp::group_laws_cmp};

/// Where the freezer of a process would be in a cgroup hierarchy.
pub open spec fn freezer_path(root: Seq<char>, uid: u32, pid: i32) -> Seq<char> {
    let uid_dir = join_path(root, "uid_"@ + decimal(uid as nat));
    let pid_dir = join_path(uid_dir, "pid_"@ + signed_decimal(pid as int));
    join_path(pid_dir, CGROUP_FREEZE_FILE@)
}

/// Where the freezer of a process would be in a cgroup hierarchy.
pub fn cgroup_freeze_path(cgroup_root: &str, uid: u32, pid: i32) -> (r: String)
    ensures
        r@ == freezer_path(cgroup_root@, uid, pid),
{
    let mut uid_name = text("uid_");
    let digits = number(uid as u128);
    uid_name.append(digits.as_str());
    let mut pid_name = text("pid_");
    let digits = signed_number(pid as i64);
    pid_name.append(digits.as_str());
    let uid_dir = joined_path(cgroup_root, uid_name.as_str());
    let pid_dir = joined_path(uid_dir.as_str(), pid_name.as_str());
    joined_path(pid_dir.as_str(), CGROUP_FREEZE_FILE)
}

/// The processes of a uid, in the order in which they were found.
pub open spec fn uid_processes(entries: Seq<ProcEntry>, uid: u32) -> Seq<ProcessView>
    decreases entries.len(),
{
    if entries.len() == 0 {
        seq![]
    } else {
        let rest = uid_processes(entries.drop_last(), uid);
        match discovered_process(entries.last()) {
            Some(p) => if p.uid == uid {
                rest.push(p)
            } else {
                rest
            },
            None => rest,
        }
    }
}

/// Finds the processes of a uid.
pub fn discover_uid_processes(entries: &[ProcEntry], uid: u32) -> (r: Vec<RuntimeProcess>)
    ensures
        process_views(r@) == uid_processes(entries@, uid),
{
    let mut out: Vec<RuntimeProcess> = Vec::new();
    let mut i: usize = 0;
    assert(process_views(out@) =~= uid_processes(entries@.take(0), uid));
    while i < entries.len()
        invariant
            i <= entries@.len(),
            process_views(out@) == uid_processes(entries@.take(i as int), uid),
        decreases entries@.len() - i,
    {
        assert(entries@.take(i + 1).drop_last() =~= entries@.take(i as int));
        match process_from_entry(&entries[i]) {
            Some(p) => {
                if p.uid == uid {
                    let ghost done = process_views(out@);
                    out.push(p);
                    assert(process_views(out@) =~= done.push(p@));
                }
            },
            None => {},
        }
        i += 1;
    }
    assert(entries@.take(i as int) =~= entries@);
    out
}

/// The process of a package that a directory under `/proc` describes.
pub open spec fn package_process(e: ProcEntry, package: Seq<char>, uid: u32) -> Option<
    ProcessView,
> {
    match (parse_signed(e.name@, i32::MIN as int, i32::MAX as int), e.status) {
        (Some(pid), Some(status)) => {
            let name = match e.cmdline {
                Some(c) => command_name(c@),
                None => seq![],
            };
            if status_uid(status@) == Some(uid as nat) && belongs_to(name, package) {
                Some(
                    ProcessView {
                        pid: pid as i32,
                        uid,
                        package_name: package,
                        process_name: name,
                        proc_state: ProcessState::Unknown,
                        control_state: ControlState::Unknown,
                        cgroup_freeze_path: None,
                        binder_state: Some(
                            control_evidence(optional_text(e.binder_snapshot), status@),
                        ),
                        start_time_ticks: match e.stat {
                            None => None,
                            Some(stat) => match stat_start_time(stat@) {
                                Some(ticks) => Some(ticks as u64),
                                None => None,
                            },
                        },
                        last_seen_at_ms: 0,
                    },
                )
            } else {
                None
            }
        },
        _ => None,
    }
}

fn read_package_process(entry: &ProcEntry, package_name: &str, uid: u32) -> (r: Option<
    RuntimeProcess,
>)
    ensures
        match r {
            Some(p) => package_process(*entry, package_name@, uid) == Some(p@),
            None => package_process(*entry, package_name@, uid) is None,
        },
{
    let pid = match parse_i32(entry.name.as_str()) {
        Some(pid) => pid,
        None => {
            return None;
        },
    };
    let status = match &entry.status {
        Some(status) => status.as_str(),
        None => {
            return None;
        },
    };
    match read_uid_from_status(status) {
        Ok(found) => {
            if found != uid {
                return None;
            }
        },
        Err(_) => {
            return None;
        },
    }
    let process_name = match &entry.cmdline {
        Some(cmdline) => command_of(cmdline.as_str()),
        None => String::new(),
    };
    assert(entry.cmdline is None ==> process_name@ =~= seq![]);
    if !process_belongs_to(process_name.as_str(), package_name) {
        return None;
    }
    let evidence = match &entry.binder_snapshot {
        Some(snapshot) => binder_control_evidence(Some(snapshot.as_str()), status),
        None => binder_control_evidence(None, status),
    };
    let start_time_ticks = match &entry.stat {
        Some(stat) => match parse_process_start_time(stat.as_str()) {
            Ok(ticks) => Some(ticks),
            Err(_) => None,
        },
        None => None,
    };
    Some(
        RuntimeProcess {
            pid,
            uid,
            package_name: copy(package_name),
            process_name,
            proc_state: ProcessState::Unknown,
            control_state: ControlState::Unknown,
            cgroup_freeze_path: None,
            binder_state: Some(evidence),
            start_time_ticks,
            last_seen_at_ms: 0,
        },
    )
}

/// The processes of a package, in the order in which they were found.
pub open spec fn package_processes(entries: Seq<ProcEntry>, package: Seq<char>, uid: u32) -> Seq<
    ProcessView,
>
    decreases entries.len(),
{
    if entries.len() == 0 {
        seq![]
    } else {
        let rest = package_processes(entries.drop_last(), package, uid);
        match package_process(entries.last(), package, uid) {
            Some(p) => rest.push(p),
            None => rest,
        }
    }
}

/// Finds the processes of a package.
pub fn discover_package_processes(entries: &[ProcEntry], package_name: &str, uid: u32) -> (r: Vec<
    RuntimeProcess,
>)
    ensures
        process_views(r@) == package_processes(entries@, package_name@, uid),
{
    let mut out: Vec<RuntimeProcess> = Vec::new();
    let mut i: usize = 0;
    assert(process_views(out@) =~= package_processes(entries@.take(0), package_name@, uid));
    while i < entries.len()
        invariant
            i <= entries@.len(),
            process_views(out@) == package_processes(
                entries@.take(i as int),
                package_name@,
                uid,
            ),
        decreases entries@.len() - i,
    {
        assert(entries@.take(i + 1).drop_last() =~= entries@.take(i as int));
        match read_package_process(&entries[i], package_name, uid) {
            Some(p) => {
                let ghost done = process_views(out@);
                out.push(p);
                assert(process_views(out@) =~= done.push(p@));
            },
            None => {},
        }
        i += 1;
    }
    assert(entries@.take(i as int) =~= entries@);
    out
}

/// Whether a map holds the processes of the managed uids that have any.
pub open spec fn groups(
    m: Map<u32, Vec<RuntimeProcess>>,
    entries: Seq<ProcEntry>,
    managed: Set<u32>,
) -> bool {
    forall|uid: u32|
        #![trigger m.contains_key(uid)]
        {
            &&& m.contains_key(uid) <==> managed.contains(uid) && uid_processes(entries, uid).len()
                > 0
            &&& m.contains_key(uid) ==> process_views(m[uid]@) == uid_processes(entries, uid)
        }
}

/// Finds the processes of the managed uids, by uid.
pub fn discover_managed_uid_processes(entries: &[ProcEntry], managed_uids: &BTreeSet<u32>) -> (r:
    BTreeMap<u32, Vec<RuntimeProcess>>)
    ensures
        groups(r@, entries@, managed_uids@),
{
    let mut map: BTreeMap<u32, Vec<RuntimeProcess>> = BTreeMap::new();
    let mut i: usize = 0;
    while i < entries.len()
        invariant
            i <= entries@.len(),
            groups(map@, entries@.take(i as int), managed_uids@),
        decreases entries@.len() - i,
    {
        let ghost done = entries@.take(i as int);
        let ghost next = entries@.take(i + 1);
        let ghost before = map@;
        assert(next.drop_last() =~= done);
        assert(next.last() == entries@[i as int]);
        match process_from_entry(&entries[i]) {
            Some(p) => {
                let uid = p.uid;
                if managed_uids.contains(&uid) {
                    let mut list = match map.remove(&uid) {
                        Some(list) => list,
                        None => Vec::new(),
                    };
                    assert(process_views(list@) =~= uid_processes(done, uid)) by {
                        if !before.contains_key(uid) {
                            assert(uid_processes(done, uid).len() == 0);
                        }
                    }
                    let ghost old_list = process_views(list@);
                    list.push(p);
                    assert(process_views(list@) =~= old_list.push(p@));
                    assert(process_views(list@) == uid_processes(next, uid));
                    map.insert(uid, list);
                    assert forall|u: u32| #![trigger map@.contains_key(u)]
                        {
                            &&& map@.contains_key(u) <==> managed_uids@.contains(u)
                                && uid_processes(next, u).len() > 0
                            &&& map@.contains_key(u) ==> process_views(map@[u]@) == uid_processes(
                                next,
                                u,
                            )
                        } by {
                        if u != uid {
                            assert(map@.contains_key(u) == before.contains_key(u));
                            assert(uid_processes(next, u) == uid_processes(done, u));
                        }
                    }
                } else {
                    assert forall|u: u32| managed_uids@.contains(u) implies uid_processes(next, u)
                        == uid_processes(done, u) by {}
                }
            },
            None => {
                assert forall|u: u32| uid_processes(next, u) == uid_processes(done, u) by {}
            },
        }
        i += 1;
    }
    assert(entries@.take(i as int) =~= entries@);
    map
}

} // verus!
