//! Process facts read from `/proc`.

use vstd::prelude::*;
use vstd::string::*;

use crate::app::error::{outcome, DaemonError, ErrorView, IoKind};
use crate::domain::runtime::{
    copy_optional, optional_text, ControlState, ProcessState, ProcessView, RuntimeProcess,
};
use crate::sys::paths::{join_path, joined_path};
use crate::text::{
    after_prefix, begins, chars_of, contains, copy, decimal, find_char, has, index_from, lines,
    lower, lowered, number, parse_i32, parse_signed, parse_u32, parse_u64, parse_unsigned, same,
    signed_decimal, signed_number, split_lines, split_words, starts_with, string_range,
    strip_prefix, text, texts, words,
};

verus! {

/// What the ledger says about a process that was stopped by signal.
#[derive(Debug, Clone, Copy, PartialEq, Eq, Structural)]
pub enum SignalStopOwnership {
    /// Only a signal holds the process.
    SignalOnly,
    /// Other freezers may still hold the process.
    ResidualUnknown,
}

/// Where processes are found.
pub const PROC_ROOT: &'static str = "/proc";

/// The generic cgroup hierarchy.
pub const CGROUP_ROOT: &'static str = "/sys/fs/cgroup";

/// The cgroup hierarchy of applications.
pub const CGROUP_APPS_ROOT: &'static str = "/sys/fs/cgroup/apps";

/// The cgroup hierarchy of the system.
pub const CGROUP_SYSTEM_ROOT: &'static str = "/sys/fs/cgroup/system";

/// The cgroup hierarchies in the order in which they are searched: the generic one last.
pub fn runtime_cgroup_roots() -> (r: [&'static str; 3])
    ensures
        r@[0]@ == CGROUP_APPS_ROOT@,
        r@[1]@ == CGROUP_SYSTEM_ROOT@,
        r@[2]@ == CGROUP_ROOT@,
{
    [CGROUP_APPS_ROOT, CGROUP_SYSTEM_ROOT, CGROUP_ROOT]
}

/// The status file of a process.
pub open spec fn status_path(root: Seq<char>, pid: i32) -> Seq<char> {
    join_path(join_path(root, signed_decimal(pid as int)), "status"@)
}

/// The status file of a process.
pub fn process_status_path(proc_root: &str, pid: i32) -> (r: String)
    ensures
        r@ == status_path(proc_root@, pid),
{
    let digits = signed_number(pid as i64);
    let dir = joined_path(proc_root, digits.as_str());
    joined_path(dir.as_str(), "status")
}

// ---------------------------------------------------------------------------
// Status fields
// ---------------------------------------------------------------------------

/// The number that a line gives for a field: the first word behind the field's name.
pub open spec fn field_number(line: Seq<char>, field: Seq<char>, max: nat) -> Option<nat> {
    match strip_prefix(line, field) {
        None => None,
        Some(rest) => if words(rest).len() == 0 {
            None
        } else {
            parse_unsigned(words(rest)[0], max)
        },
    }
}

/// The number of the first line that gives one for a field.
pub open spec fn first_field(rows: Seq<Seq<char>>, field: Seq<char>, max: nat) -> Option<nat>
    decreases rows.len(),
{
    if rows.len() == 0 {
        None
    } else {
        match field_number(rows[0], field, max) {
            Some(n) => Some(n),
            None => first_field(rows.skip(1), field, max),
        }
    }
}

fn read_field(text: &str, field: &str, small: bool) -> (r: Option<u64>)
    ensures
        match r {
            Some(n) => first_field(
                lines(text@),
                field@,
                if small { u32::MAX as nat } else { u64::MAX as nat },
            ) == Some(n as nat),
            None => first_field(
                lines(text@),
                field@,
                if small { u32::MAX as nat } else { u64::MAX as nat },
            ) is None,
        },
{
    let ghost max = if small { u32::MAX as nat } else { u64::MAX as nat };
    let rows = split_lines(text);
    let ghost all = texts(rows@);
    let mut i: usize = 0;
    assert(all.skip(0) =~= all);
    while i < rows.len()
        invariant
            i <= rows@.len(),
            all == texts(rows@),
            all == lines(text@),
            max == (if small { u32::MAX as nat } else { u64::MAX as nat }),
            first_field(all, field@, max) == first_field(all.skip(i as int), field@, max),
        decreases rows@.len() - i,
    {
        assert(all.skip(i as int)[0] == rows@[i as int]@);
        assert(all.skip(i as int).skip(1) =~= all.skip(i + 1));
        match after_prefix(rows[i].as_str(), field) {
            None => {},
            Some(rest) => {
                let fields = split_words(rest.as_str());
                assert(texts(fields@).len() == fields@.len());
                if fields.len() > 0 {
                    assert(texts(fields@)[0] == fields@[0]@);
                    if small {
                        match parse_u32(fields[0].as_str()) {
                            Some(n) => {
                                return Some(n as u64);
                            },
                            None => {},
                        }
                    } else {
                        match parse_u64(fields[0].as_str()) {
                            Some(n) => {
                                return Some(n);
                            },
                            None => {},
                        }
                    }
                }
            },
        }
        i += 1;
    }
    None
}

/// The uid in a status file.
pub open spec fn status_uid(status: Seq<char>) -> Option<nat> {
    first_field(lines(status), "Uid:"@, u32::MAX as nat)
}

/// Reads the uid from a status file.
pub fn read_uid_from_status(status_text: &str) -> (r: Result<u32, DaemonError>)
    ensures
        match r {
            Ok(uid) => status_uid(status_text@) == Some(uid as nat),
            Err(e) => status_uid(status_text@) is None && e@ == ErrorView::System(
                "proc status did not contain a readable Uid line"@,
            ),
        },
{
    match read_field(status_text, "Uid:", true) {
        Some(uid) => {
            proof {
                first_field_bounded(lines(status_text@), "Uid:"@, u32::MAX as nat);
            }
            Ok(uid as u32)
        },
        None => Err(DaemonError::system("proc status did not contain a readable Uid line")),
    }
}

proof fn first_field_bounded(rows: Seq<Seq<char>>, field: Seq<char>, max: nat)
    ensures
        first_field(rows, field, max) matches Some(n) ==> n <= max,
    decreases rows.len(),
{
    if rows.len() > 0 {
        first_field_bounded(rows.skip(1), field, max);
    }
}

/// The context switches in a status file, as evidence of activity.
pub open spec fn switch_evidence(status: Seq<char>) -> Option<Seq<char>> {
    match (
        first_field(lines(status), "voluntary_ctxt_switches:"@, u64::MAX as nat),
        first_field(lines(status), "nonvoluntary_ctxt_switches:"@, u64::MAX as nat),
    ) {
        (Some(a), Some(b)) => Some(
            "context_switches voluntary="@ + decimal(a) + " nonvoluntary="@ + decimal(b)
                + " total="@ + decimal(a + b),
        ),
        _ => None,
    }
}

/// Reads the context switches from a status file.
pub fn process_context_switch_evidence(status_text: &str) -> (r: Option<String>)
    ensures
        match r {
            Some(s) => switch_evidence(status_text@) == Some(s@),
            None => switch_evidence(status_text@) is None,
        },
{
    let voluntary = match read_field(status_text, "voluntary_ctxt_switches:", false) {
        Some(n) => n,
        None => {
            return None;
        },
    };
    let nonvoluntary = match read_field(status_text, "nonvoluntary_ctxt_switches:", false) {
        Some(n) => n,
        None => {
            return None;
        },
    };
    let mut out = text("context_switches voluntary=");
    let digits = number(voluntary as u128);
    out.append(digits.as_str());
    out.append(" nonvoluntary=");
    let digits = number(nonvoluntary as u128);
    out.append(digits.as_str());
    out.append(" total=");
    let digits = number(voluntary as u128 + nonvoluntary as u128);
    out.append(digits.as_str());
    Some(out)
}

// ---------------------------------------------------------------------------
// Stat fields
// ---------------------------------------------------------------------------

/// The position behind the last closing bracket at or before `to`, or zero.
pub open spec fn behind_command(s: Seq<char>, to: int) -> int
    decreases to,
{
    if to <= 0 {
        0
    } else if s[to - 1] == ')' {
        to
    } else {
        behind_command(s, to - 1)
    }
}

/// The words behind the command name, which ends at the last closing bracket.
pub open spec fn stat_fields(stat: Seq<char>) -> Option<Seq<Seq<char>>> {
    let at = behind_command(stat, stat.len() as int);
    if at == 0 {
        None
    } else {
        Some(words(stat.skip(at)))
    }
}

fn read_stat_fields(stat_text: &str) -> (r: Option<Vec<String>>)
    ensures
        match r {
            Some(fields) => stat_fields(stat_text@) == Some(texts(fields@)),
            None => stat_fields(stat_text@) is None,
        },
{
    let x = chars_of(stat_text);
    let mut i: usize = x.len();
    while i > 0 && x[i - 1] != ')'
        invariant
            i <= x@.len(),
            x@ == stat_text@,
            behind_command(stat_text@, stat_text@.len() as int) == behind_command(
                stat_text@,
                i as int,
            ),
        decreases i,
    {
        i -= 1;
    }
    if i == 0 {
        return None;
    }
    let rest = string_range(&x, i, x.len());
    assert(rest@ =~= stat_text@.skip(i as int));
    Some(split_words(rest.as_str()))
}

/// The start time of a process: the twentieth word behind the command name.
pub open spec fn stat_start_time(stat: Seq<char>) -> Option<nat> {
    match stat_fields(stat) {
        Some(fields) if fields.len() > 19 => parse_unsigned(fields[19], u64::MAX as nat),
        _ => None,
    }
}

/// Reads the start time from a stat file.
pub fn parse_process_start_time(stat_text: &str) -> (r: Result<u64, DaemonError>)
    ensures
        match r {
            Ok(ticks) => stat_start_time(stat_text@) == Some(ticks as nat),
            Err(e) => stat_start_time(stat_text@) is None && e@ == ErrorView::System(
                if stat_fields(stat_text@) is None {
                    "proc stat did not contain a command terminator"@
                } else {
                    "proc stat did not contain a readable start time"@
                },
            ),
        },
{
    let fields = match read_stat_fields(stat_text) {
        Some(fields) => fields,
        None => {
            return Err(DaemonError::system("proc stat did not contain a command terminator"));
        },
    };
    assert(texts(fields@).len() == fields@.len());
    if fields.len() > 19 {
        assert(texts(fields@)[19] == fields@[19]@);
        match parse_u64(fields[19].as_str()) {
            Some(ticks) => {
                return Ok(ticks);
            },
            None => {},
        }
    }
    Err(DaemonError::system("proc stat did not contain a readable start time"))
}

/// The state of a process: the first character behind the command name.
pub open spec fn stat_state(stat: Seq<char>) -> Option<char> {
    match stat_fields(stat) {
        Some(fields) if fields.len() > 0 && fields[0].len() > 0 => Some(fields[0][0]),
        _ => None,
    }
}

/// Reads the state from a stat file.
pub fn parse_proc_state_char(stat_text: &str) -> (r: Result<char, DaemonError>)
    ensures
        match r {
            Ok(c) => stat_state(stat_text@) == Some(c),
            Err(e) => stat_state(stat_text@) is None && e@ == ErrorView::System(
                if stat_fields(stat_text@) is None {
                    "proc stat did not contain a command terminator"@
                } else {
                    "proc stat did not contain a readable state field"@
                },
            ),
        },
{
    let fields = match read_stat_fields(stat_text) {
        Some(fields) => fields,
        None => {
            return Err(DaemonError::system("proc stat did not contain a command terminator"));
        },
    };
    assert(texts(fields@).len() == fields@.len());
    if fields.len() > 0 {
        assert(texts(fields@)[0] == fields@[0]@);
        let first = chars_of(fields[0].as_str());
        if first.len() > 0 {
            return Ok(first[0]);
        }
    }
    Err(DaemonError::system("proc stat did not contain a readable state field"))
}

/// The pid at the beginning of a stat file.
pub open spec fn stat_pid(stat: Seq<char>) -> Option<int> {
    if words(stat).len() == 0 {
        None
    } else {
        parse_signed(words(stat)[0], i32::MIN as int, i32::MAX as int)
    }
}

/// Reads the pid from a stat file.
pub fn parse_process_pid(stat_text: &str) -> (r: Option<i32>)
    ensures
        match r {
            Some(pid) => stat_pid(stat_text@) == Some(pid as int),
            None => stat_pid(stat_text@) is None,
        },
{
    let fields = split_words(stat_text);
    assert(texts(fields@).len() == fields@.len());
    if fields.len() == 0 {
        return None;
    }
    assert(texts(fields@)[0] == fields@[0]@);
    parse_i32(fields[0].as_str())
}

// ---------------------------------------------------------------------------
// Binder evidence
// ---------------------------------------------------------------------------

/// What a binder snapshot of a process shows.
pub open spec fn binder_evidence(snapshot: Seq<char>) -> Seq<char> {
    let s = lower(snapshot);
    if contains(s, "transaction stack"@) || contains(s, "transaction_stack"@) || contains(
        s,
        "sync_txn"@,
    ) {
        "binder_queue active_sync_transaction"@
    } else if contains(s, "proc "@) || contains(s, "thread "@) {
        "binder_queue idle"@
    } else {
        "binder_queue unknown"@
    }
}

/// Classifies a binder snapshot of a process.
pub fn classify_binder_transaction_snapshot(snapshot: &str) -> (r: String)
    ensures
        r@ == binder_evidence(snapshot@),
{
    let normalized = lowered(snapshot);
    let s = normalized.as_str();
    if has(s, "transaction stack") || has(s, "transaction_stack") || has(s, "sync_txn") {
        text("binder_queue active_sync_transaction")
    } else if has(s, "proc ") || has(s, "thread ") {
        text("binder_queue idle")
    } else {
        text("binder_queue unknown")
    }
}

/// The evidence about the binder of a process: its snapshot, or its context switches where
/// there is none.
pub open spec fn control_evidence(snapshot: Option<Seq<char>>, status: Seq<char>) -> Seq<char> {
    match snapshot {
        Some(s) => binder_evidence(s),
        None => "binder_queue unknown "@ + (match switch_evidence(status) {
            Some(e) => e,
            None => "context_switches unavailable"@,
        }),
    }
}

/// The evidence about the binder of a process.
pub fn binder_control_evidence(snapshot: Option<&str>, status_text: &str) -> (r: String)
    ensures
        r@ == control_evidence(
            match snapshot {
                Some(s) => Some(s@),
                None => None,
            },
            status_text@,
        ),
{
    match snapshot {
        Some(s) => classify_binder_transaction_snapshot(s),
        None => {
            let mut out = text("binder_queue unknown ");
            match process_context_switch_evidence(status_text) {
                Some(e) => {
                    out.append(e.as_str());
                },
                None => {
                    out.append("context_switches unavailable");
                },
            }
            out
        },
    }
}

// ---------------------------------------------------------------------------
// Identity of a process
// ---------------------------------------------------------------------------

/// The command name: what stands before the first zero character.
pub open spec fn command_name(cmdline: Seq<char>) -> Seq<char> {
    cmdline.take(index_from(cmdline, '\0', 0))
}

/// The command name in a command line file.
pub fn command_of(cmdline: &str) -> (r: String)
    ensures
        r@ == command_name(cmdline@),
{
    let x = chars_of(cmdline);
    let end = find_char(&x, '\0', 0);
    let r = string_range(&x, 0, end);
    assert(r@ =~= command_name(cmdline@));
    r
}

/// The package of a process name: what stands before the first colon.
pub open spec fn package_of(process: Seq<char>) -> Seq<char> {
    process.take(index_from(process, ':', 0))
}

/// The package of a process name.
pub fn package_of_process(process_name: &str) -> (r: String)
    ensures
        r@ == package_of(process_name@),
{
    let x = chars_of(process_name);
    let end = find_char(&x, ':', 0);
    let r = string_range(&x, 0, end);
    assert(r@ =~= package_of(process_name@));
    r
}

/// Whether a process name belongs to a package: the package itself, or a name under it.
pub open spec fn belongs_to(process: Seq<char>, package: Seq<char>) -> bool {
    process == package || starts_with(process, package + ":"@)
}

/// Whether a process name belongs to a package.
pub fn process_belongs_to(process_name: &str, package_name: &str) -> (r: bool)
    ensures
        r == belongs_to(process_name@, package_name@),
{
    let mut prefix = copy(package_name);
    prefix.append(":");
    same(process_name, package_name) || begins(process_name, prefix.as_str())
}

/// An error that says that the process is gone.
pub open spec fn is_gone(e: ErrorView) -> bool {
    e matches ErrorView::Io(IoKind::NotFound, _)
}

/// Whether an error says that the process is gone.
pub fn is_disappeared_process_error(error: &DaemonError) -> (r: bool)
    ensures
        r == is_gone(error@),
{
    match error {
        DaemonError::Io(failure) => failure.kind == IoKind::NotFound,
        _ => false,
    }
}

/// What was read about a process. Readings stop at the first one that decides.
#[derive(Debug)]
pub struct IdentityFacts {
    pub exists: bool,
    pub uid: Result<u32, DaemonError>,
    pub cmdline: Result<String, DaemonError>,
    pub start_time: Result<u64, DaemonError>,
}

/// The verdict on a reading that failed: gone is a mismatch, anything else an error.
pub open spec fn failed_reading(e: ErrorView) -> Result<bool, ErrorView> {
    if is_gone(e) {
        Ok(false)
    } else {
        Err(e)
    }
}

/// Whether a process is still the one that was discovered: it exists with the same uid, the
/// same name under its package and the same start time.
pub open spec fn identity_holds(p: ProcessView, facts: IdentityFacts) -> Result<bool, ErrorView> {
    if !facts.exists {
        Ok(false)
    } else {
        match facts.uid {
            Err(e) => failed_reading(e@),
            Ok(uid) => if uid != p.uid {
                Ok(false)
            } else {
                match facts.cmdline {
                    Err(e) => failed_reading(e@),
                    Ok(cmdline) => if cmdline@ != p.process_name || !belongs_to(
                        cmdline@,
                        p.package_name,
                    ) {
                        Ok(false)
                    } else {
                        match p.start_time_ticks {
                            None => Ok(false),
                            Some(expected) => match facts.start_time {
                                Err(e) => failed_reading(e@),
                                Ok(actual) => Ok(actual == expected),
                            },
                        }
                    },
                }
            },
        }
    }
}

fn verdict_on_failure(error: DaemonError) -> (r: Result<bool, DaemonError>)
    ensures
        outcome(r) == failed_reading(error@),
{
    if is_disappeared_process_error(&error) {
        Ok(false)
    } else {
        Err(error)
    }
}

/// Decides whether a process is still the one that was discovered.
pub fn recheck_process_identity(process: &RuntimeProcess, facts: IdentityFacts) -> (r: Result<
    bool,
    DaemonError,
>)
    ensures
        outcome(r) == identity_holds(process@, facts),
{
    if !facts.exists {
        return Ok(false);
    }
    match facts.uid {
        Err(error) => {
            return verdict_on_failure(error);
        },
        Ok(uid) => {
            if uid != process.uid {
                return Ok(false);
            }
        },
    }
    match facts.cmdline {
        Err(error) => {
            return verdict_on_failure(error);
        },
        Ok(cmdline) => {
            if !same(cmdline.as_str(), process.process_name.as_str()) || !process_belongs_to(
                cmdline.as_str(),
                process.package_name.as_str(),
            ) {
                return Ok(false);
            }
        },
    }
    match process.start_time_ticks {
        None => Ok(false),
        Some(expected) => match facts.start_time {
            Err(error) => verdict_on_failure(error),
            Ok(actual) => Ok(actual == expected),
        },
    }
}

/// A process whose start time is not known never passes for the one that was discovered.
pub proof fn unknown_start_time_never_holds(p: ProcessView, facts: IdentityFacts)
    requires
        p.start_time_ticks is None,
    ensures
        identity_holds(p, facts) != Ok::<bool, ErrorView>(true),
{
}

// ---------------------------------------------------------------------------
// Discovery
// ---------------------------------------------------------------------------

/// The files of one process directory, as far as they could be read.
#[derive(Debug)]
pub struct ProcEntry {
    pub name: String,
    pub status: Option<String>,
    pub cmdline: Option<String>,
    pub stat: Option<String>,
    pub binder_snapshot: Option<String>,
    pub cgroup_freeze_path: Option<String>,
}

/// The process that a directory under `/proc` describes: its name is a pid, its status gives
/// a uid and its command line a name.
pub open spec fn discovered_process(e: ProcEntry) -> Option<ProcessView> {
    match (parse_signed(e.name@, i32::MIN as int, i32::MAX as int), e.status) {
        (Some(pid), Some(status)) => match status_uid(status@) {
            None => None,
            Some(uid) => {
                let name = match e.cmdline {
                    Some(c) => command_name(c@),
                    None => seq![],
                };
                if name.len() == 0 {
                    None
                } else {
                    Some(
                        ProcessView {
                            pid: pid as i32,
                            uid: uid as u32,
                            package_name: package_of(name),
                            process_name: name,
                            proc_state: ProcessState::Cached,
                            control_state: ControlState::Running,
                            cgroup_freeze_path: optional_text(
                                e.cgroup_freeze_path,
                            ),
                            binder_state: Some(
                                control_evidence(
                                    optional_text(e.binder_snapshot),
                                    status@,
                                ),
                            ),
                            start_time_ticks: match e.stat {
                                None => None,
                                Some(stat) => match stat_start_time(stat@) {
                                    Some(ticks) => Some(ticks as u64),
                                    None => None,
                                },
                            },
                            last_seen_at_ms: 0,
                        },
                    )
                }
            },
        },
        _ => None,
    }
}

/// Reads the process that a directory under `/proc` describes.
pub fn process_from_entry(entry: &ProcEntry) -> (r: Option<RuntimeProcess>)
    ensures
        match r {
            Some(p) => discovered_process(*entry) == Some(p@),
            None => discovered_process(*entry) is None,
        },
{
    let pid = match parse_i32(entry.name.as_str()) {
        Some(pid) => pid,
        None => {
            return None;
        },
    };
    let status = match &entry.status {
        Some(status) => status.as_str(),
        None => {
            return None;
        },
    };
    let uid = match read_uid_from_status(status) {
        Ok(uid) => uid,
        Err(_) => {
            return None;
        },
    };
    let process_name = match &entry.cmdline {
        Some(cmdline) => command_of(cmdline.as_str()),
        None => String::new(),
    };
    let name_chars = chars_of(process_name.as_str());
    if name_chars.len() == 0 {
        return None;
    }
    let package_name = package_of_process(process_name.as_str());
    let evidence = match &entry.binder_snapshot {
        Some(snapshot) => binder_control_evidence(Some(snapshot.as_str()), status),
        None => binder_control_evidence(None, status),
    };
    let start_time_ticks = match &entry.stat {
        Some(stat) => match parse_process_start_time(stat.as_str()) {
            Ok(ticks) => Some(ticks),
            Err(_) => None,
        },
        None => None,
    };
    Some(
        RuntimeProcess {
            pid,
            uid,
            package_name,
            process_name,
            proc_state: ProcessState::Cached,
            control_state: ControlState::Running,
            cgroup_freeze_path: copy_optional(&entry.cgroup_freeze_path),
            binder_state: Some(evidence),
            start_time_ticks,
            last_seen_at_ms: 0,
        },
    )
}

} // verus!
