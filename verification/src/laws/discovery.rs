//! What discovery finds out about a process.

use vstd::prelude::*;

use crate::app::error::ErrorView;
use crate::domain::runtime::{ControlState, ProcessState, ProcessView};
use crate::sys::discovery::{package_process, package_processes, uid_processes};
use crate::sys::procfs::{
    behind_command, binder_evidence, command_name, discovered_process, first_field, identity_holds,
    stat_start_time, stat_state, status_uid, IdentityFacts, ProcEntry,
};
use crate::text::{
    contains, decimal, index_from, index_from_facts, lines, lower, lower_char, occurs_at,
    parse_unsigned, signed_decimal, signed_reads_back, starts_with, strip_prefix,
    unsigned_reads_back, words,
};

verus! {

/// A character reads as a letter, in upper or in lower case.
pub open spec fn reads_as(c: char, letter: char) -> bool {
    c == letter || ('A' <= c <= 'Z' && letter as int == c as int + 32)
}

/// A mark stands at a place of a text, in upper or in lower case.
pub open spec fn stands_at(s: Seq<char>, mark: Seq<char>, i: int) -> bool {
    &&& 0 <= i
    &&& i + mark.len() <= s.len()
    &&& forall|k: int| 0 <= k < mark.len() ==> reads_as(s[i + k], #[trigger] mark[k])
}

/// A mark stands in a text, in upper or in lower case.
pub open spec fn bears(s: Seq<char>, mark: Seq<char>) -> bool {
    exists|i: int| #[trigger] stands_at(s, mark, i)
}

/// A mark without capitals stands in a text, in any case of letters, exactly where it stands in the
/// lower-case form of the text.
pub proof fn marks_are_found(s: Seq<char>, mark: Seq<char>)
    requires
        forall|k: int| 0 <= k < mark.len() ==> !('A' <= #[trigger] mark[k] <= 'Z'),
    ensures
        contains(lower(s), mark) == bears(s, mark),
{
    let t = lower(s);
    assert forall|i: int| stands_at(s, mark, i) == #[trigger] occurs_at(t, mark, i) by {
        if 0 <= i && i + mark.len() <= s.len() {
            let part = t.subrange(i, i + mark.len());
            if stands_at(s, mark, i) {
                assert forall|k: int| 0 <= k < mark.len() implies part[k] == mark[k] by {
                    assert(reads_as(s[i + k], mark[k]));
                    assert(t[i + k] == lower_char(s[i + k]));
                }
                assert(part =~= mark);
            }
            if occurs_at(t, mark, i) {
                assert forall|k: int| 0 <= k < mark.len() implies reads_as(
                    s[i + k],
                    #[trigger] mark[k],
                ) by {
                    assert(part[k] == mark[k]);
                    assert(t[i + k] == lower_char(s[i + k]));
                }
            }
        }
    }
    if contains(t, mark) {
        let i = choose|i: int| occurs_at(t, mark, i);
        assert(stands_at(s, mark, i));
    }
    if bears(s, mark) {
        let i = choose|i: int| #[trigger] stands_at(s, mark, i);
        assert(occurs_at(t, mark, i));
    }
}

/// A snapshot of the binder shows a transaction that somebody waits for.
pub open spec fn bears_transaction(s: Seq<char>) -> bool {
    bears(s, "transaction stack"@) || bears(s, "transaction_stack"@) || bears(s, "sync_txn"@)
}

/// A snapshot of the binder names a process or a thread.
pub open spec fn bears_process(s: Seq<char>) -> bool {
    bears(s, "proc "@) || bears(s, "thread "@)
}

/// The state of the binder is what the snapshot shows.
pub open spec fn binder_shows(snapshot: Seq<char>, state: Option<Seq<char>>) -> bool {
    &&& bears_transaction(snapshot) <==> state == Some("binder_queue active_sync_transaction"@)
    &&& !bears_transaction(snapshot) && bears_process(snapshot) <==> state == Some(
        "binder_queue idle"@,
    )
    &&& !bears_transaction(snapshot) && !bears_process(snapshot) <==> state == Some(
        "binder_queue unknown"@,
    )
}

proof fn snapshots_are_read(snapshot: Seq<char>)
    ensures
        binder_shows(snapshot, Some(binder_evidence(snapshot))),
{
    reveal_strlit("transaction stack");
    reveal_strlit("transaction_stack");
    reveal_strlit("sync_txn");
    reveal_strlit("proc ");
    reveal_strlit("thread ");
    reveal_strlit("binder_queue active_sync_transaction");
    reveal_strlit("binder_queue idle");
    reveal_strlit("binder_queue unknown");
    assert("binder_queue active_sync_transaction"@.len() != "binder_queue idle"@.len());
    assert("binder_queue active_sync_transaction"@.len() != "binder_queue unknown"@.len());
    assert("binder_queue idle"@.len() != "binder_queue unknown"@.len());
    marks_are_found(snapshot, "transaction stack"@);
    marks_are_found(snapshot, "transaction_stack"@);
    marks_are_found(snapshot, "sync_txn"@);
    marks_are_found(snapshot, "proc "@);
    marks_are_found(snapshot, "thread "@);
}

/// A process that is found has the state of the binder that its snapshot shows: a transaction
/// somebody waits for wherever the snapshot bears the mark of one, in any case of letters; else
/// an idle queue where it names a process or a thread.
pub proof fn found_processes_show_their_binder(e: ProcEntry, package: Seq<char>, uid: u32)
    requires
        e.binder_snapshot is Some,
    ensures
        discovered_process(e) matches Some(p) ==> binder_shows(
            e.binder_snapshot->0@,
            p.binder_state,
        ),
        package_process(e, package, uid) matches Some(p) ==> binder_shows(
            e.binder_snapshot->0@,
            p.binder_state,
        ),
{
    snapshots_are_read(e.binder_snapshot->0@);
}

/// Without a snapshot the state of the binder is unknown, and never taken for an idle or an
/// active one.
pub proof fn missing_snapshots_show_nothing(e: ProcEntry, package: Seq<char>, uid: u32)
    requires
        e.binder_snapshot is None,
    ensures
        discovered_process(e) matches Some(p) ==> p.binder_state matches Some(t) && t.len() >= 21
            && t.take(21) == "binder_queue unknown "@,
        package_process(e, package, uid) matches Some(p) ==> p.binder_state matches Some(t)
            && t.len() >= 21 && t.take(21) == "binder_queue unknown "@,
{
    reveal_strlit("binder_queue unknown ");
    if let Some(p) = discovered_process(e) {
        assert(p.binder_state->0.take(21) =~= "binder_queue unknown "@);
    }
    if let Some(p) = package_process(e, package, uid) {
        assert(p.binder_state->0.take(21) =~= "binder_queue unknown "@);
    }
}

/// A text begins another one, and a separator or the end follows.
pub open spec fn leads(part: Seq<char>, whole: Seq<char>, separator: char) -> bool {
    &&& part.len() <= whole.len()
    &&& whole.take(part.len() as int) == part
    &&& part.len() < whole.len() ==> whole[part.len() as int] == separator
    &&& forall|k: int| 0 <= k < part.len() ==> #[trigger] part[k] != separator
}

proof fn heads_lead(whole: Seq<char>, separator: char)
    ensures
        leads(whole.take(index_from(whole, separator, 0)), whole, separator),
{
    index_from_facts(whole, separator, 0);
    let n = index_from(whole, separator, 0);
    let part = whole.take(n);
    assert(whole.take(part.len() as int) =~= part);
}

/// A process that is found has the name at the beginning of its command line, and the package at
/// the beginning of that name; it is seen running, and its freezer is the one that was found.
pub proof fn found_processes_bear_their_names(e: ProcEntry)
    ensures
        discovered_process(e) matches Some(p) ==> {
            &&& e.cmdline matches Some(c) && leads(p.process_name, c@, '\0')
            &&& p.process_name.len() > 0
            &&& leads(p.package_name, p.process_name, ':')
            &&& p.control_state == ControlState::Running
            &&& p.proc_state == ProcessState::Cached
            &&& p.cgroup_freeze_path is Some == e.cgroup_freeze_path is Some
            &&& e.cgroup_freeze_path matches Some(path) ==> p.cgroup_freeze_path == Some(path@)
        },
{
    if let Some(c) = e.cmdline {
        heads_lead(c@, '\0');
        heads_lead(command_name(c@), ':');
    }
}

/// A process of a package that is found bears the package's name, alone or before a colon.
pub proof fn found_package_processes_belong_to_it(e: ProcEntry, package: Seq<char>, uid: u32)
    ensures
        package_process(e, package, uid) matches Some(p) ==> {
            &&& p.package_name == package
            &&& p.uid == uid
            &&& p.process_name == package || (p.process_name.len() > package.len()
                && p.process_name.take(package.len() as int) == package
                && p.process_name[package.len() as int] == ':')
        },
{
    reveal_strlit(":");
    if let Some(p) = package_process(e, package, uid) {
        if p.process_name != package {
            let prefix = package + ":"@;
            assert(p.process_name.subrange(0, prefix.len() as int) == prefix);
            assert(p.process_name.take(package.len() as int) =~= package) by {
                assert forall|k: int| 0 <= k < package.len() implies p.process_name[k]
                    == package[k] by {
                    assert(p.process_name.subrange(0, prefix.len() as int)[k] == prefix[k]);
                }
            }
            assert(p.process_name.subrange(0, prefix.len() as int)[package.len() as int]
                == prefix[package.len() as int]);
        }
    }
}

/// The pid of a process that is found is the number that names its directory.
pub proof fn found_processes_bear_their_pid(e: ProcEntry, pid: i32)
    requires
        e.name@ == signed_decimal(pid as int),
    ensures
        discovered_process(e) matches Some(p) ==> p.pid == pid,
        discovered_process(e) is None ==> e.status is None || status_uid(e.status->0@) is None
            || e.cmdline is None || e.cmdline->0@.len() == 0 || e.cmdline->0@[0] == '\0',
{
    signed_reads_back(pid as int, i32::MIN as int, i32::MAX as int);
    if let Some(c) = e.cmdline {
        heads_lead(c@, '\0');
        if c@.len() > 0 && command_name(c@).len() == 0 {
            assert(c@[0] == '\0');
        }
    }
}

/// The uid of a process is the first number in the first line of its status that starts with
/// `Uid:`.
pub proof fn the_uid_line_names_the_uid(status: Seq<char>, k: int, uid: u32)
    requires
        0 <= k < lines(status).len(),
        forall|m: int|
            0 <= m < k ==> !starts_with(#[trigger] lines(status)[m], "Uid:"@),
        starts_with(lines(status)[k], "Uid:"@),
        words(lines(status)[k].skip(4)).len() > 0,
        words(lines(status)[k].skip(4))[0] == decimal(uid as nat),
    ensures
        status_uid(status) == Some(uid as nat),
{
    reveal_strlit("Uid:");
    unsigned_reads_back(uid as nat, u32::MAX as nat);
    first_line_counts(lines(status), k, "Uid:"@, u32::MAX as nat);
}

proof fn first_line_counts(rows: Seq<Seq<char>>, k: int, field: Seq<char>, max: nat)
    requires
        0 <= k < rows.len(),
        forall|m: int| 0 <= m < k ==> !starts_with(#[trigger] rows[m], field),
        starts_with(rows[k], field),
        words(rows[k].skip(field.len() as int)).len() > 0,
        parse_unsigned(words(rows[k].skip(field.len() as int))[0], max) is Some,
    ensures
        first_field(rows, field, max) == parse_unsigned(
            words(rows[k].skip(field.len() as int))[0],
            max,
        ),
    decreases k,
{
    if k > 0 {
        assert(strip_prefix(rows[0], field) is None);
        let rest = rows.skip(1);
        assert(rest[k - 1] == rows[k]);
        assert forall|m: int| 0 <= m < k - 1 implies !starts_with(#[trigger] rest[m], field) by {
            assert(rest[m] == rows[m + 1]);
        }
        first_line_counts(rest, k - 1, field, max);
    }
}

/// In a stat file the state and the start time stand behind the last closing bracket, as the
/// first and the twentieth word.
pub proof fn stat_words_stand_behind_the_command(head: Seq<char>, tail: Seq<char>, ticks: u64)
    requires
        forall|k: int| 0 <= k < tail.len() ==> #[trigger] tail[k] != ')',
        words(tail).len() > 19,
        words(tail)[0].len() > 0,
        words(tail)[19] == decimal(ticks as nat),
    ensures
        stat_start_time(head.push(')') + tail) == Some(ticks as nat),
        stat_state(head.push(')') + tail) == Some(words(tail)[0][0]),
{
    let s = head.push(')') + tail;
    last_bracket_counts(s, s.len() as int, head.len() as int);
    assert(s.skip(head.len() + 1 as int) =~= tail);
    unsigned_reads_back(ticks as nat, u64::MAX as nat);
}

/// A stat file with fewer words, or without a closing bracket, gives no start time.
pub proof fn short_stat_files_give_no_start_time(head: Seq<char>, tail: Seq<char>)
    requires
        forall|k: int| 0 <= k < tail.len() ==> #[trigger] tail[k] != ')',
    ensures
        words(tail).len() <= 19 ==> stat_start_time(head.push(')') + tail) is None,
        stat_start_time(tail) is None,
{
    let s = head.push(')') + tail;
    last_bracket_counts(s, s.len() as int, head.len() as int);
    assert(s.skip(head.len() + 1 as int) =~= tail);
    no_bracket_counts(tail, tail.len() as int);
}

proof fn no_bracket_counts(s: Seq<char>, to: int)
    requires
        0 <= to <= s.len(),
        forall|k: int| 0 <= k < s.len() ==> #[trigger] s[k] != ')',
    ensures
        behind_command(s, to) == 0,
    decreases to,
{
    if to > 0 {
        no_bracket_counts(s, to - 1);
    }
}

proof fn last_bracket_counts(s: Seq<char>, to: int, at: int)
    requires
        0 <= at < to <= s.len(),
        s[at] == ')',
        forall|k: int| at < k < to ==> #[trigger] s[k] != ')',
    ensures
        behind_command(s, to) == at + 1,
    decreases to,
{
    if to > at + 1 {
        last_bracket_counts(s, to - 1, at);
    }
}

/// The processes of a uid are found one directory after the other: in the order of the
/// directories, each once, those of the uid and no others.
pub proof fn uids_are_told_apart(a: Seq<ProcEntry>, b: Seq<ProcEntry>, e: ProcEntry, uid: u32)
    ensures
        uid_processes(a + b, uid) == uid_processes(a, uid) + uid_processes(b, uid),
        uid_processes(seq![e], uid) == match discovered_process(e) {
            Some(p) if p.uid == uid => seq![p],
            _ => seq![],
        },
        forall|k: int|
            0 <= k < uid_processes(a, uid).len() ==> (#[trigger] uid_processes(a, uid)[k]).uid
                == uid,
{
    uid_parts(a, b, uid);
    own_uid_only(a, uid);
    assert(seq![e].drop_last() =~= seq![]);
    assert(uid_processes(seq![], uid) =~= seq![]);
    if let Some(p) = discovered_process(e) {
        assert(Seq::<ProcessView>::empty().push(p) =~= seq![p]);
    }
}

proof fn uid_parts(a: Seq<ProcEntry>, b: Seq<ProcEntry>, uid: u32)
    ensures
        uid_processes(a + b, uid) == uid_processes(a, uid) + uid_processes(b, uid),
    decreases b.len(),
{
    if b.len() == 0 {
        assert(a + b =~= a);
        assert(uid_processes(a, uid) + uid_processes(b, uid) =~= uid_processes(a, uid));
    } else {
        assert((a + b).drop_last() =~= a + b.drop_last());
        uid_parts(a, b.drop_last(), uid);
        assert(uid_processes(a + b, uid) =~= uid_processes(a, uid) + uid_processes(b, uid));
    }
}

proof fn own_uid_only(a: Seq<ProcEntry>, uid: u32)
    ensures
        forall|k: int|
            0 <= k < uid_processes(a, uid).len() ==> (#[trigger] uid_processes(a, uid)[k]).uid
                == uid,
    decreases a.len(),
{
    if a.len() > 0 {
        own_uid_only(a.drop_last(), uid);
    }
}

/// The processes of a package are found one directory after the other.
pub proof fn packages_are_told_apart(
    a: Seq<ProcEntry>,
    b: Seq<ProcEntry>,
    e: ProcEntry,
    package: Seq<char>,
    uid: u32,
)
    ensures
        package_processes(a + b, package, uid) == package_processes(a, package, uid)
            + package_processes(b, package, uid),
        package_processes(seq![e], package, uid) == match package_process(e, package, uid) {
            Some(p) => seq![p],
            None => seq![],
        },
    decreases b.len(),
{
    assert(seq![e].drop_last() =~= seq![]);
    assert(package_processes(seq![], package, uid) =~= seq![]);
    if let Some(p) = package_process(e, package, uid) {
        assert(Seq::<ProcessView>::empty().push(p) =~= seq![p]);
    }
    if b.len() == 0 {
        assert(a + b =~= a);
        assert(package_processes(a, package, uid) + package_processes(b, package, uid)
            =~= package_processes(a, package, uid));
    } else {
        assert((a + b).drop_last() =~= a + b.drop_last());
        packages_are_told_apart(a, b.drop_last(), e, package, uid);
        assert(package_processes(a + b, package, uid) =~= package_processes(a, package, uid)
            + package_processes(b, package, uid));
    }
}

/// A process passes for the one that was found exactly where it exists with the same uid, the
/// same name, which is the package's or one under it, and the same known start time.
pub proof fn identity_is_uid_name_and_start(p: ProcessView, facts: IdentityFacts)
    ensures
        identity_holds(p, facts) == Ok::<bool, ErrorView>(true) <==> {
            &&& facts.exists
            &&& facts.uid matches Ok(uid) && uid == p.uid
            &&& facts.cmdline matches Ok(name) && name@ == p.process_name && (name@
                == p.package_name || starts_with(name@, p.package_name + ":"@))
            &&& facts.start_time matches Ok(t) && p.start_time_ticks == Some(t)
        },
{
}

} // verus!
