//! What single lines, records and messages stand for.

use vstd::prelude::*;

use crate::app::compatibility::field_level;
use crate::app::download_deferral::rx_table;
use crate::app::logging::RecordView;
use crate::protocol::manager_v1::app_config::{change_rows, record_of};
use crate::protocol::manager_v1::handle::labels_update;
use crate::protocol::manager_v1::persistence::resolved_uid;
use crate::protocol::manager_v1::port::ManagerEffect;
use crate::protocol::manager_v1::state::ManagerView;
use crate::protocol::manager_v1::uid_time::time_line;
use crate::protocol::records::ManagerAppConfigRecord;
use crate::sys::discovery::freezer_path;
use crate::sys::procfs::status_path;
use crate::sys::socket::told_once;
use crate::text::{
    decimal, signed_decimal, signed_reads_back, split_once, trim, unsigned_reads_back, words,
};

verus! {

/// The freezer of a process stands under its uid and its pid, its status under its pid.
pub proof fn files_stand_under_uid_and_pid(root: Seq<char>, uid: u32, pid: i32)
    requires
        root.len() > 0,
        root.last() != '/',
    ensures
        freezer_path(root, uid, pid) == root + "/"@ + ("uid_"@ + decimal(uid as nat)) + "/"@ + (
        "pid_"@ + signed_decimal(pid as int)) + "/"@ + "cgroup.freeze"@,
        status_path(root, pid) == root + "/"@ + signed_decimal(pid as int) + "/"@ + "status"@,
{
    reveal_strlit("/");
    reveal_strlit("uid_");
    reveal_strlit("pid_");
    crate::text::decimal_reads_back(uid as nat);
    let u = decimal(uid as nat);
    let p = signed_decimal(pid as int);
    digits_end_in_digits(uid as nat);
    if pid >= 0 {
        digits_end_in_digits(pid as nat);
    } else {
        digits_end_in_digits((-pid) as nat);
    }
    let a = root + "/"@ + ("uid_"@ + u);
    assert(a.last() == u.last());
    let b = a + "/"@ + ("pid_"@ + p);
    assert(b.last() == p.last());
    let c = root + "/"@ + p;
    assert(c.last() == p.last());
}

proof fn digits_end_in_digits(n: nat)
    ensures
        decimal(n).len() > 0,
        decimal(n).last() != '/',
        signed_decimal(n as int).last() != '/',
        n > 0 ==> signed_decimal(-(n as int)).last() != '/',
{
    reveal_with_fuel(decimal, 2);
    crate::text::decimal_reads_back(n);
    let d = decimal(n);
    assert(crate::text::is_digit(d[d.len() - 1]));
    if n > 0 {
        let s = signed_decimal(-(n as int));
        assert(s == seq!['-'] + d);
        assert(s.last() == d.last());
    }
}

/// A line of the table of running times gives a uid and the sum of its two times.
pub proof fn time_lines_give_the_sum(
    line: Seq<char>,
    head: Seq<char>,
    tail: Seq<char>,
    uid: u32,
    user: u32,
    system: u32,
)
    requires
        split_once(line, ':') == Some((head, tail)),
        trim(head) == decimal(uid as nat),
        words(tail).len() >= 2,
        words(tail)[0] == signed_decimal(user as int),
        words(tail)[1] == signed_decimal(system as int),
    ensures
        time_line(line) matches Some((u, ms)) && u == uid && ms * 1000 <= user + system < (ms + 1)
            * 1000,
{
    unsigned_reads_back(uid as nat, u32::MAX as nat);
    signed_reads_back(user as int, i64::MIN as int, i64::MAX as int);
    signed_reads_back(system as int, i64::MIN as int, i64::MAX as int);
}

/// A row of the network table gives a uid and its received bytes; rows count only after the
/// heading of the table and before the next one, and later rows replace earlier ones.
pub proof fn network_rows_count_within_their_table(
    rows: Seq<Seq<char>>,
    row: Seq<char>,
    values: Map<u32, u64>,
    uid: u32,
    rx: u64,
)
    requires
        words(trim(row)).len() >= 2,
        words(trim(row))[0] == decimal(uid as nat),
        words(trim(row))[1] == decimal(rx as nat),
        trim(row) != "mAppUidStatsMap:"@,
        trim(row) != "mStatsMapA:"@,
    ensures
        rx_table(seq![row] + rows, false, values) == rx_table(rows, false, values),
        rx_table(seq![row] + rows, true, values) == rx_table(rows, true, values.insert(uid, rx)),
        rx_table(seq!["mAppUidStatsMap:"@] + rows, false, values) == rx_table(rows, true, values),
        rx_table(seq!["mStatsMapA:"@] + rows, true, values) == values,
{
    unsigned_reads_back(uid as nat, u32::MAX as nat);
    unsigned_reads_back(rx as nat, u64::MAX as nat);
    let a = seq![row] + rows;
    assert(a[0] == row && a.skip(1) =~= rows);
    let b = seq!["mAppUidStatsMap:"@] + rows;
    assert(b[0] == "mAppUidStatsMap:"@ && b.skip(1) =~= rows);
    let c = seq!["mStatsMapA:"@] + rows;
    assert(c[0] == "mStatsMapA:"@ && c.skip(1) =~= rows);
    reveal_strlit("mAppUidStatsMap:");
    reveal_strlit("mStatsMapA:");
    let h = "mAppUidStatsMap:"@;
    let e = "mStatsMapA:"@;
    assert(h.len() == 16 && e.len() == 11);
    assert(h[0] == 'm' && h[15] == ':');
    assert(e[0] == 'm' && e[10] == ':');
    crate::text::trimmed_text_stays(h);
    crate::text::trimmed_text_stays(e);
}

/// A target is a model and a level, with or without its name before it.
pub proof fn targets_are_model_and_level(fields: Seq<Seq<char>>, sdk: u32)
    requires
        fields.len() > 0,
        fields[0] == decimal(sdk as nat) || fields[0] == "sdk="@ + decimal(sdk as nat),
    ensures
        field_level(fields) == Some(sdk),
{
    reveal_strlit("sdk=");
    let d = decimal(sdk as nat);
    unsigned_reads_back(sdk as nat, u32::MAX as nat);
    crate::text::decimal_reads_back(sdk as nat);
    let named = "sdk="@ + d;
    assert(named.subrange(0, 4) =~= "sdk="@);
    assert(named.skip(4) =~= d);
    if fields[0] == d && d.len() >= 4 {
        assert(crate::text::is_digit(d[0]));
        assert(d.subrange(0, 4)[0] == d[0]);
        assert("sdk="@[0] == 's');
    }
}

/// A change of a record is told exactly where there was a record of the uid and the mode or the
/// leniency differs.
pub proof fn changes_are_told(previous: Seq<ManagerAppConfigRecord>, r: ManagerAppConfigRecord)
    ensures
        change_rows(previous, seq![r]).len() == (if record_of(previous, r.uid) matches Some(p) && (
        p.mode != r.mode || p.permissive != r.permissive) {
            1nat
        } else {
            0nat
        }),
{
    assert(seq![r].drop_last() =~= seq![]);
    assert(change_rows(previous, seq![]).len() == 0);
}

/// A token that names a package stands for its uid; one that does not stands for the uid that it
/// is.
pub proof fn tokens_stand_for_their_uid(token: Seq<char>, uid: u32)
    ensures
        resolved_uid(token, Some(uid)) == Some(uid),
        resolved_uid(decimal(uid as nat), None) == Some(uid),
{
    crate::laws::configuration::digits_are_uids(uid);
}

/// A message that stands in the log already is not told again; and telling changes nothing but
/// the log.
pub proof fn messages_are_told_once(s: ManagerView, record: RecordView, k: int)
    requires
        0 <= k < s.manager_log.records.len(),
        s.manager_log.records[k].level == record.level,
        s.manager_log.records[k].category == record.category,
        s.manager_log.records[k].payload == record.payload,
    ensures
        told_once(s, record) == s,
{
    assert(crate::app::logging::stands_in(s.manager_log, record));
}

/// The labels are written as they came, and nothing else changes but the log. Without a place to
/// write them they are refused.
pub proof fn labels_are_written_as_they_came(
    s: ManagerView,
    payload: Seq<u8>,
    now_ms: u128,
    full: Seq<ManagerEffect>,
    at: int,
)
    ensures
        labels_update(s, payload, now_ms, full, at) matches Some((end, answer, after)) ==> {
            &&& after == (ManagerView { manager_log: after.manager_log, ..s })
            &&& s.app_label_path is None ==> answer is Err && end == at
            &&& answer is Ok ==> s.app_label_path is Some && end == at + 1 && 0 <= at < full.len()
                && (full[at] matches ManagerEffect::Write { path, bytes, reply } && path
                == s.app_label_path->0 && bytes == payload && reply is Ok)
        },
{
}

} // verus!
