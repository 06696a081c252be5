//! What the manager is answered, and what its requests change.

use vstd::prelude::*;
use vstd::utf8::encode_utf8;

use crate::app::error::ErrorView;
use crate::app::logging::{
    rendered, selected_view, shown_record, visible, LogCategory, LogLevel, LogView, PayloadView,
    RecordView,
};
use crate::app::operation_log::{logged, second_of_day, timestamped, two_digits, OperationLogView};
use crate::domain::operation::{ControlAction, OperationResult, OperationView};
use crate::protocol::bytes::{le_bytes, unsigned};
use crate::protocol::manager_v1::app_config::{
    config_bytes, five_digits, hook_payload, is_managed, managed_tokens, permissive_uids, uid_token,
    unreadable_uid,
};
use crate::protocol::manager_v1::frame::{checksum_of, command_number, frame_bytes, ManagerCommand};
use crate::protocol::manager_v1::handle::{answered, status_bytes, status_row};
use crate::protocol::manager_v1::port::ManagerEffect;
use crate::protocol::manager_v1::realtime::SamplerView;
use crate::protocol::manager_v1::state::{normal_settings, ManagerView};
use crate::protocol::manager_v1::uid_time::{
    managed, read_times, shown_ms, time_bytes, time_line, UidTime,
};
use crate::protocol::manager_v1::update::{changed_settings, setting_fault, settings_update};
use crate::protocol::records::{ManagerAppConfigRecord, ManagerFreezeStatusRecord};
use crate::protocol::xposed::foreground_uids_of;
use crate::text::decimal;

verus! {

/// Four bytes stand for a number, the lowest byte first.
pub open spec fn number_at(b: Seq<u8>, at: int) -> int {
    b[at] + b[at + 1] * 256 + b[at + 2] * 65_536 + b[at + 3] * 16_777_216
}

// ---------------------------------------------------------------------------
// Freeze status
// ---------------------------------------------------------------------------

/// The status of each application takes twenty bytes: uid, foreground, state, seconds and number
/// of processes, in the order of the rows.
pub proof fn status_answers_hold_the_rows(rows: Seq<ManagerFreezeStatusRecord>, k: int)
    requires
        0 <= k < rows.len(),
    ensures
        ({
            let b = status_bytes(rows);
            let r = rows[k];
            &&& b.len() == 20 * rows.len()
            &&& number_at(b, 20 * k) == r.uid
            &&& number_at(b, 20 * k + 4) == (if r.foreground { 1int } else { 0int })
            &&& r.state >= 0 ==> number_at(b, 20 * k + 8) == r.state
            &&& number_at(b, 20 * k + 12) == (if r.seconds > 0 { r.seconds as int } else { 0 })
            &&& number_at(b, 20 * k + 16) == (if r.process_count > 0 {
                r.process_count as int
            } else {
                0
            })
        }),
{
    rows_take_twenty_bytes(rows, k);
    let b = status_bytes(rows);
    let r = rows[k];
    let row = b.subrange(20 * k, 20 * k + 20);
    let parts = seq![
        r.uid,
        if r.foreground {
            1u32
        } else {
            0u32
        },
        unsigned(r.state),
        unsigned(
            if r.seconds > 0 {
                r.seconds
            } else {
                0i32
            },
        ),
        unsigned(
            if r.process_count > 0 {
                r.process_count
            } else {
                0i32
            },
        ),
    ];
    assert(row =~= le_bytes(parts[0]) + le_bytes(parts[1]) + le_bytes(parts[2]) + le_bytes(parts[3])
        + le_bytes(parts[4]));
    assert(row.subrange(0, 4) =~= le_bytes(parts[0]));
    assert(row.subrange(4, 8) =~= le_bytes(parts[1]));
    assert(row.subrange(8, 12) =~= le_bytes(parts[2]));
    assert(row.subrange(12, 16) =~= le_bytes(parts[3]));
    assert(row.subrange(16, 20) =~= le_bytes(parts[4]));
    four_bytes_at(b, 20 * k, row, 0, parts[0]);
    four_bytes_at(b, 20 * k, row, 4, parts[1]);
    four_bytes_at(b, 20 * k, row, 8, parts[2]);
    four_bytes_at(b, 20 * k, row, 12, parts[3]);
    four_bytes_at(b, 20 * k, row, 16, parts[4]);
}

proof fn rows_take_twenty_bytes(rows: Seq<ManagerFreezeStatusRecord>, k: int)
    requires
        0 <= k < rows.len(),
    ensures
        status_bytes(rows).len() == 20 * rows.len(),
        status_bytes(rows).subrange(20 * k, 20 * k + 20) == status_row(rows[k]),
    decreases rows.len(),
{
    let rest = rows.drop_last();
    if rest.len() > 0 {
        rows_take_twenty_bytes(rest, if k < rest.len() { k } else { 0 });
    }
    let all = status_bytes(rows);
    let row = status_row(rows.last());
    assert(row.len() == 20);
    assert(all == status_bytes(rest) + row);
    assert(status_bytes(rest).len() == 20 * rest.len());
    if k < rest.len() {
        assert(all.subrange(20 * k, 20 * k + 20) =~= status_bytes(rest).subrange(
            20 * k,
            20 * k + 20,
        ));
    } else {
        assert(all.subrange(20 * k, 20 * k + 20) =~= row);
    }
}

proof fn four_bytes_at(all: Seq<u8>, at: int, part: Seq<u8>, from: int, n: u32)
    requires
        0 <= at,
        0 <= from,
        from + 4 <= part.len(),
        at + part.len() <= all.len(),
        part == all.subrange(at, at + part.len()),
        part.subrange(from, from + 4) == le_bytes(n),
    ensures
        number_at(all, at + from) == n,
{
    let four = part.subrange(from, from + 4);
    assert(all[at + from] == four[0] && all[at + from + 1] == four[1] && all[at + from + 2]
        == four[2] && all[at + from + 3] == four[3]);
}

// ---------------------------------------------------------------------------
// Settings
// ---------------------------------------------------------------------------

/// The values that a setting can take.
pub open spec fn takes_value(index: u8, value: u8) -> bool {
    ||| index == 2 && 1 <= value && value <= 60
    ||| index == 3 && value <= 5
    ||| index == 4 && 3 <= value && value <= 120
    ||| index == 5 && value <= 2
    ||| index == 6 && value <= 3
    ||| 10 <= index && index <= 29 && value <= 1
    ||| index == 30 && value <= 4
}

/// A setting is changed exactly where it can take the value.
pub proof fn settings_take_their_values(index: u8, value: u8)
    ensures
        setting_fault(index, value) is None <==> takes_value(index, value),
{
}

/// A change of one setting leaves every other one as it was; settings are always two hundred and
/// fifty-six bytes, the first of which is eight.
pub proof fn one_setting_is_changed(settings: Seq<u8>, index: u8, value: u8, other: int)
    requires
        takes_value(index, value),
        0 <= other < 256,
        other != index,
    ensures
        changed_settings(settings, index, value).len() == 256,
        changed_settings(settings, index, value)[index as int] == value,
        settings.len() == 256 ==> changed_settings(settings, index, value)[other]
            == settings[other],
        0 < other < settings.len() ==> changed_settings(settings, index, value)[other]
            == settings[other],
{
}

/// Settings that are read are kept byte by byte, filled up from the defaults, and cut off.
pub proof fn read_settings_are_kept(settings: Seq<u8>, k: int)
    requires
        0 < k < 256,
    ensures
        normal_settings(Some(settings)).len() == 256,
        normal_settings(Some(settings))[0] == 8,
        k < settings.len() ==> normal_settings(Some(settings))[k] == settings[k],
        k >= settings.len() ==> normal_settings(Some(settings))[k] == normal_settings(None)[k],
        normal_settings(None)[0] == 8,
        normal_settings(None)[2] == 10,
        normal_settings(None)[3] == 4,
        normal_settings(None)[4] == 20,
        normal_settings(None)[5] == 0,
        normal_settings(None)[6] == 2,
{
}

/// A change of a setting that succeeds is in force: the one setting has the value, the others are
/// as before, the revision moves on if anything changed, and nothing else does. A change that is
/// refused is answered without a call and changes nothing.
pub proof fn changed_settings_are_in_force(
    s: ManagerView,
    payload: Seq<u8>,
    full: Seq<ManagerEffect>,
    at: int,
)
    requires
        s.settings.len() == 256,
    ensures
        settings_update(s, payload, full, at) matches Some((end, message, after)) ==> {
            &&& payload.len() != 2 || !takes_value(payload[0], payload[1]) ==> end == at && after
                == s && message != "success"@
            &&& message == "success"@ ==> {
                &&& payload.len() == 2
                &&& takes_value(payload[0], payload[1])
                &&& after.settings == s.settings.update(payload[0] as int, payload[1])
                &&& after.app_config == s.app_config
                &&& after.config_revision != s.config_revision <==> s.settings[payload[0] as int]
                    != payload[1]
            }
            &&& message != "success"@ ==> after.app_config == s.app_config && (after.settings
                == s.settings || after.settings == s.settings.update(payload[0] as int, payload[1]))
        },
{
    messages_of_faults_are_no_success(payload, s);
    if payload.len() == 2 {
        let new = s.settings.update(payload[0] as int, payload[1]);
        if takes_value(payload[0], payload[1]) {
            assert(changed_settings(s.settings, payload[0], payload[1]) =~= new);
            if s.settings[payload[0] as int] == payload[1] {
                assert(new =~= s.settings);
            } else {
                assert(new[payload[0] as int] != s.settings[payload[0] as int]);
            }
        }
    }
}

proof fn messages_of_faults_are_no_success(payload: Seq<u8>, s: ManagerView)
    ensures
        ("数据长度不正确, 正常:2, 收到:"@ + decimal(payload.len())) != "success"@,
        payload.len() == 2 ==> (setting_fault(payload[0], payload[1]) matches Some(m) ==> m
            != "success"@),
        forall|index: u8, value: u8, why: Seq<char>| #[trigger]
            crate::protocol::manager_v1::update::unwritten(index, value, why) != "success"@,
{
    reveal_strlit("success");
    reveal_strlit("数据长度不正确, 正常:2, 收到:");
    reveal_strlit("超时冻结参数错误, 欲设为:");
    reveal_strlit("定时解冻参数错误 欲设为:");
    reveal_strlit("超时杀死参数错误, 欲设为:");
    reveal_strlit("冻结模式参数错误, 欲设为:");
    reveal_strlit("定时压制参数错误, 欲设为:");
    reveal_strlit("日志级别无效, 正常范围:0..4, 欲设为:");
    reveal_strlit("开关值错误, 正常范围:0/1, 欲设为:");
    reveal_strlit("设置项不存在, [");
    reveal_strlit("写入设置文件失败, [");
    assert("success"@[0] == 's');
    let m = "数据长度不正确, 正常:2, 收到:"@ + decimal(payload.len());
    assert(m[0] == '数');
    if payload.len() == 2 {
        if let Some(f) = setting_fault(payload[0], payload[1]) {
            assert(f[0] != 's');
        }
    }
    assert forall|index: u8, value: u8, why: Seq<char>| #[trigger]
        crate::protocol::manager_v1::update::unwritten(index, value, why) != "success"@ by {
        assert(crate::protocol::manager_v1::update::unwritten(index, value, why)[0] == '写');
    }
}

// ---------------------------------------------------------------------------
// The configuration for the hook
// ---------------------------------------------------------------------------

/// A record asks for control of its application.
pub open spec fn asks_for_control(r: ManagerAppConfigRecord) -> bool {
    r.mode != 40 && r.mode != 50
}

/// The hook is refused a configuration exactly where an application under control has a uid of
/// more than five digits.
pub proof fn long_uids_are_refused(settings: Seq<u8>, records: Seq<ManagerAppConfigRecord>)
    ensures
        hook_payload(settings, records) is Err <==> exists|k: int|
            0 <= k < records.len() && asks_for_control(#[trigger] records[k]) && records[k].uid
                > 99_999,
{
    unreadable_is_long(records);
}

proof fn unreadable_is_long(records: Seq<ManagerAppConfigRecord>)
    ensures
        unreadable_uid(records) is Some <==> exists|k: int|
            0 <= k < records.len() && asks_for_control(#[trigger] records[k]) && records[k].uid
                > 99_999,
    decreases records.len(),
{
    if records.len() > 0 {
        let rest = records.drop_last();
        unreadable_is_long(rest);
        if unreadable_uid(rest) is Some {
            let k = choose|k: int|
                0 <= k < rest.len() && asks_for_control(#[trigger] rest[k]) && rest[k].uid > 99_999;
            assert(records[k] == rest[k]);
        } else if is_managed(records.last()) && records.last().uid > 99_999 {
            assert(records[records.len() - 1] == records.last());
        }
        if exists|k: int|
            0 <= k < records.len() && asks_for_control(#[trigger] records[k]) && records[k].uid
                > 99_999 {
            let k = choose|k: int|
                0 <= k < records.len() && asks_for_control(#[trigger] records[k]) && records[k].uid
                    > 99_999;
            if k < rest.len() {
                assert(rest[k] == records[k]);
            }
        }
    }
}

/// The hook is told every application under control, in order, and which of them are treated
/// leniently; each record tells its own, whatever stands around it.
pub proof fn the_hook_is_told_who_is_controlled(
    a: Seq<ManagerAppConfigRecord>,
    b: Seq<ManagerAppConfigRecord>,
    r: ManagerAppConfigRecord,
)
    ensures
        managed_tokens(a + b) == managed_tokens(a) + managed_tokens(b),
        permissive_uids(a + b) == permissive_uids(a) + permissive_uids(b),
        asks_for_control(r) ==> managed_tokens(seq![r]) == seq![uid_token(r.uid)],
        !asks_for_control(r) ==> managed_tokens(seq![r]) == Seq::<Seq<char>>::empty(),
        asks_for_control(r) && r.permissive ==> permissive_uids(seq![r]) == seq![
            decimal(r.uid as nat),
        ],
        !(asks_for_control(r) && r.permissive) ==> permissive_uids(seq![r]) == Seq::<
            Seq<char>,
        >::empty(),
    decreases b.len(),
{
    assert(seq![r].drop_last() =~= seq![]);
    assert(managed_tokens(seq![]) =~= seq![]);
    assert(permissive_uids(seq![]) =~= seq![]);
    assert(Seq::<Seq<char>>::empty().push(uid_token(r.uid)) =~= seq![uid_token(r.uid)]);
    assert(Seq::<Seq<char>>::empty().push(decimal(r.uid as nat)) =~= seq![decimal(r.uid as nat)]);
    if b.len() == 0 {
        assert(a + b =~= a);
        assert(managed_tokens(a) + managed_tokens(b) =~= managed_tokens(a));
        assert(permissive_uids(a) + permissive_uids(b) =~= permissive_uids(a));
    } else {
        assert((a + b).drop_last() =~= a + b.drop_last());
        the_hook_is_told_who_is_controlled(a, b.drop_last(), r);
        assert(managed_tokens(a + b) =~= managed_tokens(a) + managed_tokens(b));
        assert(permissive_uids(a + b) =~= permissive_uids(a) + permissive_uids(b));
    }
}

/// A uid is told in five digits or more, then as it is.
pub proof fn uids_are_told_in_five_digits(uid: u32)
    ensures
        uid <= 99_999 ==> five_digits(uid as nat).len() == 5,
        crate::text::all_digits(five_digits(uid as nat)),
        crate::text::digits_value(five_digits(uid as nat)) == uid,
        uid_token(uid) == five_digits(uid as nat) + "uid"@ + decimal(uid as nat),
{
    reveal_strlit("0");
    reveal_strlit("00");
    reveal_strlit("000");
    reveal_strlit("0000");
    crate::text::decimal_reads_back(uid as nat);
    reveal_with_fuel(decimal, 7);
    leading_zeros(1, uid as nat);
    leading_zeros(2, uid as nat);
    leading_zeros(3, uid as nat);
    leading_zeros(4, uid as nat);
    assert("0"@ =~= zeros(1));
    assert("00"@ =~= zeros(2));
    assert("000"@ =~= zeros(3));
    assert("0000"@ =~= zeros(4));
}

spec fn zeros(n: nat) -> Seq<char> {
    Seq::new(n, |i: int| '0')
}

proof fn leading_zeros(n: nat, value: nat)
    ensures
        crate::text::all_digits(zeros(n) + decimal(value)),
        crate::text::digits_value(zeros(n) + decimal(value)) == value,
{
    crate::text::decimal_reads_back(value);
    zeros_add_nothing(n, decimal(value));
    let s = zeros(n) + decimal(value);
    assert forall|i: int| 0 <= i < s.len() implies crate::text::is_digit(#[trigger] s[i]) by {
        if i >= n {
            assert(s[i] == decimal(value)[i - n]);
        }
    }
}

proof fn zeros_add_nothing(n: nat, s: Seq<char>)
    ensures
        crate::text::digits_value(zeros(n) + s) == crate::text::digits_value(s),
    decreases s.len(), n,
{
    if s.len() == 0 {
        if n > 0 {
            assert((zeros(n) + s).drop_last() =~= zeros((n - 1) as nat) + s);
            zeros_add_nothing((n - 1) as nat, s);
            assert((zeros(n) + s).last() == '0');
        } else {
            assert(zeros(n) + s =~= s);
        }
    } else {
        assert((zeros(n) + s).drop_last() =~= zeros(n) + s.drop_last());
        zeros_add_nothing(n, s.drop_last());
    }
}

/// The uids in the foreground are those that the hook lists after their number.
pub proof fn listed_uids_are_in_the_foreground(payload: Seq<u8>, k: int)
    ensures
        foreground_uids_of(payload) matches Ok(uids) ==> {
            &&& payload.len() >= 4
            &&& uids.len() == number_at(payload, 0)
            &&& payload.len() >= 4 + 4 * uids.len()
            &&& 0 <= k < uids.len() ==> uids[k] == number_at(payload, 4 + 4 * k)
        },
        payload.len() >= 4 && number_at(payload, 0) < 0x8000_0000 && payload.len() >= 4 + 4
            * number_at(payload, 0) ==> foreground_uids_of(payload) is Ok,
{
}

// ---------------------------------------------------------------------------
// Running times
// ---------------------------------------------------------------------------

/// The running times of each application take twelve bytes: uid, time since the last answer, and
/// time in all.
pub proof fn time_answers_hold_the_times(times: Seq<UidTime>, k: int)
    requires
        0 <= k < times.len(),
    ensures
        ({
            let b = time_bytes(times);
            &&& b.len() == 12 * times.len()
            &&& number_at(b, 12 * k) == times[k].uid
            &&& times[k].delta_ms >= 0 ==> number_at(b, 12 * k + 4) == times[k].delta_ms
            &&& times[k].total_ms >= 0 ==> number_at(b, 12 * k + 8) == times[k].total_ms
        }),
{
    times_take_twelve_bytes(times, k);
    let b = time_bytes(times);
    let t = times[k];
    let row = b.subrange(12 * k, 12 * k + 12);
    four_bytes_at(b, 12 * k, row, 0, t.uid);
    four_bytes_at(b, 12 * k, row, 4, unsigned(t.delta_ms));
    four_bytes_at(b, 12 * k, row, 8, unsigned(t.total_ms));
}

proof fn times_take_twelve_bytes(times: Seq<UidTime>, k: int)
    requires
        0 <= k < times.len(),
    ensures
        time_bytes(times).len() == 12 * times.len(),
        ({
            let row = time_bytes(times).subrange(12 * k, 12 * k + 12);
            &&& row.subrange(0, 4) == le_bytes(times[k].uid)
            &&& row.subrange(4, 8) == le_bytes(unsigned(times[k].delta_ms))
            &&& row.subrange(8, 12) == le_bytes(unsigned(times[k].total_ms))
        }),
    decreases times.len(),
{
    let rest = times.drop_last();
    if rest.len() > 0 {
        times_take_twelve_bytes(rest, if k < rest.len() { k } else { 0 });
    }
    let t = times.last();
    let all = time_bytes(times);
    let row = le_bytes(t.uid) + le_bytes(unsigned(t.delta_ms)) + le_bytes(unsigned(t.total_ms));
    assert(all =~= time_bytes(rest) + row);
    assert(row.len() == 12);
    assert(time_bytes(rest).len() == 12 * rest.len());
    let part = all.subrange(12 * k, 12 * k + 12);
    if k < rest.len() {
        assert(part =~= time_bytes(rest).subrange(12 * k, 12 * k + 12));
    } else {
        assert(part =~= row);
        assert(row.subrange(0, 4) =~= le_bytes(t.uid));
        assert(row.subrange(4, 8) =~= le_bytes(unsigned(t.delta_ms)));
        assert(row.subrange(8, 12) =~= le_bytes(unsigned(t.total_ms)));
    }
}

/// A time is shown for applications under control only, and only where there is one. What is
/// shown since the last answer is the difference to the time then, which is none for one that was
/// not known; and the new time is remembered.
pub proof fn times_are_differences(
    totals: Map<u32, i32>,
    uids: Seq<u32>,
    row: Seq<char>,
    uid: u32,
    total: i32,
)
    requires
        time_line(row) == Some((uid, total)),
        forall|u: u32| #[trigger] totals.contains_key(u) ==> totals[u] >= 0,
    ensures
        ({
            let (known, times) = read_times(totals, uids, seq![row]);
            &&& uids.contains(uid) && total > 0 ==> {
                &&& times.len() == 1
                &&& times[0].uid == uid
                &&& times[0].total_ms == total
                &&& totals.contains_key(uid) ==> times[0].delta_ms == total - totals[uid]
                &&& !totals.contains_key(uid) ==> times[0].delta_ms == total
                &&& known.contains_key(uid) && known[uid] == total
            }
            &&& !(uids.contains(uid) && total > 0) ==> times.len() == 0 && known == totals
        }),
{
    assert(seq![row].drop_last() =~= seq![]);
    assert(read_times(totals, uids, seq![]) == (totals, Seq::<UidTime>::empty()));
}

/// Microseconds are shown as milliseconds, none below zero and at most the largest number.
pub proof fn times_are_shown_in_milliseconds(us: int)
    ensures
        us <= 0 ==> shown_ms(us) == 0,
        0 <= us < 2_147_483_648_000 ==> shown_ms(us) * 1000 <= us < (shown_ms(us) + 1) * 1000,
        us >= 2_147_483_648_000 ==> shown_ms(us) == 2_147_483_647,
{
}

/// The applications whose running time is shown are those under control, without the record that
/// stands for none.
pub proof fn times_are_shown_of_what_is_controlled(
    a: Seq<ManagerAppConfigRecord>,
    b: Seq<ManagerAppConfigRecord>,
    r: ManagerAppConfigRecord,
)
    ensures
        managed(a + b) == managed(a) + managed(b),
        managed(seq![r]) == (if asks_for_control(r) && r.uid != 0xffff_ffff {
            seq![r.uid]
        } else {
            seq![]
        }),
    decreases b.len(),
{
    assert(seq![r].drop_last() =~= seq![]);
    assert(managed(seq![]) =~= seq![]);
    assert(Seq::<u32>::empty().push(r.uid) =~= seq![r.uid]);
    if b.len() == 0 {
        assert(a + b =~= a);
        assert(managed(a) + managed(b) =~= managed(a));
    } else {
        assert((a + b).drop_last() =~= a + b.drop_last());
        times_are_shown_of_what_is_controlled(a, b.drop_last(), r);
        assert(managed(a + b) =~= managed(a) + managed(b));
    }
}

// ---------------------------------------------------------------------------
// Commands
// ---------------------------------------------------------------------------

/// A command that only asks changes nothing, makes no call, and is answered with what it asks for.
pub proof fn questions_change_nothing(
    command: ManagerCommand,
    payload: Seq<u8>,
    s: ManagerView,
    sampler: SamplerView,
    now_ms: u128,
    full: Seq<ManagerEffect>,
    at: int,
)
    requires
        command != ManagerCommand::SetAppCfg,
        command != ManagerCommand::SetAppLabel,
        command != ManagerCommand::SetSettingsVar,
        command != ManagerCommand::GetRealTimeInfo,
        command != ManagerCommand::GetUidTime,
        command != ManagerCommand::ClearLog,
        command != ManagerCommand::GetProcState,
    ensures
        answered(command, payload, s, sampler, now_ms, full, at) matches Some(r) && {
            &&& r.end == at
            &&& r.state == s
            &&& r.sampler == sampler
            &&& command == ManagerCommand::GetSettings ==> r.answer == Ok::<Seq<u8>, ErrorView>(
                s.settings,
            )
            &&& command == ManagerCommand::GetChangelog ==> r.answer == Ok::<Seq<u8>, ErrorView>(
                encode_utf8(s.changelog),
            )
            &&& command == ManagerCommand::GetXpLog ==> r.answer == Ok::<Seq<u8>, ErrorView>(
                encode_utf8(s.xp_log),
            )
            &&& command == ManagerCommand::GetHealthReport ==> r.answer == Ok::<Seq<u8>, ErrorView>(
                encode_utf8(s.health_report_json),
            )
            &&& command == ManagerCommand::GetCapabilityReport ==> r.answer == Ok::<
                Seq<u8>,
                ErrorView,
            >(encode_utf8(s.capability_report_json))
            &&& command == ManagerCommand::GetCompatibilityBaseline ==> r.answer == Ok::<
                Seq<u8>,
                ErrorView,
            >(encode_utf8(s.compatibility_report_json))
            &&& command == ManagerCommand::GetOperationLogJson ==> r.answer == Ok::<
                Seq<u8>,
                ErrorView,
            >(encode_utf8(s.operation_log_json))
            &&& command == ManagerCommand::RunSelfCheck ==> r.answer == Ok::<Seq<u8>, ErrorView>(
                encode_utf8(s.self_check_json),
            )
            &&& command == ManagerCommand::GetFreezeStatus ==> r.answer == Ok::<Seq<u8>, ErrorView>(
                status_bytes(s.freeze_status),
            )
            &&& command == ManagerCommand::GetAppCfg && s.app_config.len() > 0 ==> r.answer == Ok::<
                Seq<u8>,
                ErrorView,
            >(config_bytes(s.app_config))
            &&& command == ManagerCommand::GetAppCfg && s.app_config.len() == 0 ==> r.answer
                == Ok::<Seq<u8>, ErrorView>(
                config_bytes(
                    seq![
                        ManagerAppConfigRecord { uid: 0xffff_ffff, mode: 50, permissive: false },
                    ],
                ),
            )
        },
{
}

/// A log that is cleared is empty, and answers with nothing; nothing else changes.
pub proof fn cleared_logs_are_empty(
    payload: Seq<u8>,
    s: ManagerView,
    sampler: SamplerView,
    now_ms: u128,
    full: Seq<ManagerEffect>,
    at: int,
)
    ensures
        answered(ManagerCommand::ClearLog, payload, s, sampler, now_ms, full, at) matches Some(r)
            && {
            &&& r.end == at
            &&& r.answer == Ok::<Seq<u8>, ErrorView>(seq![])
            &&& r.state.manager_log.records.len() == 0
            &&& r.state == (ManagerView { manager_log: r.state.manager_log, ..s })
        },
{
}

/// Commands have these numbers on the wire.
pub proof fn commands_have_their_numbers()
    ensures
        command_number(ManagerCommand::GetPropInfo) == 2,
        command_number(ManagerCommand::GetChangelog) == 3,
        command_number(ManagerCommand::GetLog) == 4,
        command_number(ManagerCommand::GetAppCfg) == 5,
        command_number(ManagerCommand::GetRealTimeInfo) == 6,
        command_number(ManagerCommand::GetSettings) == 8,
        command_number(ManagerCommand::GetUidTime) == 9,
        command_number(ManagerCommand::GetXpLog) == 10,
        command_number(ManagerCommand::GetFreezeStatus) == 11,
        command_number(ManagerCommand::SetAppCfg) == 21,
        command_number(ManagerCommand::SetAppLabel) == 22,
        command_number(ManagerCommand::SetSettingsVar) == 23,
        command_number(ManagerCommand::ClearLog) == 61,
        command_number(ManagerCommand::GetProcState) == 62,
        command_number(ManagerCommand::GetHealthReport) == 71,
        command_number(ManagerCommand::GetCapabilityReport) == 72,
        command_number(ManagerCommand::GetCompatibilityBaseline) == 73,
        command_number(ManagerCommand::GetOperationLogJson) == 74,
        command_number(ManagerCommand::RunSelfCheck) == 75,
{
}

/// A frame holds the length of the payload in four bytes, the command, the checksum and the
/// payload; and the checksum tells any one changed byte.
pub proof fn frames_hold_length_command_and_checksum(
    command: ManagerCommand,
    payload: Seq<u8>,
    k: int,
)
    requires
        payload.len() <= 0xffff_ffff,
        0 <= k < payload.len(),
    ensures
        ({
            let f = frame_bytes(command, payload);
            &&& f.len() == 6 + payload.len()
            &&& number_at(f, 0) == payload.len()
            &&& f[4] == command_number(command)
            &&& f[6 + k] == payload[k]
        }),
        checksum_of(seq![]) == 0,
        checksum_of(seq![payload[k]]) == payload[k],
{
    let one = seq![payload[k]];
    assert(one.drop_last() =~= seq![]);
    let b = payload[k];
    assert(0u8 ^ b == b) by (bit_vector);
    assert(checksum_of(one) == checksum_of(one.drop_last()) ^ one.last());
}

// ---------------------------------------------------------------------------
// The log
// ---------------------------------------------------------------------------

/// What is logged is kept, the latest last, up to the capacity of the log; the oldest goes first.
pub proof fn the_latest_is_kept(log: OperationLogView, o: OperationView, k: int)
    requires
        log.capacity > 0,
        log.records.len() <= log.capacity,
    ensures
        ({
            let after = logged(log, o);
            &&& after.capacity == log.capacity
            &&& after.records.len() == (if log.records.len() < log.capacity {
                log.records.len() + 1
            } else {
                log.capacity
            })
            &&& after.records.last() == o
            &&& log.records.len() < log.capacity && 0 <= k < log.records.len() ==> after.records[k]
                == log.records[k]
            &&& log.records.len() == log.capacity && 1 <= k < log.records.len()
                ==> after.records[k - 1] == log.records[k]
        }),
{
}

/// A message is shown in the manager's log with its time and, unless it tells of an ordinary
/// operation, with its level.
pub proof fn messages_are_shown_by_level(r: RecordView, view: LogView)
    ensures
        view == LogView::Debug ==> visible(r, view),
        view == LogView::Warn ==> (visible(r, view) <==> r.level == LogLevel::Warn || r.level
            == LogLevel::Error || r.level == LogLevel::Critical),
        view == LogView::Error ==> (visible(r, view) <==> r.level == LogLevel::Error || r.level
            == LogLevel::Critical),
        view == LogView::Critical ==> (visible(r, view) <==> r.level == LogLevel::Critical),
        view == LogView::Info ==> (visible(r, view) <==> r.category == LogCategory::LegacyOperation
            && (r.payload matches PayloadView::Operation(o) ==> o.result == OperationResult::Success
            && (o.action == ControlAction::Freeze || o.action == ControlAction::Unfreeze || o.action
            == ControlAction::Terminate))),
{
}

/// The log is shown record by record, in order, and what is not visible is left out.
pub proof fn logs_are_shown_in_order(
    a: Seq<RecordView>,
    b: Seq<RecordView>,
    r: RecordView,
    view: LogView,
)
    ensures
        rendered(a + b, view) == rendered(a, view) + rendered(b, view),
        visible(r, view) ==> rendered(seq![r], view) == shown_record(r, view),
        !visible(r, view) ==> rendered(seq![r], view).len() == 0,
    decreases b.len(),
{
    assert(seq![r].drop_last() =~= seq![]);
    assert(rendered(seq![], view) =~= seq![]);
    assert(Seq::<char>::empty() + shown_record(r, view) =~= shown_record(r, view));
    if b.len() == 0 {
        assert(a + b =~= a);
        assert(rendered(a, view) + rendered(b, view) =~= rendered(a, view));
    } else {
        assert((a + b).drop_last() =~= a + b.drop_last());
        logs_are_shown_in_order(a, b.drop_last(), r, view);
        assert(rendered(a + b, view) =~= rendered(a, view) + rendered(b, view));
    }
}

/// A time is shown in the time zone eight hours ahead: hours, minutes and seconds in two digits
/// each.
pub proof fn times_are_shown_by_the_clock(timestamp_ms: u128, message: Seq<char>)
    ensures
        ({
            let seconds: int = (timestamp_ms as int / 1000 + 28_800) % 86_400;
            let (h, m, s) = (seconds / 3600, seconds / 60 % 60, seconds % 60);
            &&& second_of_day(timestamp_ms) == h * 3600 + m * 60 + s
            &&& 0 <= h < 24
            &&& 0 <= m < 60
            &&& 0 <= s < 60
            &&& timestamped(timestamp_ms, message) == "["@ + two_digits(h as nat) + ":"@
                + two_digits(m as nat) + ":"@ + two_digits(s as nat) + "]  "@ + message + "\n"@
        }),
{
}

/// A number below a hundred is shown in two digits.
pub proof fn two_digits_are_shown(n: nat)
    requires
        n < 100,
    ensures
        two_digits(n).len() == 2,
        crate::text::digits_value(two_digits(n)) == n,
{
    reveal_strlit("0");
    reveal_with_fuel(decimal, 3);
    crate::text::decimal_reads_back(n);
    assert("0"@ =~= zeros(1));
    leading_zeros(1, n);
}

/// The level of the log that is shown is the one selected by the setting.
pub proof fn the_selected_level_is_shown()
    ensures
        selected_view(0) == LogView::Info,
        selected_view(1) == LogView::Debug,
        selected_view(2) == LogView::Warn,
        selected_view(3) == LogView::Error,
        selected_view(4) == LogView::Critical,
        forall|v: u8| v > 4 ==> #[trigger] selected_view(v) == LogView::Info,
{
}

} // verus!
