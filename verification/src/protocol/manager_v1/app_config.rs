//! Application configuration on the wire.

use vstd::prelude::*;
use vstd::string::*;

use crate::app::error::{DaemonError, ErrorView};
use crate::protocol::bytes::{
    le_at, le_bytes, le_reads_back, le_u32, push_u32, read_u32, sign_reads_back, signed,
    to_signed, to_unsigned, unsigned,
};
use crate::protocol::records::ManagerAppConfigRecord;
use crate::text::{
    bytes_of, decimal, join, join_strings, number, signed_decimal, signed_number, text, texts,
};

verus! {

/// The largest uid that the hook can read.
pub const LEGACY_XPOSED_MAX_UID: u32 = 99_999;

/// The uid of a record that stands for no application.
pub const NO_UID: u32 = 4_294_967_295;

/// The number for a switch.
pub open spec fn switch(on: bool) -> u32 {
    if on {
        1
    } else {
        0
    }
}

/// The bytes of a record.
pub open spec fn record_bytes(r: ManagerAppConfigRecord) -> Seq<u8> {
    le_bytes(r.uid) + le_bytes(unsigned(r.mode)) + le_bytes(switch(r.permissive))
}

/// The bytes of records.
pub open spec fn config_bytes(records: Seq<ManagerAppConfigRecord>) -> Seq<u8>
    decreases records.len(),
{
    if records.len() == 0 {
        seq![]
    } else {
        config_bytes(records.drop_last()) + record_bytes(records.last())
    }
}

/// The record at a position.
pub open spec fn record_at(b: Seq<u8>, at: int) -> ManagerAppConfigRecord {
    ManagerAppConfigRecord {
        uid: le_u32(b, at),
        mode: signed(le_u32(b, at + 4)),
        permissive: le_u32(b, at + 8) != 0,
    }
}

/// The records in a payload.
pub open spec fn config_records(b: Seq<u8>) -> Seq<ManagerAppConfigRecord> {
    Seq::new(b.len() / 12, |i: int| record_at(b, i * 12))
}

/// The error for a payload with an incomplete record.
pub open spec fn incomplete_record() -> ErrorView {
    ErrorView::Protocol("app config payload length is not a multiple of 12"@)
}

/// Writes records.
pub fn encode_app_config(records: &[ManagerAppConfigRecord]) -> (r: Vec<u8>)
    ensures
        r@ == config_bytes(records@),
{
    let mut bytes: Vec<u8> = Vec::new();
    let mut i: usize = 0;
    assert(bytes@ =~= config_bytes(records@.take(0)));
    while i < records.len()
        invariant
            i <= records@.len(),
            bytes@ == config_bytes(records@.take(i as int)),
        decreases records@.len() - i,
    {
        let record = records[i];
        let ghost done = bytes@;
        push_u32(&mut bytes, record.uid);
        push_u32(&mut bytes, to_unsigned(record.mode));
        push_u32(&mut bytes, if record.permissive { 1 } else { 0 });
        assert(records@.take(i + 1).drop_last() =~= records@.take(i as int));
        assert(bytes@ =~= done + record_bytes(record));
        i += 1;
    }
    assert(records@.take(i as int) =~= records@);
    bytes
}

/// The records for the manager: where there is none, one that stands for no application.
pub open spec fn shown_records(records: Seq<ManagerAppConfigRecord>) -> Seq<
    ManagerAppConfigRecord,
> {
    if records.len() == 0 {
        seq![ManagerAppConfigRecord { uid: NO_UID, mode: 50, permissive: false }]
    } else {
        records
    }
}

/// Writes records for the manager, which cannot read an empty list.
pub fn encode_app_config_for_manager(records: &[ManagerAppConfigRecord]) -> (r: Vec<u8>)
    ensures
        r@ == config_bytes(shown_records(records@)),
{
    if records.len() == 0 {
        let mut one: Vec<ManagerAppConfigRecord> = Vec::new();
        one.push(ManagerAppConfigRecord { uid: NO_UID, mode: 50, permissive: false });
        assert(one@ =~= shown_records(records@));
        return encode_app_config(one.as_slice());
    }
    encode_app_config(records)
}

/// Reads records.
pub fn decode_app_config(payload: &[u8]) -> (r: Result<Vec<ManagerAppConfigRecord>, DaemonError>)
    ensures
        match r {
            Ok(v) => payload@.len() % 12 == 0 && v@ == config_records(payload@),
            Err(e) => payload@.len() % 12 != 0 && e@ == incomplete_record(),
        },
{
    if payload.len() % 12 != 0 {
        return Err(DaemonError::protocol("app config payload length is not a multiple of 12"));
    }
    let len: usize = payload.len();
    let count: usize = len / 12;
    let mut out: Vec<ManagerAppConfigRecord> = Vec::new();
    let mut i: usize = 0;
    while i < count
        invariant
            i <= count,
            count == payload@.len() / 12,
            count * 12 == len,
            len == payload@.len(),
            out@ == config_records(payload@).take(i as int),
        decreases count - i,
    {
        let at: usize = i * 12;
        let record = ManagerAppConfigRecord {
            uid: read_u32(payload, at),
            mode: to_signed(read_u32(payload, at + 4)),
            permissive: read_u32(payload, at + 8) != 0,
        };
        out.push(record);
        assert(out@ =~= config_records(payload@).take(i + 1));
        i += 1;
    }
    assert(out@ =~= config_records(payload@));
    Ok(out)
}

proof fn config_length(records: Seq<ManagerAppConfigRecord>)
    ensures
        config_bytes(records).len() == records.len() * 12,
    decreases records.len(),
{
    if records.len() > 0 {
        config_length(records.drop_last());
    }
}

/// Records that were written are the records that are read.
pub proof fn app_config_reads_back(records: Seq<ManagerAppConfigRecord>)
    ensures
        config_bytes(records).len() % 12 == 0,
        config_records(config_bytes(records)) == records,
    decreases records.len(),
{
    config_length(records);
    let b = config_bytes(records);
    if records.len() > 0 {
        let rest = records.drop_last();
        let last = records.last();
        let head = config_bytes(rest);
        app_config_reads_back(rest);
        config_length(rest);
        let at = head.len() as int;
        assert(b == head + record_bytes(last));
        assert(b.subrange(at, at + 4) =~= le_bytes(last.uid));
        assert(b.subrange(at + 4, at + 8) =~= le_bytes(unsigned(last.mode)));
        assert(b.subrange(at + 8, at + 12) =~= le_bytes(switch(last.permissive)));
        le_at(b, at, le_bytes(last.uid));
        le_at(b, at + 4, le_bytes(unsigned(last.mode)));
        le_at(b, at + 8, le_bytes(switch(last.permissive)));
        le_reads_back(last.uid);
        le_reads_back(unsigned(last.mode));
        le_reads_back(switch(last.permissive));
        sign_reads_back(last.mode, 0);
        assert(record_at(b, at) == last);
        assert forall|i: int| 0 <= i < records.len() implies #[trigger] config_records(b)[i]
            == records[i] by {
            if i < rest.len() {
                assert(config_records(head)[i] == rest[i]);
                let k = i * 12;
                assert(record_at(b, k) == record_at(head, k));
            }
        }
    }
    assert(config_records(b) =~= records);
}

// ---------------------------------------------------------------------------
// The configuration that the hook reads
// ---------------------------------------------------------------------------

/// Whether an application is managed.
pub open spec fn is_managed(r: ManagerAppConfigRecord) -> bool {
    r.mode != 40 && r.mode != 50
}

/// A number with at least five digits.
pub open spec fn five_digits(n: nat) -> Seq<char> {
    if n < 10 {
        "0000"@ + decimal(n)
    } else if n < 100 {
        "000"@ + decimal(n)
    } else if n < 1000 {
        "00"@ + decimal(n)
    } else if n < 10000 {
        "0"@ + decimal(n)
    } else {
        decimal(n)
    }
}

/// The token for a uid.
pub open spec fn uid_token(uid: u32) -> Seq<char> {
    five_digits(uid as nat) + "uid"@ + decimal(uid as nat)
}

/// Writes the token for a uid.
pub fn write_uid_token(uid: u32) -> (r: String)
    ensures
        r@ == uid_token(uid),
{
    let digits = number(uid as u128);
    let mut out = text(
        if uid < 10 {
            "0000"
        } else if uid < 100 {
            "000"
        } else if uid < 1000 {
            "00"
        } else if uid < 10000 {
            "0"
        } else {
            ""
        },
    );
    out.append(digits.as_str());
    proof {
        reveal_strlit("");
        assert(out@ =~= five_digits(uid as nat));
    }
    out.append("uid");
    out.append(digits.as_str());
    out
}

/// The tokens of the managed applications.
pub open spec fn managed_tokens(records: Seq<ManagerAppConfigRecord>) -> Seq<Seq<char>>
    decreases records.len(),
{
    if records.len() == 0 {
        seq![]
    } else {
        let rest = managed_tokens(records.drop_last());
        if is_managed(records.last()) {
            rest.push(uid_token(records.last().uid))
        } else {
            rest
        }
    }
}

/// The uids of the managed applications with a permissive policy.
pub open spec fn permissive_uids(records: Seq<ManagerAppConfigRecord>) -> Seq<Seq<char>>
    decreases records.len(),
{
    if records.len() == 0 {
        seq![]
    } else {
        let rest = permissive_uids(records.drop_last());
        if records.last().permissive && is_managed(records.last()) {
            rest.push(decimal(records.last().uid as nat))
        } else {
            rest
        }
    }
}

/// The first managed uid that the hook cannot read.
pub open spec fn unreadable_uid(records: Seq<ManagerAppConfigRecord>) -> Option<u32>
    decreases records.len(),
{
    if records.len() == 0 {
        None
    } else {
        match unreadable_uid(records.drop_last()) {
            Some(uid) => Some(uid),
            None => if is_managed(records.last()) && records.last().uid > LEGACY_XPOSED_MAX_UID {
                Some(records.last().uid)
            } else {
                None
            },
        }
    }
}

/// A line that is not empty.
pub open spec fn or_blank(s: Seq<char>) -> Seq<char> {
    if s.len() == 0 {
        " "@
    } else {
        s
    }
}

/// The configuration for the hook: the settings, the managed applications and those with a
/// permissive policy, each on a line.
pub open spec fn hook_text(settings: Seq<u8>, records: Seq<ManagerAppConfigRecord>) -> Seq<char> {
    join(settings.map_values(|b: u8| decimal(b as nat)), " "@) + "\n"@ + or_blank(
        join(managed_tokens(records), " "@),
    ) + "\n"@ + or_blank(join(permissive_uids(records), " "@))
}

/// The error for a uid that the hook cannot read.
pub open spec fn unreadable_error(uid: u32) -> ErrorView {
    ErrorView::Protocol(
        "uid "@ + decimal(uid as nat) + " exceeds the legacy hook five-digit UID format"@,
    )
}

/// The configuration for the hook as bytes.
pub open spec fn hook_payload(settings: Seq<u8>, records: Seq<ManagerAppConfigRecord>) -> Result<
    Seq<u8>,
    ErrorView,
> {
    match unreadable_uid(records) {
        Some(uid) => Err(unreadable_error(uid)),
        None => Ok(vstd::utf8::encode_utf8(hook_text(settings, records))),
    }
}

fn setting_texts(settings: &[u8]) -> (r: Vec<String>)
    ensures
        texts(r@) == settings@.map_values(|b: u8| decimal(b as nat)),
{
    let ghost all = settings@.map_values(|b: u8| decimal(b as nat));
    let mut parts: Vec<String> = Vec::new();
    let mut i: usize = 0;
    while i < settings.len()
        invariant
            i <= settings@.len(),
            all == settings@.map_values(|b: u8| decimal(b as nat)),
            texts(parts@) == all.take(i as int),
        decreases settings@.len() - i,
    {
        let ghost done = texts(parts@);
        let part = number(settings[i] as u128);
        parts.push(part);
        assert(texts(parts@) =~= done.push(part@));
        assert(all.take(i + 1) =~= all.take(i as int).push(all[i as int]));
        i += 1;
    }
    assert(all.take(i as int) =~= all);
    parts
}

/// Writes the configuration for the hook from records.
pub fn encode_hook_config(settings: &[u8], records: &[ManagerAppConfigRecord]) -> (r: Result<
    Vec<u8>,
    DaemonError,
>)
    ensures
        match r {
            Ok(v) => hook_payload(settings@, records@) == Ok::<Seq<u8>, ErrorView>(v@),
            Err(e) => hook_payload(settings@, records@) == Err::<Seq<u8>, ErrorView>(e@),
        },
{
    let mut managed: Vec<String> = Vec::new();
    let mut permissive: Vec<String> = Vec::new();
    let mut i: usize = 0;
    assert(texts(managed@) =~= managed_tokens(records@.take(0)));
    assert(texts(permissive@) =~= permissive_uids(records@.take(0)));
    let mut too_large: Option<u32> = None;
    while i < records.len()
        invariant
            i <= records@.len(),
            too_large == unreadable_uid(records@.take(i as int)),
            texts(managed@) == managed_tokens(records@.take(i as int)),
            texts(permissive@) == permissive_uids(records@.take(i as int)),
        decreases records@.len() - i,
    {
        let record = records[i];
        assert(records@.take(i + 1).drop_last() =~= records@.take(i as int));
        if record.mode != 40 && record.mode != 50 {
            if record.uid > LEGACY_XPOSED_MAX_UID && too_large.is_none() {
                too_large = Some(record.uid);
            }
            let ghost done = texts(managed@);
            let token = write_uid_token(record.uid);
            managed.push(token);
            assert(texts(managed@) =~= done.push(token@));
            if record.permissive {
                let ghost done = texts(permissive@);
                let uid = number(record.uid as u128);
                permissive.push(uid);
                assert(texts(permissive@) =~= done.push(uid@));
            }
        }
        i += 1;
    }
    assert(records@.take(i as int) =~= records@);
    match too_large {
        Some(uid) => {
            let mut message = text("uid ");
            let digits = number(uid as u128);
            message.append(digits.as_str());
            message.append(" exceeds the legacy hook five-digit UID format");
            return Err(DaemonError::protocol(message.as_str()));
        },
        None => {},
    }
    let parts = setting_texts(settings);
    let mut out = join_strings(parts.as_slice(), " ");
    out.append("\n");
    let managed_line = join_strings(managed.as_slice(), " ");
    if managed_line.as_str().is_empty() {
        out.append(" ");
    } else {
        out.append(managed_line.as_str());
    }
    out.append("\n");
    let permissive_line = join_strings(permissive.as_slice(), " ");
    if permissive_line.as_str().is_empty() {
        out.append(" ");
    } else {
        out.append(permissive_line.as_str());
    }
    Ok(bytes_of(out.as_str()))
}

/// Writes the configuration for the hook from records in their wire form.
pub fn encode_xposed_config_payload(settings: &[u8], app_config_payload: &[u8]) -> (r: Result<
    Vec<u8>,
    DaemonError,
>)
    ensures
        match r {
            Ok(v) => app_config_payload@.len() % 12 == 0 && hook_payload(
                settings@,
                config_records(app_config_payload@),
            ) == Ok::<Seq<u8>, ErrorView>(v@),
            Err(e) => if app_config_payload@.len() % 12 != 0 {
                e@ == incomplete_record()
            } else {
                hook_payload(settings@, config_records(app_config_payload@)) == Err::<
                    Seq<u8>,
                    ErrorView,
                >(e@)
            },
        },
{
    match decode_app_config(app_config_payload) {
        Ok(records) => encode_hook_config(settings, records.as_slice()),
        Err(e) => Err(e),
    }
}

// ---------------------------------------------------------------------------
// Updating records
// ---------------------------------------------------------------------------

/// The last record of an application.
pub open spec fn record_of(records: Seq<ManagerAppConfigRecord>, uid: u32) -> Option<
    ManagerAppConfigRecord,
>
    decreases records.len(),
{
    if records.len() == 0 || uid == NO_UID {
        None
    } else if records.last().uid == uid {
        Some(records.last())
    } else {
        record_of(records.drop_last(), uid)
    }
}

/// The last record of an application.
pub fn find_record(records: &[ManagerAppConfigRecord], uid: u32) -> (r: Option<
    ManagerAppConfigRecord,
>)
    ensures
        r == record_of(records@, uid),
{
    if uid == NO_UID {
        return None;
    }
    let mut n: usize = records.len();
    assert(records@.take(n as int) =~= records@);
    while n > 0
        invariant
            n <= records@.len(),
            uid != NO_UID,
            record_of(records@, uid) == record_of(records@.take(n as int), uid),
        decreases n,
    {
        assert(records@.take(n as int).drop_last() =~= records@.take(n - 1));
        if records[n - 1].uid == uid {
            return Some(records[n - 1]);
        }
        n -= 1;
    }
    None
}

/// Whether an application has a record.
pub open spec fn has_record(records: Seq<ManagerAppConfigRecord>, uid: u32) -> bool {
    exists|i: int| 0 <= i < records.len() && (#[trigger] records[i]).uid == uid
}

/// Whether an application has a record.
pub fn is_recorded(records: &[ManagerAppConfigRecord], uid: u32) -> (r: bool)
    ensures
        r == has_record(records@, uid),
{
    let mut i: usize = 0;
    while i < records.len()
        invariant
            i <= records@.len(),
            forall|k: int| 0 <= k < i ==> (#[trigger] records@[k]).uid != uid,
        decreases records@.len() - i,
    {
        if records[i].uid == uid {
            return true;
        }
        i += 1;
    }
    false
}

/// The last record of an application is one of its records.
pub proof fn record_of_facts(records: Seq<ManagerAppConfigRecord>, uid: u32)
    ensures
        record_of(records, uid) is Some <==> uid != NO_UID && has_record(records, uid),
        record_of(records, uid) matches Some(r) ==> r.uid == uid && records.contains(r),
    decreases records.len(),
{
    if records.len() > 0 && uid != NO_UID {
        record_of_facts(records.drop_last(), uid);
        if has_record(records, uid) && records.last().uid != uid {
            let i = choose|i: int| 0 <= i < records.len() && (#[trigger] records[i]).uid == uid;
            assert(records.drop_last()[i].uid == uid);
        }
        if records.last().uid == uid {
            assert(records[records.len() - 1].uid == uid);
        } else if has_record(records.drop_last(), uid) {
            let i = choose|i: int|
                0 <= i < records.drop_last().len() && (#[trigger] records.drop_last()[i]).uid
                    == uid;
            assert(records[i].uid == uid);
        }
        if record_of(records.drop_last(), uid) is Some {
            let r = record_of(records.drop_last(), uid)->0;
            let k = choose|k: int|
                0 <= k < records.drop_last().len() && records.drop_last()[k] == r;
            assert(records[k] == r);
        }
    }
}

/// A record after an update: the requested one, where there is one.
pub open spec fn updated(r: ManagerAppConfigRecord, requested: Seq<ManagerAppConfigRecord>) ->
    ManagerAppConfigRecord {
    match record_of(requested, r.uid) {
        Some(new) => new,
        None => r,
    }
}

/// The requested records of applications that had none.
pub open spec fn added(
    previous: Seq<ManagerAppConfigRecord>,
    requested: Seq<ManagerAppConfigRecord>,
) -> Seq<ManagerAppConfigRecord>
    decreases requested.len(),
{
    if requested.len() == 0 {
        seq![]
    } else {
        let rest = added(previous, requested.drop_last());
        if requested.last().uid != NO_UID && !has_record(previous, requested.last().uid) {
            rest.push(requested.last())
        } else {
            rest
        }
    }
}

/// The records after a request: those there were, each as requested last, then the new ones.
pub open spec fn merged(
    previous: Seq<ManagerAppConfigRecord>,
    requested: Seq<ManagerAppConfigRecord>,
) -> Seq<ManagerAppConfigRecord> {
    previous.map_values(|r: ManagerAppConfigRecord| updated(r, requested)) + added(
        previous,
        requested,
    )
}

/// Applies a request to the records.
pub fn merge_app_config_records(
    previous_records: &[ManagerAppConfigRecord],
    requested_records: &[ManagerAppConfigRecord],
) -> (r: Vec<ManagerAppConfigRecord>)
    ensures
        r@ == merged(previous_records@, requested_records@),
{
    let ghost kept = previous_records@.map_values(
        |r: ManagerAppConfigRecord| updated(r, requested_records@),
    );
    let mut out: Vec<ManagerAppConfigRecord> = Vec::new();
    let mut i: usize = 0;
    while i < previous_records.len()
        invariant
            i <= previous_records@.len(),
            kept == previous_records@.map_values(
                |r: ManagerAppConfigRecord| updated(r, requested_records@),
            ),
            out@ == kept.take(i as int),
        decreases previous_records@.len() - i,
    {
        let record = previous_records[i];
        out.push(
            match find_record(requested_records, record.uid) {
                Some(new) => new,
                None => record,
            },
        );
        assert(out@ =~= kept.take(i + 1));
        i += 1;
    }
    assert(kept.take(i as int) =~= kept);
    let mut j: usize = 0;
    assert(out@ =~= kept + added(previous_records@, requested_records@.take(0)));
    while j < requested_records.len()
        invariant
            j <= requested_records@.len(),
            out@ == kept + added(previous_records@, requested_records@.take(j as int)),
        decreases requested_records@.len() - j,
    {
        let record = requested_records[j];
        assert(requested_records@.take(j + 1).drop_last() =~= requested_records@.take(j as int));
        let ghost done = out@;
        if record.uid != NO_UID && !is_recorded(previous_records, record.uid) {
            out.push(record);
        }
        assert(out@ =~= kept + added(previous_records@, requested_records@.take(j + 1)));
        j += 1;
    }
    assert(requested_records@.take(j as int) =~= requested_records@);
    out
}

/// Decides equality of records.
pub fn same_records(a: &[ManagerAppConfigRecord], b: &[ManagerAppConfigRecord]) -> (r: bool)
    ensures
        r == (a@ == b@),
{
    if a.len() != b.len() {
        return false;
    }
    let mut i: usize = 0;
    while i < a.len()
        invariant
            i <= a@.len(),
            a@.len() == b@.len(),
            forall|k: int| 0 <= k < i ==> a@[k] == b@[k],
        decreases a@.len() - i,
    {
        if a[i] != b[i] {
            return false;
        }
        i += 1;
    }
    assert(a@ =~= b@);
    true
}

/// Copies records.
pub fn copy_records(records: &[ManagerAppConfigRecord]) -> (r: Vec<ManagerAppConfigRecord>)
    ensures
        r@ == records@,
{
    let mut out: Vec<ManagerAppConfigRecord> = Vec::new();
    let mut i: usize = 0;
    while i < records.len()
        invariant
            i <= records@.len(),
            out@ == records@.take(i as int),
        decreases records@.len() - i,
    {
        out.push(records[i]);
        assert(out@ =~= records@.take(i + 1));
        i += 1;
    }
    assert(out@ =~= records@);
    out
}

/// A request leaves the applications in their places, and the others as they were.
pub proof fn merge_keeps_other_records(
    previous: Seq<ManagerAppConfigRecord>,
    requested: Seq<ManagerAppConfigRecord>,
    i: int,
)
    requires
        0 <= i < previous.len(),
    ensures
        i < merged(previous, requested).len(),
        merged(previous, requested)[i].uid == previous[i].uid,
        !has_record(requested, previous[i].uid) ==> merged(previous, requested)[i] == previous[i],
{
    record_of_facts(requested, previous[i].uid);
}

proof fn added_has(
    previous: Seq<ManagerAppConfigRecord>,
    requested: Seq<ManagerAppConfigRecord>,
    uid: u32,
)
    requires
        uid != NO_UID,
        !has_record(previous, uid),
    ensures
        record_of(added(previous, requested), uid) == record_of(requested, uid),
    decreases requested.len(),
{
    if requested.len() > 0 {
        let rest = added(previous, requested.drop_last());
        added_has(previous, requested.drop_last(), uid);
        let last = requested.last();
        if last.uid != NO_UID && !has_record(previous, last.uid) {
            assert(added(previous, requested).drop_last() =~= rest);
        }
    }
}

proof fn added_has_none(
    previous: Seq<ManagerAppConfigRecord>,
    requested: Seq<ManagerAppConfigRecord>,
    uid: u32,
)
    requires
        has_record(previous, uid),
    ensures
        !has_record(added(previous, requested), uid),
    decreases requested.len(),
{
    if requested.len() > 0 {
        added_has_none(previous, requested.drop_last(), uid);
        let a = added(previous, requested);
        let rest = added(previous, requested.drop_last());
        assert forall|i: int| 0 <= i < a.len() implies (#[trigger] a[i]).uid != uid by {
            if i < rest.len() {
                assert(rest[i].uid != uid);
            }
        }
    }
}

proof fn record_of_concat(
    a: Seq<ManagerAppConfigRecord>,
    b: Seq<ManagerAppConfigRecord>,
    uid: u32,
)
    ensures
        record_of(a + b, uid) == match record_of(b, uid) {
            Some(r) => Some(r),
            None => record_of(a, uid),
        },
    decreases b.len(),
{
    if b.len() == 0 {
        assert(a + b =~= a);
    } else {
        assert((a + b).drop_last() =~= a + b.drop_last());
        record_of_concat(a, b.drop_last(), uid);
    }
}

proof fn record_of_updated(
    previous: Seq<ManagerAppConfigRecord>,
    requested: Seq<ManagerAppConfigRecord>,
    uid: u32,
)
    requires
        has_record(previous, uid),
        uid != NO_UID,
    ensures
        record_of(
            previous.map_values(|r: ManagerAppConfigRecord| updated(r, requested)),
            uid,
        ) == match record_of(requested, uid) {
            Some(r) => Some(r),
            None => record_of(previous, uid),
        },
    decreases previous.len(),
{
    let f = |r: ManagerAppConfigRecord| updated(r, requested);
    let m = previous.map_values(f);
    let last = previous.last();
    record_of_facts(requested, last.uid);
    record_of_facts(requested, uid);
    assert(m.last() == updated(last, requested));
    assert(m.last().uid == last.uid);
    if last.uid != uid {
        let i = choose|i: int| 0 <= i < previous.len() && (#[trigger] previous[i]).uid == uid;
        assert(previous.drop_last()[i].uid == uid);
        record_of_updated(previous.drop_last(), requested, uid);
        assert(m.drop_last() =~= previous.drop_last().map_values(f));
    }
}

/// After a request every requested application has its requested record, and every other one
/// the record that it had.
pub proof fn merge_applies_requests(
    previous: Seq<ManagerAppConfigRecord>,
    requested: Seq<ManagerAppConfigRecord>,
    uid: u32,
)
    ensures
        record_of(merged(previous, requested), uid) == match record_of(requested, uid) {
            Some(r) => Some(r),
            None => record_of(previous, uid),
        },
{
    let kept = previous.map_values(|r: ManagerAppConfigRecord| updated(r, requested));
    let new = added(previous, requested);
    record_of_concat(kept, new, uid);
    record_of_facts(new, uid);
    record_of_facts(requested, uid);
    record_of_facts(previous, uid);
    record_of_facts(kept, uid);
    if uid != NO_UID {
        if has_record(previous, uid) {
            added_has_none(previous, requested, uid);
            record_of_updated(previous, requested, uid);
        } else {
            added_has(previous, requested, uid);
            assert forall|i: int| 0 <= i < kept.len() implies (#[trigger] kept[i]).uid != uid by {
                record_of_facts(requested, previous[i].uid);
                assert(previous[i].uid != uid);
            }
        }
    }
}

/// The change of a record as text.
pub open spec fn change_text(old_record: ManagerAppConfigRecord, r: ManagerAppConfigRecord) -> Seq<
    char,
> {
    let base = signed_decimal(old_record.mode as int) + "->"@ + signed_decimal(r.mode as int)
        + " ["@ + decimal(r.uid as nat) + "uid"@ + decimal(r.uid as nat) + "]"@;
    if old_record.permissive != r.permissive {
        base + " 宽松:"@ + decimal(switch(old_record.permissive) as nat) + "->"@ + decimal(
            switch(r.permissive) as nat,
        )
    } else {
        base
    }
}

/// The changes of applications that had a record.
pub open spec fn change_rows(
    previous: Seq<ManagerAppConfigRecord>,
    records: Seq<ManagerAppConfigRecord>,
) -> Seq<Seq<char>>
    decreases records.len(),
{
    if records.len() == 0 {
        seq![]
    } else {
        let rest = change_rows(previous, records.drop_last());
        let r = records.last();
        match record_of(previous, r.uid) {
            Some(p) => if p.mode != r.mode || p.permissive != r.permissive {
                rest.push(change_text(p, r))
            } else {
                rest
            },
            None => rest,
        }
    }
}

/// Says which records changed, if any.
pub fn format_config_change_log(
    previous_records: &[ManagerAppConfigRecord],
    records: &[ManagerAppConfigRecord],
) -> (r: Option<String>)
    ensures
        match r {
            Some(s) => change_rows(previous_records@, records@).len() > 0 && s@
                == "配置变化：\n\n"@ + join(change_rows(previous_records@, records@), "\n"@),
            None => change_rows(previous_records@, records@).len() == 0,
        },
{
    let mut rows: Vec<String> = Vec::new();
    let mut i: usize = 0;
    assert(texts(rows@) =~= change_rows(previous_records@, records@.take(0)));
    while i < records.len()
        invariant
            i <= records@.len(),
            texts(rows@) == change_rows(previous_records@, records@.take(i as int)),
        decreases records@.len() - i,
    {
        let r = records[i];
        assert(records@.take(i + 1).drop_last() =~= records@.take(i as int));
        match find_record(previous_records, r.uid) {
            Some(p) => {
                if p.mode != r.mode || p.permissive != r.permissive {
                    let mut row = signed_number(p.mode as i64);
                    row.append("->");
                    let mode = signed_number(r.mode as i64);
                    row.append(mode.as_str());
                    row.append(" [");
                    let uid = number(r.uid as u128);
                    row.append(uid.as_str());
                    row.append("uid");
                    row.append(uid.as_str());
                    row.append("]");
                    if p.permissive != r.permissive {
                        row.append(" 宽松:");
                        let from = number(if p.permissive { 1 } else { 0 });
                        row.append(from.as_str());
                        row.append("->");
                        let to = number(if r.permissive { 1 } else { 0 });
                        row.append(to.as_str());
                    }
                    let ghost done = texts(rows@);
                    assert(row@ =~= change_text(p, r));
                    rows.push(row);
                    assert(texts(rows@) =~= done.push(row@));
                }
            },
            None => {},
        }
        i += 1;
    }
    assert(records@.take(i as int) =~= records@);
    assert(texts(rows@).len() == rows@.len());
    if rows.len() == 0 {
        return None;
    }
    let mut message = text("配置变化：\n\n");
    let joined = join_strings(rows.as_slice(), "\n");
    message.append(joined.as_str());
    Some(message)
}

} // verus!
