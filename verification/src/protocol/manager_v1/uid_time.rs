//! The processor time of the managed applications.

use std::collections::BTreeMap;
use vstd::prelude::*;

use crate::domain::identity::contains_uid;
use crate::domain::uids::{at_listed, retain_listed_keys};
use crate::protocol::bytes::{le_bytes, push_u32, to_unsigned, unsigned};
use crate::protocol::manager_v1::app_config::{is_managed, NO_UID};
use crate::protocol::manager_v1::realtime::quotient;
use crate::protocol::records::ManagerAppConfigRecord;
use crate::text::{
    lines, parse_i64, parse_signed, parse_u32, parse_unsigned, split_at_char, split_lines,
    split_once, split_words, texts, trim, trimmed, words,
};

verus! {

broadcast use {vstd::std_specs::btree::group_btree_axioms, vstd::laws_cmp::group_laws_cmp};

/// The processor time of an application.
#[derive(Debug, Clone, Copy, PartialEq, Eq, Structural)]
pub struct UidTime {
    pub uid: u32,
    pub delta_ms: i32,
    pub total_ms: i32,
}

/// A sum within the range of a machine number.
pub open spec fn bounded_sum(a: int, b: int) -> int {
    if a + b > i64::MAX {
        i64::MAX as int
    } else if a + b < i64::MIN {
        i64::MIN as int
    } else {
        a + b
    }
}

/// A number of milliseconds that can be shown.
pub open spec fn shown_ms(us: int) -> i32 {
    let ms = quotient(us, 1000);
    if ms < 0 {
        0
    } else if ms > i32::MAX {
        i32::MAX
    } else {
        ms as i32
    }
}

/// The uid and the time on a line: a uid, a colon, and the times of user and system code.
pub open spec fn time_line(line: Seq<char>) -> Option<(u32, i32)> {
    match split_once(line, ':') {
        None => None,
        Some((head, tail)) => match parse_unsigned(trim(head), u32::MAX as nat) {
            None => None,
            Some(uid) => {
                let parts = words(tail);
                if parts.len() < 2 {
                    None
                } else {
                    match (
                        parse_signed(parts[0], i64::MIN as int, i64::MAX as int),
                        parse_signed(parts[1], i64::MIN as int, i64::MAX as int),
                    ) {
                        (Some(user), Some(system)) => Some(
                            (uid as u32, shown_ms(bounded_sum(user, system))),
                        ),
                        _ => None,
                    }
                }
            },
        },
    }
}

/// Reads the uid and the time on a line.
pub fn parse_uid_cpu_time_line(line: &str) -> (r: Option<(u32, i32)>)
    ensures
        r == time_line(line@),
{
    let (head, tail) = match split_at_char(line, ':') {
        Some(parts) => parts,
        None => {
            return None;
        },
    };
    let uid_text = trimmed(head.as_str());
    let uid = match parse_u32(uid_text.as_str()) {
        Some(uid) => uid,
        None => {
            return None;
        },
    };
    let parts = split_words(tail.as_str());
    assert(texts(parts@).len() == parts@.len());
    if parts.len() < 2 {
        return None;
    }
    assert(texts(parts@)[0] == parts@[0]@);
    assert(texts(parts@)[1] == parts@[1]@);
    match (parse_i64(parts[0].as_str()), parse_i64(parts[1].as_str())) {
        (Some(user), Some(system)) => {
            let exact: i128 = user as i128 + system as i128;
            let bounded: i128 = if exact > i64::MAX as i128 {
                i64::MAX as i128
            } else if exact < i64::MIN as i128 {
                i64::MIN as i128
            } else {
                exact
            };
            let total: i32 = if bounded < 1000 {
                0
            } else {
                let ms: i128 = bounded / 1000;
                if ms > i32::MAX as i128 {
                    i32::MAX
                } else {
                    ms as i32
                }
            };
            Some((uid, total))
        },
        _ => None,
    }
}

/// The managed applications.
pub open spec fn managed(records: Seq<ManagerAppConfigRecord>) -> Seq<u32>
    decreases records.len(),
{
    if records.len() == 0 {
        seq![]
    } else {
        let rest = managed(records.drop_last());
        if records.last().uid != NO_UID && is_managed(records.last()) {
            rest.push(records.last().uid)
        } else {
            rest
        }
    }
}

/// Lists the managed applications.
pub fn managed_list(records: &[ManagerAppConfigRecord]) -> (r: Vec<u32>)
    ensures
        r@ == managed(records@),
{
    let mut out: Vec<u32> = Vec::new();
    let mut i: usize = 0;
    assert(out@ =~= managed(records@.take(0)));
    while i < records.len()
        invariant
            i <= records@.len(),
            out@ == managed(records@.take(i as int)),
        decreases records@.len() - i,
    {
        let record = records[i];
        assert(records@.take(i + 1).drop_last() =~= records@.take(i as int));
        if record.uid != NO_UID && record.mode != 40 && record.mode != 50 {
            out.push(record.uid);
        }
        i += 1;
    }
    assert(records@.take(i as int) =~= records@);
    out
}

/// The last known total of an application.
pub open spec fn last_total(totals: Map<u32, i32>, uid: u32) -> int {
    if totals.contains_key(uid) {
        totals[uid] as int
    } else {
        0
    }
}

/// A difference within the range of a machine number.
pub open spec fn bounded_difference(a: int, b: int) -> i32 {
    if a - b > i32::MAX {
        i32::MAX
    } else if a - b < i32::MIN {
        i32::MIN
    } else {
        (a - b) as i32
    }
}

/// The times and totals after lines were read. Only managed applications that ran count.
pub open spec fn read_times(
    totals: Map<u32, i32>,
    uids: Seq<u32>,
    rows: Seq<Seq<char>>,
) -> (Map<u32, i32>, Seq<UidTime>)
    decreases rows.len(),
{
    if rows.len() == 0 {
        (totals, seq![])
    } else {
        let (known, times) = read_times(totals, uids, rows.drop_last());
        match time_line(rows.last()) {
            Some((uid, total)) => if uids.contains(uid) && total > 0 {
                (
                    known.insert(uid, total),
                    times.push(
                        UidTime {
                            uid,
                            delta_ms: bounded_difference(total as int, last_total(known, uid)),
                            total_ms: total,
                        },
                    ),
                )
            } else {
                (known, times)
            },
            None => (known, times),
        }
    }
}

/// Whether a time is listed ahead of another: the larger total first, then the smaller uid.
pub open spec fn ahead(a: UidTime, b: UidTime) -> bool {
    a.total_ms > b.total_ms || (a.total_ms == b.total_ms && a.uid < b.uid)
}

/// The place of a time in a list: ahead of the first one that it is ahead of.
pub open spec fn place_of(times: Seq<UidTime>, t: UidTime, from: int) -> int
    decreases times.len() - from,
{
    if from >= times.len() {
        times.len() as int
    } else if ahead(t, times[from]) {
        from
    } else {
        place_of(times, t, from + 1)
    }
}

/// The times in the order in which they are listed; equal ones keep their order.
pub open spec fn listed(times: Seq<UidTime>) -> Seq<UidTime>
    decreases times.len(),
{
    if times.len() == 0 {
        seq![]
    } else {
        let rest = listed(times.drop_last());
        rest.insert(place_of(rest, times.last(), 0), times.last())
    }
}

/// Sorted times: none is listed behind one that it is ahead of.
pub open spec fn in_list_order(times: Seq<UidTime>) -> bool {
    forall|i: int, j: int| 0 <= i < j < times.len() ==> !ahead(times[j], times[i])
}

proof fn place_of_facts(times: Seq<UidTime>, t: UidTime, from: int)
    requires
        0 <= from <= times.len(),
    ensures
        from <= place_of(times, t, from) <= times.len(),
        forall|k: int| from <= k < place_of(times, t, from) ==> !ahead(t, times[k]),
        place_of(times, t, from) < times.len() ==> ahead(t, times[place_of(times, t, from)]),
    decreases times.len() - from,
{
    if from < times.len() && !ahead(t, times[from]) {
        place_of_facts(times, t, from + 1);
    }
}

/// The listed times are the same times, in order.
pub proof fn listing_sorts(times: Seq<UidTime>)
    ensures
        in_list_order(listed(times)),
        listed(times).to_multiset() == times.to_multiset(),
    decreases times.len(),
{
    if times.len() == 0 {
        assert(listed(times) =~= times);
    } else {
        let rest = listed(times.drop_last());
        let t = times.last();
        let p = place_of(rest, t, 0);
        listing_sorts(times.drop_last());
        place_of_facts(rest, t, 0);
        let s = rest.insert(p, t);
        assert forall|i: int, j: int| 0 <= i < j < s.len() implies !ahead(s[j], s[i]) by {
            if i < p && j > p {
                assert(!ahead(rest[j - 1], rest[i]));
            } else if i > p {
                assert(!ahead(rest[j - 1], rest[i - 1]));
            } else if j < p {
                assert(!ahead(rest[j], rest[i]));
            } else if i == p {
                assert(ahead(t, rest[p]));
                if j - 1 > p {
                    assert(!ahead(rest[j - 1], rest[p]));
                }
            }
        }
        vstd::seq_lib::to_multiset_insert(rest, p, t);
        assert(times.drop_last().push(t) =~= times);
        vstd::seq_lib::to_multiset_build(times.drop_last(), t);
    }
}

/// The bytes of times.
pub open spec fn time_bytes(times: Seq<UidTime>) -> Seq<u8>
    decreases times.len(),
{
    if times.len() == 0 {
        seq![]
    } else {
        let t = times.last();
        time_bytes(times.drop_last()) + le_bytes(t.uid) + le_bytes(unsigned(t.delta_ms)) + le_bytes(
            unsigned(t.total_ms),
        )
    }
}

fn insert_time(times: &mut Vec<UidTime>, t: UidTime)
    ensures
        final(times)@ == old(times)@.insert(place_of(old(times)@, t, 0), t),
{
    let mut i: usize = 0;
    while i < times.len() && !(t.total_ms > times[i].total_ms || (t.total_ms == times[i].total_ms
        && t.uid < times[i].uid))
        invariant
            i <= times@.len(),
            times@ == old(times)@,
            place_of(times@, t, 0) == place_of(times@, t, i as int),
        decreases times@.len() - i,
    {
        i += 1;
    }
    times.insert(i, t);
}

/// The answer and the totals for the text of the kernel's table.
pub open spec fn uid_time_answer(
    totals: Map<u32, i32>,
    records: Seq<ManagerAppConfigRecord>,
    table: Seq<char>,
) -> (Map<u32, i32>, Seq<u8>) {
    let uids = managed(records);
    if uids.len() == 0 {
        (Map::empty(), seq![])
    } else {
        let (known, times) = read_times(totals, uids, lines(table));
        (at_listed(known, uids.to_set()), time_bytes(listed(times)))
    }
}

/// Answers a request for the processor times.
pub fn encode_uid_time(
    totals: &mut BTreeMap<u32, i32>,
    records: &[ManagerAppConfigRecord],
    table: &str,
) -> (r: Vec<u8>)
    ensures
        (final(totals)@, r@) == uid_time_answer(old(totals)@, records@, table@),
{
    let uids = managed_list(records);
    if uids.len() == 0 {
        totals.clear();
        return Vec::new();
    }
    let ghost start = totals@;
    let rows = split_lines(table);
    let ghost all = texts(rows@);
    let mut times: Vec<UidTime> = Vec::new();
    let mut i: usize = 0;
    assert(times@ =~= listed(read_times(start, uids@, all.take(0)).1));
    while i < rows.len()
        invariant
            i <= rows@.len(),
            all == texts(rows@),
            totals@ == read_times(start, uids@, all.take(i as int)).0,
            times@ == listed(read_times(start, uids@, all.take(i as int)).1),
        decreases rows@.len() - i,
    {
        assert(all.take(i + 1).drop_last() =~= all.take(i as int));
        assert(all[i as int] == rows@[i as int]@);
        match parse_uid_cpu_time_line(rows[i].as_str()) {
            Some((uid, total)) => {
                if contains_uid(uids.as_slice(), uid) && total > 0 {
                    let last: i32 = match totals.get(&uid) {
                        Some(last) => *last,
                        None => 0,
                    };
                    let exact: i64 = total as i64 - last as i64;
                    let delta_ms: i32 = if exact > i32::MAX as i64 {
                        i32::MAX
                    } else if exact < i32::MIN as i64 {
                        i32::MIN
                    } else {
                        exact as i32
                    };
                    let t = UidTime { uid, delta_ms, total_ms: total };
                    let ghost before = read_times(start, uids@, all.take(i as int)).1;
                    totals.insert(uid, total);
                    insert_time(&mut times, t);
                    assert(before.push(t).drop_last() =~= before);
                }
            },
            None => {},
        }
        i += 1;
    }
    assert(all.take(i as int) =~= all);
    retain_listed_keys(totals, uids.as_slice());
    let mut payload: Vec<u8> = Vec::new();
    let mut k: usize = 0;
    assert(payload@ =~= time_bytes(times@.take(0)));
    while k < times.len()
        invariant
            k <= times@.len(),
            payload@ == time_bytes(times@.take(k as int)),
        decreases times@.len() - k,
    {
        assert(times@.take(k + 1).drop_last() =~= times@.take(k as int));
        let t = times[k];
        push_u32(&mut payload, t.uid);
        push_u32(&mut payload, to_unsigned(t.delta_ms));
        push_u32(&mut payload, to_unsigned(t.total_ms));
        k += 1;
    }
    assert(times@.take(k as int) =~= times@);
    payload
}

} // verus!
