//! The freeze status that the manager displays.

use std::collections::BTreeMap;

use vstd::prelude::*;

use crate::app::controller::rules::{controls, is_control_policy_mode};
use crate::app::controller::state::{ControlView, RuntimeControlState};
use crate::domain::identity::{contains_uid, identities, Ident, IdentityMap};
use crate::domain::runtime::RuntimeProcess;
use crate::domain::uids::{at_listed, retain_listed_keys};
use crate::protocol::records::{ManagerAppConfigRecord, ManagerFreezeStatusRecord};

verus! {

broadcast use {vstd::std_specs::btree::group_btree_axioms, vstd::laws_cmp::group_laws_cmp};

/// Running in the background.
pub const STATE_RUNNING_BACKGROUND: i32 = 0;

/// In the foreground.
pub const STATE_FOREGROUND: i32 = 1;

/// To be frozen.
pub const STATE_PENDING: i32 = 2;

/// Frozen.
pub const STATE_FROZEN: i32 = 3;

/// `due` is the earliest time at which a freeze of the uid is due.
pub open spec fn earliest_due(pending: Map<Ident, u128>, uid: u32, due: u128) -> bool {
    &&& exists|k: Ident| #[trigger] pending.contains_key(k) && k.1 == uid && pending[k] == due
    &&& forall|k: Ident| #[trigger] pending.contains_key(k) && k.1 == uid ==> due <= pending[k]
}

/// Whether a freeze of the uid is due at some time.
pub open spec fn uid_pending(pending: Map<Ident, u128>, uid: u32) -> bool {
    exists|k: Ident| #[trigger] pending.contains_key(k) && k.1 == uid
}

/// Whether an identity of the uid is frozen.
pub open spec fn uid_frozen(frozen: Set<Ident>, uid: u32) -> bool {
    exists|k: Ident| #[trigger] frozen.contains(k) && k.1 == uid
}

/// What is displayed for a uid: the foreground wins over a pending freeze, a pending freeze
/// over a frozen state.
pub open spec fn display_state(foreground: bool, pending: bool, frozen: bool) -> i32 {
    if foreground {
        STATE_FOREGROUND
    } else if pending {
        STATE_PENDING
    } else if frozen {
        STATE_FROZEN
    } else {
        STATE_RUNNING_BACKGROUND
    }
}

/// A number of seconds that fits the record.
pub open spec fn capped(n: int) -> i32 {
    if n > i32::MAX {
        i32::MAX
    } else {
        n as i32
    }
}

/// The seconds until a time, rounded up.
pub open spec fn seconds_until(due: u128, now: u128) -> i32 {
    if due <= now {
        0
    } else {
        capped((due - now + 999) / 1000)
    }
}

/// The seconds since a time, rounded down.
pub open spec fn seconds_since(since: u128, now: u128) -> i32 {
    if now <= since {
        0
    } else {
        capped((now - since) / 1000)
    }
}

/// Since when a state is displayed: from now on, where it differs from the last one.
pub open spec fn displayed_since(
    status: Map<u32, (i32, u128)>,
    uid: u32,
    state: i32,
    now: u128,
) -> u128 {
    if status.contains_key(uid) && status[uid].0 == state {
        status[uid].1
    } else {
        now
    }
}

/// Whether anything is to be displayed for a uid.
pub open spec fn shown(s: ControlView, processes: nat, foreground: Seq<u32>, uid: u32) -> bool {
    processes > 0 || foreground.contains(uid) || uid_pending(s.pending, uid) || uid_frozen(
        s.frozen,
        uid,
    )
}

/// The number of processes of a uid.
pub open spec fn process_count(m: Map<u32, Vec<RuntimeProcess>>, uid: u32) -> nat {
    if m.contains_key(uid) {
        m[uid]@.len()
    } else {
        0
    }
}

/// The row of a uid, and the display times after it.
pub open spec fn status_row(
    s: ControlView,
    uid: u32,
    processes: nat,
    foreground: Seq<u32>,
    now: u128,
    status: Map<u32, (i32, u128)>,
    due: u128,
) -> (ManagerFreezeStatusRecord, Map<u32, (i32, u128)>) {
    let pending = uid_pending(s.pending, uid);
    let state = display_state(foreground.contains(uid), pending, uid_frozen(s.frozen, uid));
    let since = displayed_since(status, uid, state, now);
    (
        ManagerFreezeStatusRecord {
            uid,
            foreground: foreground.contains(uid),
            state,
            seconds: if pending {
                seconds_until(due, now)
            } else {
                seconds_since(since, now)
            },
            process_count: capped(processes as int),
        },
        if pending {
            status
        } else {
            status.insert(uid, (state, since))
        },
    )
}

/// The rows of the records from the `k`-th on, the display times after them and the uids
/// that are shown.
pub open spec fn status_rows(
    s: ControlView,
    records: Seq<ManagerAppConfigRecord>,
    k: int,
    processes: Map<u32, Vec<RuntimeProcess>>,
    foreground: Seq<u32>,
    now: u128,
    rows: Seq<ManagerFreezeStatusRecord>,
    status: Map<u32, (i32, u128)>,
    visible: Set<u32>,
) -> (Seq<ManagerFreezeStatusRecord>, Map<u32, (i32, u128)>, Set<u32>)
    decreases records.len() - k,
{
    if k >= records.len() || k < 0 {
        (rows, status, visible)
    } else {
        let uid = records[k].uid;
        let count = process_count(processes, uid);
        if !controls(records[k].mode) || !shown(s, count, foreground, uid) {
            status_rows(s, records, k + 1, processes, foreground, now, rows, status, visible)
        } else {
            let due = choose|due: u128| earliest_due(s.pending, uid, due);
            let (row, status1) = status_row(s, uid, count, foreground, now, status, due);
            status_rows(
                s,
                records,
                k + 1,
                processes,
                foreground,
                now,
                rows.push(row),
                status1,
                visible.insert(uid),
            )
        }
    }
}

/// The rank of a displayed state: foreground first, then pending, running and frozen.
pub open spec fn rank(state: i32) -> int {
    if state == STATE_FOREGROUND {
        0
    } else if state == STATE_PENDING {
        1
    } else if state == STATE_RUNNING_BACKGROUND {
        2
    } else if state == STATE_FROZEN {
        3
    } else {
        4
    }
}

/// Row `a` may stand before row `b`: by rank, then by uid.
pub open spec fn row_order(a: ManagerFreezeStatusRecord, b: ManagerFreezeStatusRecord) -> bool {
    rank(a.state) < rank(b.state) || (rank(a.state) == rank(b.state) && a.uid <= b.uid)
}

/// Rows in order.
pub open spec fn in_row_order(s: Seq<ManagerFreezeStatusRecord>) -> bool {
    forall|i: int, j: int| 0 <= i <= j < s.len() ==> row_order(#[trigger] s[i], #[trigger] s[j])
}

fn rank_of(state: i32) -> (r: u8)
    ensures
        r == rank(state),
{
    if state == STATE_FOREGROUND {
        0
    } else if state == STATE_PENDING {
        1
    } else if state == STATE_RUNNING_BACKGROUND {
        2
    } else if state == STATE_FROZEN {
        3
    } else {
        4
    }
}

fn insert_row(rows: &mut Vec<ManagerFreezeStatusRecord>, row: ManagerFreezeStatusRecord)
    requires
        in_row_order(old(rows)@),
    ensures
        in_row_order(final(rows)@),
        final(rows)@.to_multiset() == old(rows)@.to_multiset().insert(row),
{
    let ghost before = rows@;
    let key = rank_of(row.state);
    let mut i: usize = rows.len();
    while i > 0 && !(rank_of(rows[i - 1].state) < key || (rank_of(rows[i - 1].state) == key
        && rows[i - 1].uid <= row.uid))
        invariant
            i <= rows@.len(),
            rows@ == before,
            key == rank(row.state),
            in_row_order(before),
            forall|j: int| i <= j < before.len() ==> row_order(row, #[trigger] before[j]),
        decreases i,
    {
        i -= 1;
    }
    rows.insert(i, row);
    proof {
        vstd::seq_lib::to_multiset_insert(before, i as int, row);
        let after = rows@;
        assert forall|a: int, b: int| 0 <= a <= b < after.len() implies row_order(
            #[trigger] after[a],
            #[trigger] after[b],
        ) by {
            let oa = if a < i { a } else { a - 1 };
            let ob = if b < i { b } else { b - 1 };
            if a != i {
                assert(after[a] == before[oa]);
            }
            if b != i {
                assert(after[b] == before[ob]);
            }
            if a < i {
                assert(row_order(before[a], before[i - 1]));
            }
        }
    }
}

fn find_earliest_due(pending: &IdentityMap<u128>, uid: u32) -> (r: Option<u128>)
    ensures
        match r {
            Some(due) => earliest_due(pending@, uid, due),
            None => !uid_pending(pending@, uid),
        },
{
    let keys = pending.keys();
    let ghost ids = identities(keys@);
    let mut best: Option<u128> = None;
    let mut i: usize = 0;
    while i < keys.len()
        invariant
            i <= keys@.len(),
            ids == identities(keys@),
            ids.to_set() == pending@.dom(),
            match best {
                Some(due) => {
                    &&& exists|j: int|
                        0 <= j < i && (#[trigger] ids[j]).1 == uid && pending@[ids[j]] == due
                    &&& forall|j: int|
                        0 <= j < i && (#[trigger] ids[j]).1 == uid ==> due <= pending@[ids[j]]
                },
                None => forall|j: int| 0 <= j < i ==> (#[trigger] ids[j]).1 != uid,
            },
        decreases keys@.len() - i,
    {
        assert(ids[i as int] == keys@[i as int]@);
        assert(ids.to_set().contains(ids[i as int]));
        if keys[i].1 == uid {
            match pending.get(&keys[i]) {
                Some(due) => {
                    let due: u128 = *due;
                    best = match best {
                        Some(known) => if known <= due {
                            Some(known)
                        } else {
                            Some(due)
                        },
                        None => Some(due),
                    };
                },
                None => {},
            }
        }
        i += 1;
    }
    proof {
        assert forall|k: Ident| #[trigger]
            pending@.contains_key(k) implies exists|j: int| 0 <= j < ids.len() && ids[j] == k by {
            assert(ids.to_set().contains(k));
        }
        if let Some(due) = best {
            let j = choose|j: int|
                0 <= j < i && (#[trigger] ids[j]).1 == uid && pending@[ids[j]] == due;
            assert(ids.to_set().contains(ids[j]));
            assert(pending@.contains_key(ids[j]));
        }
    }
    best
}

fn find_frozen(frozen: &IdentityMap<()>, uid: u32) -> (r: bool)
    ensures
        r == uid_frozen(frozen@.dom(), uid),
{
    let keys = frozen.keys();
    let ghost ids = identities(keys@);
    let mut i: usize = 0;
    while i < keys.len()
        invariant
            i <= keys@.len(),
            ids == identities(keys@),
            ids.to_set() == frozen@.dom(),
            forall|j: int| 0 <= j < i ==> (#[trigger] ids[j]).1 != uid,
        decreases keys@.len() - i,
    {
        assert(ids[i as int] == keys@[i as int]@);
        assert(ids.to_set().contains(ids[i as int]));
        if keys[i].1 == uid {
            assert(frozen@.dom().contains(ids[i as int]));
            return true;
        }
        i += 1;
    }
    proof {
        assert forall|k: Ident| #[trigger]
            frozen@.dom().contains(k) implies exists|j: int| 0 <= j < ids.len() && ids[j] == k by {
            assert(ids.to_set().contains(k));
        }
    }
    false
}

proof fn earliest_due_is_unique(pending: Map<Ident, u128>, uid: u32, a: u128, b: u128)
    requires
        earliest_due(pending, uid, a),
        earliest_due(pending, uid, b),
    ensures
        a == b,
{
}

fn seconds_to(due: u128, now: u128) -> (r: i32)
    ensures
        r == seconds_until(due, now),
{
    if due <= now {
        return 0;
    }
    let left: u128 = due - now;
    let whole: u128 = left / 1_000;
    let seconds: u128 = if left % 1_000 == 0 {
        whole
    } else {
        whole + 1
    };
    assert(seconds == (left + 999) / 1000);
    if seconds > i32::MAX as u128 {
        i32::MAX
    } else {
        seconds as i32
    }
}

fn seconds_from(since: u128, now: u128) -> (r: i32)
    ensures
        r == seconds_since(since, now),
{
    if now <= since {
        return 0;
    }
    let seconds: u128 = (now - since) / 1_000;
    if seconds > i32::MAX as u128 {
        i32::MAX
    } else {
        seconds as i32
    }
}

impl RuntimeControlState {
    /// The rows that the manager displays, in order, for the controlled applications that are
    /// running, in the foreground, to be frozen or frozen.
    pub fn freeze_status_records(
        &mut self,
        app_config: &[ManagerAppConfigRecord],
        processes_by_uid: &BTreeMap<u32, Vec<RuntimeProcess>>,
        foreground_uids: &[u32],
        timestamp_ms: u128,
    ) -> (r: Vec<ManagerFreezeStatusRecord>)
        ensures
            old(self)@.pending.dom().finite(),
            ({
                let (rows, status, visible) = status_rows(
                    old(self)@,
                    app_config@,
                    0,
                    processes_by_uid@,
                    foreground_uids@,
                    timestamp_ms,
                    seq![],
                    old(self)@.status,
                    Set::empty(),
                );
                &&& in_row_order(r@)
                &&& r@.to_multiset() == rows.to_multiset()
                &&& final(self)@ == (ControlView {
                    status: at_listed(status, visible),
                    ..old(self)@
                })
            }),
    {
        let ghost s0 = self@;
        proof {
            self.pending_freezes.keys_are_finite();
        }
        let ghost start = status_rows(
            s0,
            app_config@,
            0,
            processes_by_uid@,
            foreground_uids@,
            timestamp_ms,
            seq![],
            s0.status,
            Set::empty(),
        );
        let mut records: Vec<ManagerFreezeStatusRecord> = Vec::new();
        let mut visible_uids: Vec<u32> = Vec::new();
        let ghost mut rows: Seq<ManagerFreezeStatusRecord> = seq![];
        assert(records@ =~= rows);
        assert(visible_uids@.to_set() =~= Set::empty());
        let mut k: usize = 0;
        while k < app_config.len()
            invariant
                k <= app_config@.len(),
                self@ == (ControlView { status: self@.status, ..s0 }),
                in_row_order(records@),
                records@.to_multiset() == rows.to_multiset(),
                start == status_rows(
                    s0,
                    app_config@,
                    k as int,
                    processes_by_uid@,
                    foreground_uids@,
                    timestamp_ms,
                    rows,
                    self@.status,
                    visible_uids@.to_set(),
                ),
            decreases app_config@.len() - k,
        {
            let config = &app_config[k];
            let uid = config.uid;
            if !is_control_policy_mode(config.mode) {
                k += 1;
                continue;
            }
            let count: usize = match processes_by_uid.get(&uid) {
                Some(processes) => processes.len(),
                None => 0,
            };
            assert(count == process_count(processes_by_uid@, uid));
            let is_foreground = contains_uid(foreground_uids, uid);
            let pending_due = find_earliest_due(&self.pending_freezes, uid);
            let is_frozen = find_frozen(&self.frozen_apps, uid);
            proof {
                if let Some(due) = pending_due {
                    let chosen = choose|d: u128| earliest_due(s0.pending, uid, d);
                    earliest_due_is_unique(s0.pending, uid, due, chosen);
                }
            }
            if count == 0 && !is_foreground && pending_due.is_none() && !is_frozen {
                k += 1;
                continue;
            }
            let state: i32 = if is_foreground {
                STATE_FOREGROUND
            } else if pending_due.is_some() {
                STATE_PENDING
            } else if is_frozen {
                STATE_FROZEN
            } else {
                STATE_RUNNING_BACKGROUND
            };
            let ghost status0 = self@.status;
            let ghost seen = visible_uids@;
            visible_uids.push(uid);
            let seconds: i32 = match pending_due {
                Some(due_at_ms) => seconds_to(due_at_ms, timestamp_ms),
                None => {
                    let since: u128 = match self.status_since_ms.get(&uid) {
                        Some((previous_state, since)) => if *previous_state == state {
                            *since
                        } else {
                            timestamp_ms
                        },
                        None => timestamp_ms,
                    };
                    self.status_since_ms.insert(uid, (state, since));
                    seconds_from(since, timestamp_ms)
                },
            };
            assert(self@ =~= (ControlView { status: self@.status, ..s0 }));
            let process_total: i32 = if count > i32::MAX as usize {
                i32::MAX
            } else {
                count as i32
            };
            let row = ManagerFreezeStatusRecord {
                uid,
                foreground: is_foreground,
                state,
                seconds,
                process_count: process_total,
            };
            insert_row(&mut records, row);
            proof {
                vstd::seq_lib::to_multiset_build(rows, row);
                rows = rows.push(row);
                assert(visible_uids@.to_set() =~= seen.to_set().insert(uid)) by {
                    assert forall|u: u32|
                        visible_uids@.to_set().contains(u) <==> seen.to_set().insert(uid).contains(
                            u,
                        ) by {
                        if seen.contains(u) {
                            let j = choose|j: int| 0 <= j < seen.len() && seen[j] == u;
                            assert(visible_uids@[j] == u);
                        }
                        assert(visible_uids@[seen.len() as int] == uid);
                    }
                }
            }
            k += 1;
        }
        retain_listed_keys(&mut self.status_since_ms, visible_uids.as_slice());
        assert(self@ =~= (ControlView {
            status: at_listed(start.1, visible_uids@.to_set()),
            ..s0
        }));
        records
    }
}

} // verus!
