//! What the manager is shown of the applications.

use vstd::prelude::*;

use crate::app::controller::state::ControlView;
use crate::app::controller::status::{
    displayed_since, display_state, earliest_due, in_row_order, process_count, row_order, shown,
    status_row, status_rows, uid_frozen, uid_pending,
};
use crate::domain::identity::Ident;
use crate::domain::runtime::RuntimeProcess;
use crate::domain::uids::at_listed;
use crate::protocol::records::{ManagerAppConfigRecord, ManagerFreezeStatusRecord};

verus! {

/// A freeze of the uid waits for its time.
pub open spec fn waits(s: ControlView, uid: u32) -> bool {
    exists|id: Ident| #[trigger] s.pending.contains_key(id) && id.1 == uid
}

/// The uid is frozen.
pub open spec fn is_frozen(s: ControlView, uid: u32) -> bool {
    exists|id: Ident| #[trigger] s.frozen.contains(id) && id.1 == uid
}

/// Seconds are a time in milliseconds rounded up, as far as they can be shown.
pub open spec fn rounded_up(seconds: i32, ms: int) -> bool {
    &&& ms <= 0 ==> seconds == 0
    &&& 0 < ms <= 2_147_483_647_000 ==> (seconds - 1) * 1000 < ms <= seconds * 1000
    &&& ms > 2_147_483_647_000 ==> seconds == 2_147_483_647
}

/// Seconds are a time in milliseconds rounded down, as far as they can be shown.
pub open spec fn rounded_down(seconds: i32, ms: int) -> bool {
    &&& ms <= 0 ==> seconds == 0
    &&& 0 < ms < 2_147_483_648_000 ==> seconds * 1000 <= ms < (seconds + 1) * 1000
    &&& ms >= 2_147_483_648_000 ==> seconds == 2_147_483_647
}

/// A row shows the state of its uid: the foreground before all else, then a freeze that waits,
/// then a freeze that was done.
pub open spec fn shows_state(
    row: ManagerFreezeStatusRecord,
    s: ControlView,
    foreground: Seq<u32>,
) -> bool {
    &&& row.foreground == foreground.contains(row.uid)
    &&& row.state == 1 <==> foreground.contains(row.uid)
    &&& row.state == 2 <==> waits(s, row.uid) && !foreground.contains(row.uid)
    &&& row.state == 3 <==> is_frozen(s, row.uid) && !waits(s, row.uid) && !foreground.contains(
        row.uid,
    )
    &&& row.state == 0 <==> !is_frozen(s, row.uid) && !waits(s, row.uid) && !foreground.contains(
        row.uid,
    )
}

/// A row counts the processes of its uid.
pub open spec fn shows_count(
    row: ManagerFreezeStatusRecord,
    processes: Map<u32, Vec<RuntimeProcess>>,
) -> bool {
    if processes.contains_key(row.uid) {
        row.process_count == processes[row.uid]@.len() || (row.process_count == 2_147_483_647
            && processes[row.uid]@.len() > 2_147_483_647)
    } else {
        row.process_count == 0
    }
}

/// A row shows the time that is left until the first freeze that waits; else the time for which
/// its state was shown, which is none where another state was shown last.
pub open spec fn shows_time(
    row: ManagerFreezeStatusRecord,
    s: ControlView,
    now: u128,
    status: Map<u32, (i32, u128)>,
) -> bool {
    if waits(s, row.uid) {
        exists|id: Ident| #[trigger]
            s.pending.contains_key(id) && id.1 == row.uid && (forall|other: Ident| #[trigger]
                s.pending.contains_key(other) && other.1 == row.uid ==> s.pending[id]
                    <= s.pending[other]) && rounded_up(row.seconds, s.pending[id] - now)
    } else if status.contains_key(row.uid) && status[row.uid].0 == row.state {
        rounded_down(row.seconds, now - status[row.uid].1)
    } else {
        row.seconds == 0
    }
}

/// There is something to show for a uid.
pub open spec fn has_something(
    s: ControlView,
    processes: Map<u32, Vec<RuntimeProcess>>,
    foreground: Seq<u32>,
    uid: u32,
) -> bool {
    (processes.contains_key(uid) && processes[uid]@.len() > 0) || foreground.contains(uid)
        || waits(s, uid) || is_frozen(s, uid)
}

/// A record asks for control and there is something to show for it.
pub open spec fn is_shown(
    s: ControlView,
    record: ManagerAppConfigRecord,
    processes: Map<u32, Vec<RuntimeProcess>>,
    foreground: Seq<u32>,
) -> bool {
    &&& record.mode == 10 || record.mode == 20 || record.mode == 21 || record.mode == 30
        || record.mode == 31
    &&& has_something(s, processes, foreground, record.uid)
}

proof fn some_due_is_earliest(s: ControlView, uid: u32)
    requires
        waits(s, uid),
        s.pending.dom().finite(),
    ensures
        exists|due: u128| #[trigger] earliest_due(s.pending, uid, due),
{
    let first = choose|id: Ident| #[trigger] s.pending.contains_key(id) && id.1 == uid;
    let least = least_due(s, uid, s.pending.dom(), first);
    assert forall|id: Ident| #[trigger] s.pending.contains_key(id) && id.1 == uid implies s.pending[least]
        <= s.pending[id] by {
        assert(s.pending.dom().contains(id));
    }
    assert(earliest_due(s.pending, uid, s.pending[least]));
}

proof fn least_due(s: ControlView, uid: u32, ids: Set<Ident>, best: Ident) -> (r: Ident)
    requires
        ids.finite(),
        s.pending.contains_key(best),
        best.1 == uid,
    ensures
        s.pending.contains_key(r),
        r.1 == uid,
        s.pending[r] <= s.pending[best],
        forall|id: Ident| #[trigger]
            ids.contains(id) && s.pending.contains_key(id) && id.1 == uid ==> s.pending[r]
                <= s.pending[id],
    decreases ids.len(),
{
    if ids.len() == 0 {
        assert forall|id: Ident| !ids.contains(id) by {
            if ids.contains(id) {
                assert(ids =~= Set::empty());
            }
        }
        best
    } else {
        let id = ids.choose();
        assert(ids.contains(id));
        let better = if s.pending.contains_key(id) && id.1 == uid && s.pending[id]
            < s.pending[best] {
            id
        } else {
            best
        };
        let r = least_due(s, uid, ids.remove(id), better);
        assert forall|other: Ident| #[trigger]
            ids.contains(other) && s.pending.contains_key(other) && other.1 == uid implies s.pending[r]
            <= s.pending[other] by {
            if other != id {
                assert(ids.remove(id).contains(other));
            }
        }
        r
    }
}

/// The time since which the current state of any uid is shown is the same under both.
spec fn agree(
    s: ControlView,
    foreground: Seq<u32>,
    now: u128,
    a: Map<u32, (i32, u128)>,
    b: Map<u32, (i32, u128)>,
) -> bool {
    forall|uid: u32|
        #![trigger a.contains_key(uid)]
        #![trigger b.contains_key(uid)]
        {
            let state = display_state(
                foreground.contains(uid),
                uid_pending(s.pending, uid),
                uid_frozen(s.frozen, uid),
            );
            displayed_since(a, uid, state, now) == displayed_since(b, uid, state, now)
        }
}

proof fn one_row(
    s: ControlView,
    uid: u32,
    processes: Map<u32, Vec<RuntimeProcess>>,
    foreground: Seq<u32>,
    now: u128,
    first: Map<u32, (i32, u128)>,
    status: Map<u32, (i32, u128)>,
    due: u128,
)
    requires
        waits(s, uid) ==> earliest_due(s.pending, uid, due),
        agree(s, foreground, now, first, status),
    ensures
        ({
            let count = process_count(processes, uid);
            let (row, after) = status_row(s, uid, count, foreground, now, status, due);
            &&& row.uid == uid
            &&& shows_state(row, s, foreground)
            &&& shows_count(row, processes)
            &&& shows_time(row, s, now, first)
            &&& agree(s, foreground, now, first, after)
        }),
{
    let count = process_count(processes, uid);
    let (row, after) = status_row(s, uid, count, foreground, now, status, due);
    assert(waits(s, uid) == uid_pending(s.pending, uid));
    assert(is_frozen(s, uid) == uid_frozen(s.frozen, uid));
    assert(first.contains_key(uid) || !first.contains_key(uid));
    assert(status.contains_key(uid) || !status.contains_key(uid));
    if waits(s, uid) {
        let id = choose|id: Ident| #[trigger]
            s.pending.contains_key(id) && id.1 == uid && s.pending[id] == due;
        assert(rounded_up(row.seconds, s.pending[id] - now));
    }
    assert forall|u: u32|
        #![trigger first.contains_key(u)]
        #![trigger after.contains_key(u)]
        {
            let state = display_state(
                foreground.contains(u),
                uid_pending(s.pending, u),
                uid_frozen(s.frozen, u),
            );
            displayed_since(first, u, state, now) == displayed_since(after, u, state, now)
        } by {
        assert(status.contains_key(u) || !status.contains_key(u));
        assert(first.contains_key(u) || !first.contains_key(u));
    }
}

spec fn good_row(
    row: ManagerFreezeStatusRecord,
    s: ControlView,
    records: Seq<ManagerAppConfigRecord>,
    processes: Map<u32, Vec<RuntimeProcess>>,
    foreground: Seq<u32>,
    now: u128,
    first: Map<u32, (i32, u128)>,
) -> bool {
    &&& shows_state(row, s, foreground)
    &&& shows_count(row, processes)
    &&& shows_time(row, s, now, first)
    &&& exists|m: int|
        0 <= m < records.len() && (#[trigger] records[m]).uid == row.uid && is_shown(
            s,
            records[m],
            processes,
            foreground,
        )
}

/// How many records before the `k`-th are shown.
pub open spec fn shown_before(
    s: ControlView,
    records: Seq<ManagerAppConfigRecord>,
    processes: Map<u32, Vec<RuntimeProcess>>,
    foreground: Seq<u32>,
    k: int,
) -> int
    decreases k,
{
    if k <= 0 {
        0
    } else {
        shown_before(s, records, processes, foreground, k - 1) + (if is_shown(
            s,
            records[k - 1],
            processes,
            foreground,
        ) {
            1int
        } else {
            0int
        })
    }
}

spec fn rows_so_far(
    s: ControlView,
    records: Seq<ManagerAppConfigRecord>,
    k: int,
    processes: Map<u32, Vec<RuntimeProcess>>,
    foreground: Seq<u32>,
    now: u128,
    first: Map<u32, (i32, u128)>,
    rows: Seq<ManagerFreezeStatusRecord>,
    visible: Set<u32>,
) -> bool {
    &&& rows.len() == shown_before(s, records, processes, foreground, k)
    &&& forall|n: int|
        0 <= n < rows.len() ==> good_row(
            #[trigger] rows[n],
            s,
            records,
            processes,
            foreground,
            now,
            first,
        )
    &&& forall|m: int|
        0 <= m < k && is_shown(s, #[trigger] records[m], processes, foreground) ==> exists|n: int|
            0 <= n < rows.len() && (#[trigger] rows[n]).uid == records[m].uid
    &&& forall|uid: u32| #[trigger]
        visible.contains(uid) <==> exists|n: int|
            0 <= n < rows.len() && (#[trigger] rows[n]).uid == uid
}

proof fn rows_go_on(
    s: ControlView,
    records: Seq<ManagerAppConfigRecord>,
    k: int,
    processes: Map<u32, Vec<RuntimeProcess>>,
    foreground: Seq<u32>,
    now: u128,
    first: Map<u32, (i32, u128)>,
    rows: Seq<ManagerFreezeStatusRecord>,
    status: Map<u32, (i32, u128)>,
    visible: Set<u32>,
)
    requires
        0 <= k <= records.len(),
        s.pending.dom().finite(),
        rows_so_far(s, records, k, processes, foreground, now, first, rows, visible),
        agree(s, foreground, now, first, status),
    ensures
        ({
            let (all, after, seen) = status_rows(
                s,
                records,
                k,
                processes,
                foreground,
                now,
                rows,
                status,
                visible,
            );
            &&& rows_so_far(
                s,
                records,
                records.len() as int,
                processes,
                foreground,
                now,
                first,
                all,
                seen,
            )
            &&& agree(s, foreground, now, first, after)
        }),
    decreases records.len() - k,
{
    if k < records.len() {
        let uid = records[k].uid;
        let count = process_count(processes, uid);
        assert(waits(s, uid) == uid_pending(s.pending, uid));
        assert(is_frozen(s, uid) == uid_frozen(s.frozen, uid));
        assert(is_shown(s, records[k], processes, foreground)
            == (crate::app::controller::rules::controls(records[k].mode) && shown(
            s,
            count,
            foreground,
            uid,
        )));
        if is_shown(s, records[k], processes, foreground) {
            if waits(s, uid) {
                some_due_is_earliest(s, uid);
            }
            let due = choose|due: u128| earliest_due(s.pending, uid, due);
            one_row(s, uid, processes, foreground, now, first, status, due);
            let (row, status1) = status_row(s, uid, count, foreground, now, status, due);
            let more = rows.push(row);
            let seen = visible.insert(uid);
            assert(good_row(row, s, records, processes, foreground, now, first)) by {
                assert(records[k].uid == row.uid);
            }
            assert forall|m: int| 0 <= m < k + 1 && is_shown(
                s,
                #[trigger] records[m],
                processes,
                foreground,
            ) implies exists|n: int|
                0 <= n < more.len() && (#[trigger] more[n]).uid == records[m].uid by {
                if m < k {
                    let n = choose|n: int|
                        0 <= n < rows.len() && (#[trigger] rows[n]).uid == records[m].uid;
                    assert(more[n].uid == records[m].uid);
                } else {
                    assert(more[rows.len() as int].uid == records[m].uid);
                }
            }
            assert forall|u: u32| #[trigger] seen.contains(u) <==> exists|n: int|
                0 <= n < more.len() && (#[trigger] more[n]).uid == u by {
                if visible.contains(u) {
                    let n = choose|n: int| 0 <= n < rows.len() && (#[trigger] rows[n]).uid == u;
                    assert(more[n].uid == u);
                }
                if u == uid {
                    assert(more[rows.len() as int].uid == u);
                }
                if exists|n: int| 0 <= n < more.len() && (#[trigger] more[n]).uid == u {
                    let n = choose|n: int| 0 <= n < more.len() && (#[trigger] more[n]).uid == u;
                    if n < rows.len() {
                        assert(rows[n].uid == u);
                    }
                }
            }
            rows_go_on(
                s,
                records,
                k + 1,
                processes,
                foreground,
                now,
                first,
                more,
                status1,
                seen,
            );
        } else {
            rows_go_on(
                s,
                records,
                k + 1,
                processes,
                foreground,
                now,
                first,
                rows,
                status,
                visible,
            );
        }
    }
}

/// The manager is shown one row for each record under control of which there is something to
/// show. Each row has the state, the time and the number of processes of its uid.
pub proof fn rows_show_what_is(
    s: ControlView,
    records: Seq<ManagerAppConfigRecord>,
    processes: Map<u32, Vec<RuntimeProcess>>,
    foreground: Seq<u32>,
    now: u128,
)
    requires
        s.pending.dom().finite(),
    ensures
        ({
            let rows = status_rows(
                s,
                records,
                0,
                processes,
                foreground,
                now,
                seq![],
                s.status,
                Set::empty(),
            ).0;
            &&& rows.len() == shown_before(
                s,
                records,
                processes,
                foreground,
                records.len() as int,
            )
            &&& forall|n: int|
                0 <= n < rows.len() ==> {
                    &&& shows_state(#[trigger] rows[n], s, foreground)
                    &&& shows_count(rows[n], processes)
                    &&& shows_time(rows[n], s, now, s.status)
                    &&& exists|m: int|
                        0 <= m < records.len() && (#[trigger] records[m]).uid == rows[n].uid
                            && is_shown(s, records[m], processes, foreground)
                }
            &&& forall|m: int|
                0 <= m < records.len() && is_shown(s, #[trigger] records[m], processes, foreground)
                    ==> exists|n: int| 0 <= n < rows.len() && (#[trigger] rows[n]).uid
                    == records[m].uid
        }),
{
    let rows: Seq<ManagerFreezeStatusRecord> = seq![];
    rows_go_on(s, records, 0, processes, foreground, now, s.status, rows, s.status, Set::empty());
    let all = status_rows(
        s,
        records,
        0,
        processes,
        foreground,
        now,
        seq![],
        s.status,
        Set::empty(),
    ).0;
    assert forall|n: int| 0 <= n < all.len() implies {
        &&& shows_state(#[trigger] all[n], s, foreground)
        &&& shows_count(all[n], processes)
        &&& shows_time(all[n], s, now, s.status)
        &&& exists|m: int|
            0 <= m < records.len() && (#[trigger] records[m]).uid == all[n].uid && is_shown(
                s,
                records[m],
                processes,
                foreground,
            )
    } by {
        assert(good_row(all[n], s, records, processes, foreground, now, s.status));
    }
}

/// The place of a state among the rows: the foreground, what waits, what runs, what is frozen.
pub open spec fn stands_ahead(a: ManagerFreezeStatusRecord, b: ManagerFreezeStatusRecord) -> bool {
    ||| a.state == b.state && a.uid <= b.uid
    ||| a.state == 1 && b.state != 1
    ||| a.state == 2 && (b.state == 0 || b.state == 3)
    ||| a.state == 0 && b.state == 3
}

/// Rows of states that are shown stand in this order.
pub proof fn rows_stand_in_order(rows: Seq<ManagerFreezeStatusRecord>, i: int, j: int)
    requires
        in_row_order(rows),
        0 <= i < j < rows.len(),
        0 <= rows[i].state <= 3,
        0 <= rows[j].state <= 3,
    ensures
        stands_ahead(rows[i], rows[j]),
{
    assert(row_order(rows[i], rows[j]));
}

/// What is kept about the times: of a uid that is not shown nothing, and of one that is shown
/// without a freeze that waits the state shown, since the time at which it was first shown.
pub proof fn times_are_kept_of_what_is_shown(
    s: ControlView,
    records: Seq<ManagerAppConfigRecord>,
    processes: Map<u32, Vec<RuntimeProcess>>,
    foreground: Seq<u32>,
    now: u128,
    uid: u32,
)
    requires
        s.pending.dom().finite(),
    ensures
        ({
            let (rows, status, visible) = status_rows(
                s,
                records,
                0,
                processes,
                foreground,
                now,
                seq![],
                s.status,
                Set::empty(),
            );
            let kept = at_listed(status, visible);
            &&& kept.contains_key(uid) ==> exists|n: int|
                0 <= n < rows.len() && (#[trigger] rows[n]).uid == uid
            &&& forall|n: int|
                0 <= n < rows.len() && (#[trigger] rows[n]).uid == uid && !waits(s, uid) ==> {
                    &&& kept.contains_key(uid)
                    &&& kept[uid] == (rows[n].state, if s.status.contains_key(uid)
                        && s.status[uid].0 == rows[n].state {
                        s.status[uid].1
                    } else {
                        now
                    })
                }
        }),
{
    let rows: Seq<ManagerFreezeStatusRecord> = seq![];
    rows_go_on(s, records, 0, processes, foreground, now, s.status, rows, s.status, Set::empty());
    times_go_on(
        s,
        records,
        0,
        processes,
        foreground,
        now,
        rows,
        s.status,
        Set::empty(),
        uid,
    );
}

spec fn time_kept(
    s: ControlView,
    foreground: Seq<u32>,
    now: u128,
    status: Map<u32, (i32, u128)>,
    uid: u32,
) -> bool {
    let state = display_state(
        foreground.contains(uid),
        uid_pending(s.pending, uid),
        uid_frozen(s.frozen, uid),
    );
    status.contains_key(uid) && status[uid] == (state, displayed_since(s.status, uid, state, now))
}

proof fn times_go_on(
    s: ControlView,
    records: Seq<ManagerAppConfigRecord>,
    k: int,
    processes: Map<u32, Vec<RuntimeProcess>>,
    foreground: Seq<u32>,
    now: u128,
    rows: Seq<ManagerFreezeStatusRecord>,
    status: Map<u32, (i32, u128)>,
    visible: Set<u32>,
    uid: u32,
)
    requires
        0 <= k <= records.len(),
        visible.contains(uid) && !uid_pending(s.pending, uid) ==> time_kept(
            s,
            foreground,
            now,
            status,
            uid,
        ),
        !visible.contains(uid) ==> status.contains_key(uid) == s.status.contains_key(uid) && (
        status.contains_key(uid) ==> status[uid] == s.status[uid]),
        forall|n: int| 0 <= n < rows.len() ==> visible.contains((#[trigger] rows[n]).uid),
        forall|n: int|
            0 <= n < rows.len() && (#[trigger] rows[n]).uid == uid ==> rows[n].state
                == display_state(
                foreground.contains(uid),
                uid_pending(s.pending, uid),
                uid_frozen(s.frozen, uid),
            ),
    ensures
        ({
            let (all, after, seen) = status_rows(
                s,
                records,
                k,
                processes,
                foreground,
                now,
                rows,
                status,
                visible,
            );
            &&& seen.contains(uid) && !uid_pending(s.pending, uid) ==> time_kept(
                s,
                foreground,
                now,
                after,
                uid,
            )
            &&& forall|n: int| 0 <= n < all.len() ==> seen.contains((#[trigger] all[n]).uid)
            &&& forall|n: int|
                0 <= n < all.len() && (#[trigger] all[n]).uid == uid ==> all[n].state
                    == display_state(
                    foreground.contains(uid),
                    uid_pending(s.pending, uid),
                    uid_frozen(s.frozen, uid),
                )
        }),
    decreases records.len() - k,
{
    if k < records.len() {
        let mine = records[k].uid;
        let count = process_count(processes, mine);
        if !crate::app::controller::rules::controls(records[k].mode) || !shown(
            s,
            count,
            foreground,
            mine,
        ) {
            times_go_on(
                s,
                records,
                k + 1,
                processes,
                foreground,
                now,
                rows,
                status,
                visible,
                uid,
            );
        } else {
            let due = choose|due: u128| earliest_due(s.pending, mine, due);
            let (row, status1) = status_row(s, mine, count, foreground, now, status, due);
            times_go_on(
                s,
                records,
                k + 1,
                processes,
                foreground,
                now,
                rows.push(row),
                status1,
                visible.insert(mine),
                uid,
            );
        }
    }
}

} // verus!
