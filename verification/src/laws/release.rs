//! What becomes of frozen applications that are no longer to be controlled.

use vstd::prelude::*;

use crate::app::controller::entry::thaw_all;
use crate::app::controller::laws::thaw_each_is_careful;
use crate::app::controller::pass::{controlled, outside, pass_from, protected_step, PassInput};
use crate::app::controller::port::Effect;
use crate::app::controller::state::ControlView;
use crate::app::controller::thaw::{found, thaw_each, thaw_one};
use crate::app::controller::transaction::FrozenOwnership;
use crate::app::error::ErrorView;
use crate::domain::identity::{ordered, Ident, RuntimeIdentity};
use crate::domain::ordered::finite_set_has_order;
use crate::domain::runtime::ProcessView;
use crate::laws::transactions::{handed, is_mixed, thaw_was_tried, thaws_try_everything};
use crate::protocol::records::ManagerAppConfigRecord;

verus! {

/// From `i` to `j` the processes of an application are listed and, where that works and they are
/// all its own, each of them is thawed.
pub open spec fn is_released(
    s: ControlView,
    id: Ident,
    log: Seq<Effect>,
    i: int,
    j: int,
) -> bool {
    let signal = s.ownership.contains_key(id) && s.ownership[id] == FrozenOwnership::SignalOnly;
    exists|a: int|
        {
            &&& i <= a < j
            &&& #[trigger] log[a] matches Effect::Discover { uid, reply, .. } && uid == id.1 && (
            reply matches Ok(ps) ==> !is_mixed(id.0, ps) ==> forall|m: int|
                0 <= m < ps.len() ==> thaw_was_tried(
                    log,
                    a + 1,
                    j,
                    handed(ps[m], signal),
                    #[trigger] ps[m],
                    signal,
                ))
        }
}

proof fn released_lasts(s: ControlView, id: Ident, log: Seq<Effect>, i: int, a: int, b: int, j: int)
    requires
        i <= a,
        b <= j,
        is_released(s, id, log, a, b),
    ensures
        is_released(s, id, log, i, j),
{
    let signal = s.ownership.contains_key(id) && s.ownership[id] == FrozenOwnership::SignalOnly;
    let k = choose|k: int|
        {
            &&& a <= k < b
            &&& #[trigger] log[k] matches Effect::Discover { uid, reply, .. } && uid == id.1 && (
            reply matches Ok(ps) ==> !is_mixed(id.0, ps) ==> forall|m: int|
                0 <= m < ps.len() ==> thaw_was_tried(
                    log,
                    k + 1,
                    b,
                    handed(ps[m], signal),
                    #[trigger] ps[m],
                    signal,
                ))
        };
    assert(log[k] is Discover);
    if let Effect::Discover { uid, reply, .. } = log[k] {
        if let Ok(ps) = reply {
            if !is_mixed(id.0, ps) {
                assert forall|m: int| 0 <= m < ps.len() implies thaw_was_tried(
                    log,
                    k + 1,
                    j,
                    handed(ps[m], signal),
                    #[trigger] ps[m],
                    signal,
                ) by {
                    crate::laws::transactions::tried_lasts(
                        log,
                        k + 1,
                        k + 1,
                        b,
                        j,
                        handed(ps[m], signal),
                        ps[m],
                        signal,
                    );
                }
            }
        }
    }
}

proof fn one_is_released(
    s: ControlView,
    id: Ident,
    reason: Seq<char>,
    at: u128,
    log: Seq<Effect>,
    i: int,
)
    ensures
        thaw_one(s, id, reason, at, log, i) matches Some((j, after, failures)) ==> i < j
            && is_released(s, id, log, i, j),
{
    if let Some((j, after, failures)) = thaw_one(s, id, reason, at, log, i) {
        let reply = found(log, i, id.1)->0;
        let own = crate::app::controller::state::owner(s, id);
        assert(log[i] is Discover);
        if let Ok(ps) = reply {
            if ps.len() > 0 {
                thaws_try_everything(id.0, ps, own, log, i + 1);
                crate::app::controller::laws::thaws_are_careful(id.0, ps, own, log, i + 1);
            }
        }
        release_starts_here(s, id, log, i, j, reply);
    }
}

proof fn release_starts_here(
    s: ControlView,
    id: Ident,
    log: Seq<Effect>,
    i: int,
    j: int,
    reply: Result<Seq<ProcessView>, ErrorView>,
)
    requires
        i < j,
        found(log, i, id.1) == Some(reply),
        reply matches Ok(ps) ==> ps.len() > 0 && !is_mixed(id.0, ps) ==> forall|m: int|
            0 <= m < ps.len() ==> thaw_was_tried(
                log,
                i + 1,
                j,
                handed(
                    ps[m],
                    crate::app::controller::state::owner(s, id) == FrozenOwnership::SignalOnly,
                ),
                #[trigger] ps[m],
                crate::app::controller::state::owner(s, id) == FrozenOwnership::SignalOnly,
            ),
    ensures
        is_released(s, id, log, i, j),
{
    assert(log[i] is Discover);
}

proof fn one_is_forgotten(
    s: ControlView,
    id: Ident,
    reason: Seq<char>,
    at: u128,
    log: Seq<Effect>,
    i: int,
)
    ensures
        thaw_one(s, id, reason, at, log, i) matches Some((j, after, failures)) ==> {
            &&& failures.len() > 0 ==> after.frozen == s.frozen
            &&& failures.len() == 0 ==> after.frozen == s.frozen.remove(id)
            &&& forall|other: Ident|
                other != id ==> #[trigger] after.ownership.contains_key(other)
                    == s.ownership.contains_key(other) && (s.ownership.contains_key(other)
                    ==> after.ownership[other] == s.ownership[other])
        },
{
}

/// For each of the applications from the `k`-th on: it is released, and it stays frozen only where
/// something failed.
#[verifier::rlimit(40)]
proof fn each_is_released(
    s: ControlView,
    ids: Seq<Ident>,
    k: int,
    reason: Seq<char>,
    at: u128,
    log: Seq<Effect>,
    i: int,
    failures: Seq<Seq<char>>,
    m: int,
)
    requires
        0 <= k <= m < ids.len(),
        forall|a: int, b: int| 0 <= a < b < ids.len() ==> ids[a] != ids[b],
    ensures
        thaw_each(s, ids, k, reason, at, log, i, failures) matches Some((j, after, all)) ==> {
            &&& i <= j
            &&& is_released(s, ids[m], log, i, j)
            &&& after.frozen.contains(ids[m]) && s.frozen.contains(ids[m]) ==> all.len()
                > failures.len()
            &&& all.len() >= failures.len()
        },
    decreases ids.len() - k,
{
    one_is_released(s, ids[k], reason, at, log, i);
    one_is_forgotten(s, ids[k], reason, at, log, i);
    if let Some((j, s1, more)) = thaw_one(s, ids[k], reason, at, log, i) {
        thaw_each_is_careful(s1, ids, k + 1, reason, at, log, j, failures + more);
        failures_only_grow(s1, ids, k + 1, reason, at, log, j, failures + more);
        if k < m {
            each_is_released(s1, ids, k + 1, reason, at, log, j, failures + more, m);
            if let Some((end, after, all)) = thaw_each(
                s1,
                ids,
                k + 1,
                reason,
                at,
                log,
                j,
                failures + more,
            ) {
                assert(ids[k] != ids[m]);
                assert(s1.ownership.contains_key(ids[m]) == s.ownership.contains_key(ids[m]));
                same_owner_same_release(s, s1, ids[m], log, j, end);
                released_lasts(s, ids[m], log, i, j, end, end);
                if after.frozen.contains(ids[m]) && s.frozen.contains(ids[m]) {
                    assert(s1.frozen.contains(ids[m]));
                }
            }
        } else {
            if let Some((end, after, all)) = thaw_each(
                s1,
                ids,
                k + 1,
                reason,
                at,
                log,
                j,
                failures + more,
            ) {
                released_lasts(s, ids[m], log, i, i, j, end);
                crate::laws::waiting::thawing_adds_nothing(
                    s1,
                    ids,
                    k + 1,
                    reason,
                    at,
                    log,
                    j,
                    failures + more,
                    ids[m].1,
                );
            }
        }
    }
}

proof fn same_owner_same_release(
    s: ControlView,
    s1: ControlView,
    id: Ident,
    log: Seq<Effect>,
    i: int,
    j: int,
)
    requires
        s1.ownership.contains_key(id) == s.ownership.contains_key(id),
        s.ownership.contains_key(id) ==> s1.ownership[id] == s.ownership[id],
        is_released(s1, id, log, i, j),
    ensures
        is_released(s, id, log, i, j),
{
}

proof fn failures_only_grow(
    s: ControlView,
    ids: Seq<Ident>,
    k: int,
    reason: Seq<char>,
    at: u128,
    log: Seq<Effect>,
    i: int,
    failures: Seq<Seq<char>>,
)
    ensures
        thaw_each(s, ids, k, reason, at, log, i, failures) matches Some((_, _, all)) ==> all.len()
            >= failures.len(),
    decreases ids.len() - k,
{
    if 0 <= k < ids.len() {
        if let Some((j, s1, more)) = thaw_one(s, ids[k], reason, at, log, i) {
            failures_only_grow(s1, ids, k + 1, reason, at, log, j, failures + more);
        }
    }
}

proof fn ordered_holds(set: Set<Ident>, id: Ident) -> (m: int)
    requires
        set.finite(),
        set.contains(id),
    ensures
        0 <= m < ordered(set).len(),
        ordered(set)[m] == id,
        forall|a: int, b: int|
            0 <= a < b < ordered(set).len() ==> ordered(set)[a] != ordered(set)[b],
{
    finite_set_has_order::<RuntimeIdentity>(set);
    assert(ordered(set).to_set().contains(id));
    assert forall|a: int, b: int| 0 <= a < b < ordered(set).len() implies ordered(set)[a]
        != ordered(set)[b] by {
        crate::domain::ordered::ascending_has_no_repeats::<RuntimeIdentity>(ordered(set), a, b);
    }
    choose|m: int| 0 <= m < ordered(set).len() && ordered(set)[m] == id
}

/// Where control is switched off, every frozen application is released. If no error comes back,
/// nothing is frozen any more; and nothing waits to be frozen or restricted in any case.
pub proof fn switching_off_releases_everything(
    s: ControlView,
    at: u128,
    log: Seq<Effect>,
    i: int,
    id: Ident,
)
    requires
        s.frozen.finite(),
        s.frozen.contains(id),
    ensures
        thaw_all(s, at, log, i) matches Some((j, after, r)) ==> {
            &&& is_released(s, id, log, i, j)
            &&& r is Ok ==> !after.frozen.contains(id)
            &&& after.pending.dom() == Set::<Ident>::empty()
            &&& after.network == Set::<u32>::empty()
        },
{
    let m = ordered_holds(s.frozen, id);
    each_is_released(
        s,
        ordered(s.frozen),
        0,
        "control disabled"@,
        at,
        log,
        i,
        seq![],
        m,
    );
    if let Some((j, after, r)) = thaw_all(s, at, log, i) {
        assert(after.pending.dom() =~= Set::<Ident>::empty());
    }
}

/// A record of the uid has one of the modes under which applications are controlled.
pub open spec fn has_control(records: Seq<ManagerAppConfigRecord>, uid: u32) -> bool {
    exists|m: int|
        0 <= m < records.len() && (#[trigger] records[m]).uid == uid && (records[m].mode == 10
            || records[m].mode == 20 || records[m].mode == 21 || records[m].mode == 30
            || records[m].mode == 31)
}

/// A pass releases every frozen application that no record controls any more.
pub proof fn passes_release_what_is_not_controlled(
    s: ControlView,
    records: Seq<ManagerAppConfigRecord>,
    input: PassInput,
    log: Seq<Effect>,
    i: int,
    id: Ident,
)
    requires
        s.frozen.finite(),
        s.frozen.contains(id),
        !has_control(records, id.1),
    ensures
        pass_from(s, records, input, log, i) matches Some((j, _, _)) ==> is_released(
            s,
            id,
            log,
            i,
            j,
        ),
{
    let uids = controlled(records);
    assert(!uids.contains(id.1)) by {
        if uids.contains(id.1) {
            let m = choose|m: int|
                0 <= m < records.len() && crate::app::controller::rules::controls(
                    (#[trigger] records[m]).mode,
                ) && records[m].uid == id.1;
            assert(records[m].uid == id.1);
        }
    }
    let set = s.frozen.intersect(outside(uids));
    let s0 = crate::app::controller::pass::retired(s, uids);
    let reason = "control policy removed"@;
    let m = ordered_holds(set, id);
    each_is_released(s0, ordered(set), 0, reason, input.at, log, i, seq![], m);
    if let Some((j, s1, _)) = thaw_each(s0, ordered(set), 0, reason, input.at, log, i, seq![]) {
        let (s2, audit_due) = crate::app::controller::rules::audit(
            crate::app::controller::state::without_detached(s1, outside(uids)),
            input.settings,
            input.at,
        );
        crate::app::controller::laws::records_are_handled_carefully(
            s2,
            records,
            0,
            audit_due,
            input,
            log,
            j,
        );
        same_owner_same_release(s, s0, id, log, i, j);
        if let Some((end, _, _)) = pass_from(s, records, input, log, i) {
            released_lasts(s, id, log, i, i, j, end);
        }
    }
}

/// A protected application is released where it is frozen, and nothing is kept that would control
/// it later.
pub proof fn protected_applications_are_released(
    s: ControlView,
    uid: u32,
    at: u128,
    log: Seq<Effect>,
    i: int,
    id: Ident,
)
    requires
        s.frozen.finite(),
        s.frozen.contains(id),
        id.1 == uid,
    ensures
        protected_step(s, uid, at, log, i) matches Some((j, after)) ==> {
            &&& is_released(s, id, log, i, j)
            &&& !after.pending.contains_key(id)
            &&& !after.network.contains(uid)
            &&& !after.blocked.contains_key(id)
        },
{
    let s1 = crate::app::controller::state::transient_cleared(s, uid);
    let set = s1.frozen.intersect(crate::app::controller::pass::of_uid(uid));
    let reason = "policy or protected package blocks control"@;
    let m = ordered_holds(set, id);
    each_is_released(s1, ordered(set), 0, reason, at, log, i, seq![], m);
    crate::laws::waiting::thawing_adds_nothing(
        s1,
        ordered(set),
        0,
        reason,
        at,
        log,
        i,
        seq![],
        uid,
    );
    thawing_keeps_the_rest(s1, ordered(set), 0, reason, at, log, i, seq![]);
    if let Some((j, s2, _)) = thaw_each(s1, ordered(set), 0, reason, at, log, i, seq![]) {
        same_owner_same_release(s, s1, id, log, i, j);
    }
}

proof fn thawing_keeps_the_rest(
    s: ControlView,
    ids: Seq<Ident>,
    k: int,
    reason: Seq<char>,
    at: u128,
    log: Seq<Effect>,
    i: int,
    failures: Seq<Seq<char>>,
)
    ensures
        thaw_each(s, ids, k, reason, at, log, i, failures) matches Some((_, after, _))
            ==> after.network == s.network && after.blocked == s.blocked,
    decreases ids.len() - k,
{
    if 0 <= k < ids.len() {
        if let Some((j, s1, more)) = thaw_one(s, ids[k], reason, at, log, i) {
            thawing_keeps_the_rest(s1, ids, k + 1, reason, at, log, j, failures + more);
        }
    }
}

} // verus!
