//! What recovery after a restart does for the processes that an earlier daemon left behind.

use vstd::prelude::*;

use crate::app::controller::recovery::{
    all_recovered, count_of, process_recovered, RecoveryEffect, RecoveryView, Sight,
};
use crate::app::error::ErrorView;
use crate::domain::runtime::ProcessView;
use crate::sys::cgroup::FreezeState;
use crate::sys::procfs::SignalStopOwnership;

verus! {

/// A process is asked about.
pub open spec fn asks_about(e: RecoveryEffect, p: ProcessView) -> bool {
    e matches RecoveryEffect::Validate { process, .. } && process == p
}

/// A process is asked about, and it still is the one that was found.
pub open spec fn affirms(e: RecoveryEffect, p: ProcessView) -> bool {
    e matches RecoveryEffect::Validate { process, reply } && process == p && reply == Ok::<
        bool,
        ErrorView,
    >(true)
}

/// The cgroup of a process may be frozen: it has one, and it is not the case that a signal alone
/// holds the process and its cgroup was read as thawed.
pub open spec fn may_be_frozen(p: ProcessView, seen: Sight) -> bool {
    p.cgroup_freeze_path is Some && !(seen.0 == Some(SignalStopOwnership::SignalOnly) && seen.1
        == Some(FreezeState::Thawed))
}

/// From `i` to `j` a process is asked about; where it still is the same one, its cgroup is thawed
/// right then; and where it is the same one after that, its binder is.
pub open spec fn is_thawed(
    log: Seq<RecoveryEffect>,
    i: int,
    j: int,
    p: ProcessView,
    path: Seq<char>,
) -> bool {
    exists|a: int|
        {
            &&& i <= a < j
            &&& asks_about(#[trigger] log[a], p)
            &&& affirms(log[a], p) ==> {
                &&& a + 2 < j
                &&& log[a + 1] matches RecoveryEffect::ThawCgroup { path: t, .. } && t == path
                &&& asks_about(log[a + 2], p)
                &&& affirms(log[a + 2], p) ==> {
                    &&& a + 3 < j
                    &&& log[a + 3] matches RecoveryEffect::UnfreezeBinder { process, .. } && process
                        == p
                }
            }
        }
}

/// From `i` to `j` a process is continued, right after it was asked about.
pub open spec fn is_continued(log: Seq<RecoveryEffect>, i: int, j: int, p: ProcessView) -> bool {
    exists|a: int|
        {
            &&& i < a < j
            &&& #[trigger] log[a] matches RecoveryEffect::Resume { process, .. } && process == p
            &&& affirms(log[a - 1], p)
        }
}

/// From `i` to `j` a process is the same one whenever it is asked about.
pub open spec fn stays_the_same(log: Seq<RecoveryEffect>, i: int, j: int, p: ProcessView) -> bool {
    forall|a: int| i <= a < j && asks_about(#[trigger] log[a], p) ==> affirms(log[a], p)
}

/// A call acts on a process only right after the process was found to be the same one: a cgroup
/// is thawed that belongs to it, its binder is thawed, or it is continued, and continued only
/// where the ledger holds it.
pub open spec fn acts_on(
    e: RecoveryEffect,
    before: RecoveryEffect,
    p: ProcessView,
    seen: Sight,
) -> bool {
    match e {
        RecoveryEffect::Validate { process, .. } => process == p,
        RecoveryEffect::ThawCgroup { path, .. } => p.cgroup_freeze_path == Some(path) && affirms(
            before,
            p,
        ) && may_be_frozen(p, seen),
        RecoveryEffect::UnfreezeBinder { process, .. } => process == p && affirms(before, p)
            && may_be_frozen(p, seen),
        RecoveryEffect::Resume { process, .. } => process == p && affirms(before, p)
            && seen.0 is Some,
    }
}

/// How many cgroups were thawed from `i` to `j`.
pub open spec fn thaws_done(log: Seq<RecoveryEffect>, i: int, j: int) -> nat
    decreases j - i,
{
    if j <= i {
        0
    } else {
        thaws_done(log, i, j - 1) + (match log[j - 1] {
            RecoveryEffect::ThawCgroup { reply: Ok(_), .. } => 1nat,
            _ => 0nat,
        })
    }
}

/// How many processes were continued from `i` to `j`.
pub open spec fn resumes_done(log: Seq<RecoveryEffect>, i: int, j: int) -> nat
    decreases j - i,
{
    if j <= i {
        0
    } else {
        resumes_done(log, i, j - 1) + (match log[j - 1] {
            RecoveryEffect::Resume { reply: Ok(_), .. } => 1nat,
            _ => 0nat,
        })
    }
}

proof fn counts_add_up(log: Seq<RecoveryEffect>, i: int, j: int, k: int)
    requires
        i <= j <= k,
    ensures
        thaws_done(log, i, k) == thaws_done(log, i, j) + thaws_done(log, j, k),
        resumes_done(log, i, k) == resumes_done(log, i, j) + resumes_done(log, j, k),
    decreases k - j,
{
    if j < k {
        counts_add_up(log, i, j, k - 1);
    }
}

#[verifier::rlimit(60)]
#[verifier::spinoff_prover]
proof fn one_is_recovered(p: ProcessView, seen: Sight, log: Seq<RecoveryEffect>, i: int)
    requires
        i >= 0,
    ensures
        process_recovered(p, seen.0, seen.1, log, i) matches Some((j, out)) ==> {
            &&& i <= j
            &&& may_be_frozen(p, seen) ==> is_thawed(log, i, j, p, p.cgroup_freeze_path->0)
            &&& seen.0 is Some && stays_the_same(log, i, j, p) ==> is_continued(log, i, j, p)
            &&& forall|a: int|
                i <= a < j ==> acts_on(#[trigger] log[a], log[a - 1], p, seen) && (a == i
                    ==> log[a] is Validate)
            &&& thaws_done(log, i, j) == if out.cgroup_thawed { 1nat } else { 0nat }
            &&& resumes_done(log, i, j) == if out.signal_resumed { 1nat } else { 0nat }
        },
{
    reveal_with_fuel(thaws_done, 8);
    reveal_with_fuel(resumes_done, 8);
    if let Some((j, out)) = process_recovered(p, seen.0, seen.1, log, i) {
        assert(i <= j <= i + 6);
        if may_be_frozen(p, seen) {
            assert(asks_about(log[i], p));
        }
        if seen.0 is Some && stays_the_same(log, i, j, p) {
            assert(j >= i + 2 ==> log[j - 2] is Validate);
            if may_be_frozen(p, seen) {
                assert(asks_about(log[i], p));
                assert(asks_about(log[i + 2], p));
                assert(asks_about(log[i + 4], p));
                assert(log[i + 5] is Resume);
            } else {
                assert(asks_about(log[i], p));
                assert(log[i + 1] is Resume);
            }
        }
    }
}

/// What recovery must have done about a process with what was seen of it.
pub open spec fn is_taken_care_of(
    p: ProcessView,
    seen: Sight,
    log: Seq<RecoveryEffect>,
    i: int,
    j: int,
) -> bool {
    &&& may_be_frozen(p, seen) ==> is_thawed(log, i, j, p, p.cgroup_freeze_path->0)
    &&& seen.0 is Some && stays_the_same(log, i, j, p) ==> is_continued(log, i, j, p)
}

proof fn care_lasts(
    p: ProcessView,
    seen: Sight,
    log: Seq<RecoveryEffect>,
    i: int,
    a: int,
    b: int,
    j: int,
)
    requires
        i <= a <= b <= j,
        is_taken_care_of(p, seen, log, a, b),
    ensures
        is_taken_care_of(p, seen, log, i, j),
{
    if may_be_frozen(p, seen) {
        let path = p.cgroup_freeze_path->0;
        let k = choose|k: int|
            {
                &&& a <= k < b
                &&& asks_about(#[trigger] log[k], p)
                &&& affirms(log[k], p) ==> {
                    &&& k + 2 < b
                    &&& log[k + 1] matches RecoveryEffect::ThawCgroup { path: t, .. } && t == path
                    &&& asks_about(log[k + 2], p)
                    &&& affirms(log[k + 2], p) ==> {
                        &&& k + 3 < b
                        &&& log[k + 3] matches RecoveryEffect::UnfreezeBinder { process, .. }
                            && process == p
                    }
                }
            };
        assert(asks_about(log[k], p));
        assert(is_thawed(log, i, j, p, path));
    }
    if seen.0 is Some && stays_the_same(log, i, j, p) {
        assert(stays_the_same(log, a, b, p));
        let k = choose|k: int|
            {
                &&& a < k < b
                &&& #[trigger] log[k] matches RecoveryEffect::Resume { process, .. } && process == p
                &&& affirms(log[k - 1], p)
            };
        assert(log[k] is Resume);
        assert(is_continued(log, i, j, p));
    }
}

/// A call acts on one of the processes that were found.
pub open spec fn acts_on_one(
    ps: Seq<ProcessView>,
    seen: Seq<Sight>,
    n: int,
    e: RecoveryEffect,
    before: RecoveryEffect,
) -> bool {
    exists|m: int| 0 <= m < n && acts_on(e, before, #[trigger] ps[m], seen[m])
}

spec fn went_on(
    p: ProcessView,
    seen: Sight,
    log: Seq<RecoveryEffect>,
    j: int,
    end: int,
    outs: Seq<RecoveryView>,
    all: Seq<RecoveryView>,
) -> bool {
    &&& 0 <= j <= end
    &&& is_taken_care_of(p, seen, log, j, end)
    &&& forall|a: int| j <= a < end ==> acts_on(#[trigger] log[a], log[a - 1], p, seen)
    &&& if all == outs {
        thaws_done(log, j, end) == 0 && resumes_done(log, j, end) == 0
    } else {
        &&& all.len() > 0
        &&& all.drop_last() == outs
        &&& thaws_done(log, j, end) == if all.last().cgroup_thawed { 1nat } else { 0nat }
        &&& resumes_done(log, j, end) == if all.last().signal_resumed { 1nat } else { 0nat }
    }
}

proof fn the_last_goes_on(
    ps: Seq<ProcessView>,
    seen: Seq<Sight>,
    log: Seq<RecoveryEffect>,
    i: int,
    n: int,
)
    requires
        0 < n <= ps.len(),
        seen.len() == ps.len(),
        i >= 0,
        all_recovered(ps, seen, log, i, n - 1) matches Some((j, _)) ==> j >= i,
    ensures
        all_recovered(ps, seen, log, i, n) matches Some((end, all)) ==> (all_recovered(
            ps,
            seen,
            log,
            i,
            n - 1,
        ) matches Some((j, outs)) && went_on(ps[n - 1], seen[n - 1], log, j, end, outs, all)),
{
    if let Some((j, outs)) = all_recovered(ps, seen, log, i, n - 1) {
        one_is_recovered(ps[n - 1], seen[n - 1], log, j);
        if let Some((end, all)) = all_recovered(ps, seen, log, i, n) {
            if all.len() > outs.len() {
                assert(all.drop_last() =~= outs);
            }
        }
    }
}

/// Recovery takes care of every process that was found: a cgroup that may be frozen is thawed,
/// and the binder with it; a process that the ledger holds is continued. It acts on no other
/// process, and on none that is not the one that was found.
pub proof fn everything_found_is_taken_care_of(
    ps: Seq<ProcessView>,
    seen: Seq<Sight>,
    log: Seq<RecoveryEffect>,
    i: int,
    n: int,
)
    requires
        0 <= n <= ps.len(),
        seen.len() == ps.len(),
        i >= 0,
    ensures
        all_recovered(ps, seen, log, i, n) matches Some((j, outs)) ==> {
            &&& i <= j
            &&& forall|m: int|
                0 <= m < n ==> is_taken_care_of(#[trigger] ps[m], seen[m], log, i, j)
            &&& forall|a: int|
                i <= a < j ==> acts_on_one(ps, seen, n, #[trigger] log[a], log[a - 1])
        },
    decreases n,
{
    if n > 0 {
        everything_found_is_taken_care_of(ps, seen, log, i, n - 1);
        the_last_goes_on(ps, seen, log, i, n);
        if let Some((end, all)) = all_recovered(ps, seen, log, i, n) {
            let (j, outs) = all_recovered(ps, seen, log, i, n - 1)->0;
            care_adds_up(ps, seen, log, i, j, end, n, outs, all);
        }
    } else {
        assert(all_recovered(ps, seen, log, i, n) == Some((i, Seq::<RecoveryView>::empty())));
    }
}

proof fn care_adds_up(
    ps: Seq<ProcessView>,
    seen: Seq<Sight>,
    log: Seq<RecoveryEffect>,
    i: int,
    j: int,
    end: int,
    n: int,
    outs: Seq<RecoveryView>,
    all: Seq<RecoveryView>,
)
    requires
        0 < n <= ps.len(),
        i <= j,
        went_on(ps[n - 1], seen[n - 1], log, j, end, outs, all),
        forall|m: int|
            0 <= m < n - 1 ==> is_taken_care_of(#[trigger] ps[m], seen[m], log, i, j),
        forall|a: int|
            i <= a < j ==> acts_on_one(ps, seen, n - 1, #[trigger] log[a], log[a - 1]),
    ensures
        i <= end,
        forall|m: int| 0 <= m < n ==> is_taken_care_of(#[trigger] ps[m], seen[m], log, i, end),
        forall|a: int| i <= a < end ==> acts_on_one(ps, seen, n, #[trigger] log[a], log[a - 1]),
{
    assert forall|m: int| 0 <= m < n implies is_taken_care_of(
        #[trigger] ps[m],
        seen[m],
        log,
        i,
        end,
    ) by {
        if m < n - 1 {
            care_lasts(ps[m], seen[m], log, i, i, j, end);
        } else {
            care_lasts(ps[m], seen[m], log, i, j, end, end);
        }
    }
    assert forall|a: int| i <= a < end implies acts_on_one(
        ps,
        seen,
        n,
        #[trigger] log[a],
        log[a - 1],
    ) by {
        if a < j {
            assert(acts_on_one(ps, seen, n - 1, log[a], log[a - 1]));
            let m = choose|m: int|
                0 <= m < n - 1 && acts_on(log[a], log[a - 1], #[trigger] ps[m], seen[m]);
            assert(acts_on(log[a], log[a - 1], ps[m], seen[m]));
        } else {
            assert(acts_on(log[a], log[a - 1], ps[n - 1], seen[n - 1]));
        }
    }
}

/// What is reported of a recovery counts the cgroups that were thawed and the processes that were
/// continued.
pub proof fn outcomes_count_what_was_done(
    ps: Seq<ProcessView>,
    seen: Seq<Sight>,
    log: Seq<RecoveryEffect>,
    i: int,
    n: int,
)
    requires
        0 <= n <= ps.len(),
        seen.len() == ps.len(),
        i >= 0,
    ensures
        all_recovered(ps, seen, log, i, n) matches Some((j, outs)) ==> {
            &&& count_of(outs, |o: RecoveryView| o.cgroup_thawed) == thaws_done(log, i, j)
            &&& count_of(outs, |o: RecoveryView| o.signal_resumed) == resumes_done(log, i, j)
        },
    decreases n,
{
    if n > 0 {
        outcomes_count_what_was_done(ps, seen, log, i, n - 1);
        everything_found_is_taken_care_of(ps, seen, log, i, n - 1);
        the_last_goes_on(ps, seen, log, i, n);
        if let Some((end, all)) = all_recovered(ps, seen, log, i, n) {
            let (j, outs) = all_recovered(ps, seen, log, i, n - 1)->0;
            counts_go_on(ps[n - 1], seen[n - 1], log, i, j, end, outs, all);
        }
    } else {
        assert(all_recovered(ps, seen, log, i, n) == Some((i, Seq::<RecoveryView>::empty())));
    }
}

proof fn counts_go_on(
    p: ProcessView,
    seen: Sight,
    log: Seq<RecoveryEffect>,
    i: int,
    j: int,
    end: int,
    outs: Seq<RecoveryView>,
    all: Seq<RecoveryView>,
)
    requires
        i <= j,
        went_on(p, seen, log, j, end, outs, all),
        count_of(outs, |o: RecoveryView| o.cgroup_thawed) == thaws_done(log, i, j),
        count_of(outs, |o: RecoveryView| o.signal_resumed) == resumes_done(log, i, j),
    ensures
        count_of(all, |o: RecoveryView| o.cgroup_thawed) == thaws_done(log, i, end),
        count_of(all, |o: RecoveryView| o.signal_resumed) == resumes_done(log, i, end),
{
    counts_add_up(log, i, j, end);
}

} // verus!
