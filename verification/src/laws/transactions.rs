//! What freezing, killing and thawing the processes of an application does to each of them.

use vstd::prelude::*;

use crate::app::controller::port::Effect;
use crate::app::controller::transaction::{
    freeze_transaction, freezing, has_stranger, kill_transaction, killing, prechecked, promoting,
    rolling_back, stop_transaction, thaw_identity, thawing, validated, FrozenOwnership,
    SignalStopLedgerPromotion, ThawView,
};
use crate::app::error::ErrorView;
use crate::domain::runtime::ProcessView;

verus! {

/// A process as it is handed to a freezer: without its cgroup, where only signals are meant.
pub open spec fn handed(p: ProcessView, signal: bool) -> ProcessView {
    if signal {
        ProcessView { cgroup_freeze_path: None, ..p }
    } else {
        p
    }
}

/// A call that asks whether a process still is the same one, and the answer is yes.
pub open spec fn is_same(e: Effect, p: ProcessView) -> bool {
    e matches Effect::Validate { process, reply } && process == p && reply == Ok::<bool, ErrorView>(
        true,
    )
}

/// A process was frozen between `i` and `j`, right after it was found to be the same one.
pub open spec fn was_frozen(
    log: Seq<Effect>,
    i: int,
    j: int,
    p: ProcessView,
    signal: bool,
) -> bool {
    exists|a: int|
        {
            &&& i < a < j
            &&& #[trigger] log[a] matches Effect::Freeze { process, reply } && process == handed(
                p,
                signal,
            ) && reply is Ok
            &&& is_same(log[a - 1], p)
        }
}

/// A process was killed between `i` and `j`, right after it was found to be the same one.
pub open spec fn was_killed(log: Seq<Effect>, i: int, j: int, p: ProcessView) -> bool {
    exists|a: int|
        {
            &&& i < a < j
            &&& #[trigger] log[a] matches Effect::Terminate { process, reply } && process == p
                && reply is Ok
            &&& is_same(log[a - 1], p)
        }
}

/// Between `i` and `j` it was asked whether a process still is the same one and, where it is, the
/// process was thawed right then.
pub open spec fn thaw_was_tried(
    log: Seq<Effect>,
    i: int,
    j: int,
    asked: ProcessView,
    p: ProcessView,
    signal: bool,
) -> bool {
    exists|a: int|
        {
            &&& i <= a < j
            &&& #[trigger] log[a] matches Effect::Validate { process, .. } && process == asked
            &&& is_same(log[a], asked) ==> a + 1 < j && (log[a + 1] matches Effect::Unfreeze {
                process,
                ..
            } && process == handed(p, signal))
        }
}

proof fn frozen_lasts(
    log: Seq<Effect>,
    i: int,
    a: int,
    b: int,
    j: int,
    p: ProcessView,
    signal: bool,
)
    requires
        i <= a,
        b <= j,
        was_frozen(log, a, b, p, signal),
    ensures
        was_frozen(log, i, j, p, signal),
{
    let k = choose|k: int|
        {
            &&& a < k < b
            &&& #[trigger] log[k] matches Effect::Freeze { process, reply } && process == handed(
                p,
                signal,
            ) && reply is Ok
            &&& is_same(log[k - 1], p)
        };
    assert(log[k] is Freeze);
}

proof fn killed_lasts(log: Seq<Effect>, i: int, a: int, b: int, j: int, p: ProcessView)
    requires
        i <= a,
        b <= j,
        was_killed(log, a, b, p),
    ensures
        was_killed(log, i, j, p),
{
    let k = choose|k: int|
        {
            &&& a < k < b
            &&& #[trigger] log[k] matches Effect::Terminate { process, reply } && process == p
                && reply is Ok
            &&& is_same(log[k - 1], p)
        };
    assert(log[k] is Terminate);
}

/// What was tried in a part of the calls was tried in all of them.
pub proof fn tried_lasts(
    log: Seq<Effect>,
    i: int,
    a: int,
    b: int,
    j: int,
    asked: ProcessView,
    p: ProcessView,
    signal: bool,
)
    requires
        i <= a,
        b <= j,
        thaw_was_tried(log, a, b, asked, p, signal),
    ensures
        thaw_was_tried(log, i, j, asked, p, signal),
{
    let k = choose|k: int|
        {
            &&& a <= k < b
            &&& #[trigger] log[k] matches Effect::Validate { process, .. } && process == asked
            &&& is_same(log[k], asked) ==> k + 1 < b && (log[k + 1] matches Effect::Unfreeze {
                process,
                ..
            } && process == handed(p, signal))
        };
    assert(log[k] is Validate);
}

/// All processes belong to the package of the first one.
pub open spec fn one_package(ps: Seq<ProcessView>) -> bool {
    forall|m: int| 0 <= m < ps.len() ==> (#[trigger] ps[m]).package_name == ps[0].package_name
}

/// Between `i` and `j` every answer and every freeze and kill was favorable.
pub open spec fn all_went_well(log: Seq<Effect>, i: int, j: int) -> bool {
    forall|a: int|
        i <= a < j ==> match #[trigger] log[a] {
            Effect::Validate { reply, .. } => reply == Ok::<bool, ErrorView>(true),
            Effect::Freeze { reply, .. } => reply is Ok,
            Effect::Terminate { reply, .. } => reply is Ok,
            _ => true,
        }
}

/// Between `i` and `j` nothing was frozen or killed.
pub open spec fn nothing_forced(log: Seq<Effect>, i: int, j: int) -> bool {
    forall|a: int|
        i <= a < j ==> !((#[trigger] log[a]) is Freeze) && !(log[a] is Terminate)
}

proof fn checks(ps: Seq<ProcessView>, k: int, head: Seq<char>, log: Seq<Effect>, i: int)
    requires
        0 <= k <= ps.len(),
    ensures
        prechecked(ps, k, head, log, i) matches Some((j, failure)) ==> {
            &&& i <= j <= log.len() || j == i
            &&& nothing_forced(log, i, j)
            &&& failure is None ==> all_went_well(log, i, j) && (forall|m: int|
                k <= m < ps.len() ==> (#[trigger] ps[m]).package_name == ps[0].package_name)
            &&& failure is Some ==> !all_went_well(log, i, j) || !one_package(ps)
            &&& k < ps.len() && ps[k].package_name == ps[0].package_name ==> j > i
        },
    decreases ps.len() - k,
{
    if k < ps.len() {
        checks(ps, k + 1, head, log, i + 1);
    }
}

proof fn freezes_each(ps: Seq<ProcessView>, k: int, signal: bool, log: Seq<Effect>, i: int)
    requires
        0 <= k <= ps.len(),
    ensures
        freezing(ps, k, signal, log, i) matches Some((j, n, failure)) ==> {
            &&& i <= j
            &&& k <= n <= ps.len()
            &&& forall|m: int|
                k <= m < n ==> was_frozen(log, i, j, #[trigger] ps[m], signal)
            &&& failure is None ==> n == ps.len() && all_went_well(log, i, j)
            &&& failure is Some ==> !all_went_well(log, i, j)
        },
    decreases ps.len() - k,
{
    if k < ps.len() {
        freezes_each(ps, k + 1, signal, log, i + 2);
        if let Some((j, n, failure)) = freezing(ps, k, signal, log, i) {
            assert forall|m: int| k <= m < n implies was_frozen(
                log,
                i,
                j,
                #[trigger] ps[m],
                signal,
            ) by {
                if m == k {
                    assert(log[i + 1] is Freeze);
                } else {
                    frozen_lasts(log, i, i + 2, j, j, ps[m], signal);
                }
            }
            if failure is Some && n > k {
                assert(!all_went_well(log, i + 2, j));
            }
            if failure is Some && n == k {
                assert(!all_went_well(log, i, j)) by {
                    if j == i + 2 {
                        assert(log[i + 1] is Freeze);
                    } else if j == i + 1 {
                        assert(log[i] is Validate);
                    } else {
                        assert(!all_went_well(log, i + 2, j));
                    }
                }
            }
        }
    }
}

#[verifier::rlimit(40)]
#[verifier::spinoff_prover]
proof fn undoes_each(
    ps: Seq<ProcessView>,
    k: int,
    signal: bool,
    log: Seq<Effect>,
    i: int,
    back: nat,
    failed: nat,
)
    requires
        0 <= k <= ps.len(),
    ensures
        rolling_back(ps, k, signal, log, i, back, failed) matches Some((j, _, _)) ==> {
            &&& i <= j
            &&& forall|m: int|
                0 <= m < k ==> thaw_was_tried(log, i, j, ps[m], #[trigger] ps[m], signal)
        },
    decreases k,
{
    if k > 0 {
        if let Some((j, _, _)) = rolling_back(ps, k, signal, log, i, back, failed) {
            let reply = validated(log, i, ps[k - 1])->0;
            let target = crate::app::controller::transaction::control_target(ps[k - 1], signal);
            let (next, back1, failed1) = if reply != Ok::<bool, ErrorView>(true) {
                (i + 1, back, failed + 1)
            } else if crate::app::controller::transaction::thawed(log, i + 1, target)->0 is Ok {
                (i + 2, back + 1, failed)
            } else {
                (i + 2, back, failed + 1)
            };
            assert(rolling_back(ps, k, signal, log, i, back, failed) == rolling_back(
                ps,
                k - 1,
                signal,
                log,
                next,
                back1,
                failed1,
            ));
            undoes_each(ps, k - 1, signal, log, next, back1, failed1);
            assert(thaw_was_tried(log, i, j, ps[k - 1], ps[k - 1], signal)) by {
                assert(log[i] is Validate);
            }
            assert forall|m: int| 0 <= m < k implies thaw_was_tried(
                log,
                i,
                j,
                ps[m],
                #[trigger] ps[m],
                signal,
            ) by {
                if m < k - 1 {
                    tried_lasts(log, i, next, j, j, ps[m], ps[m], signal);
                }
            }
        }
    }
}

/// A freeze either freezes every process, or says that it failed and thaws again each one that it
/// froze. It succeeds exactly where all processes are of one package and every call went well;
/// where it may have left something frozen, it says so.
pub proof fn freezes_are_all_or_nothing(
    ps: Seq<ProcessView>,
    signal: bool,
    log: Seq<Effect>,
    i: int,
)
    ensures
        freeze_transaction(ps, signal, log, i) matches Some((j, out)) ==> {
            &&& i <= j
            &&& out.failure is None ==> {
                &&& one_package(ps)
                &&& all_went_well(log, i, j)
                &&& forall|m: int|
                    0 <= m < ps.len() ==> was_frozen(log, i, j, #[trigger] ps[m], signal)
            }
            &&& out.failure is Some ==> {
                &&& !one_package(ps) || !all_went_well(log, i, j)
                &&& out.residual_possible || nothing_forced(log, i, j)
                &&& 0 <= out.applied <= ps.len()
                &&& forall|m: int|
                    0 <= m < out.applied ==> was_frozen(log, i, j, #[trigger] ps[m], signal)
                        && thaw_was_tried(log, i, j, ps[m], ps[m], signal)
            }
        },
{
    let head = "identity validation failed"@;
    checks(ps, 0, head, log, i);
    if let Some((j, None)) = prechecked(ps, 0, head, log, i) {
        freezes_each(ps, 0, signal, log, j);
        assert(one_package(ps));
        if let Some((j2, n, failure)) = freezing(ps, 0, signal, log, j) {
            if failure is Some {
                undoes_each(ps, n, signal, log, j2, 0, 0);
                if let Some((j3, _, _)) = rolling_back(ps, n, signal, log, j2, 0, 0) {
                    assert forall|m: int| 0 <= m < n implies was_frozen(
                        log,
                        i,
                        j3,
                        #[trigger] ps[m],
                        signal,
                    ) && thaw_was_tried(log, i, j3, ps[m], ps[m], signal) by {
                        frozen_lasts(log, i, j, j2, j3, ps[m], signal);
                        tried_lasts(log, i, j2, j3, j3, ps[m], ps[m], signal);
                    }
                    assert(!all_went_well(log, i, j3));
                }
            } else {
                assert forall|m: int| 0 <= m < n implies was_frozen(
                    log,
                    i,
                    j2,
                    #[trigger] ps[m],
                    signal,
                ) by {
                    frozen_lasts(log, i, j, j2, j2, ps[m], signal);
                }
            }
        }
    }
}

proof fn kills_each(ps: Seq<ProcessView>, k: int, log: Seq<Effect>, i: int)
    requires
        0 <= k <= ps.len(),
    ensures
        killing(ps, k, log, i) matches Some((j, out)) ==> {
            &&& i <= j
            &&& k <= out.applied <= ps.len()
            &&& forall|m: int| k <= m < out.applied ==> was_killed(log, i, j, #[trigger] ps[m])
            &&& out.failure is None ==> out.applied == ps.len() && all_went_well(log, i, j)
            &&& out.failure is Some ==> !all_went_well(log, i, j)
        },
    decreases ps.len() - k,
{
    if k < ps.len() {
        kills_each(ps, k + 1, log, i + 2);
        if let Some((j, out)) = killing(ps, k, log, i) {
            assert forall|m: int| k <= m < out.applied implies was_killed(
                log,
                i,
                j,
                #[trigger] ps[m],
            ) by {
                if m == k {
                    assert(log[i + 1] is Terminate);
                } else {
                    killed_lasts(log, i, i + 2, j, j, ps[m]);
                }
            }
            if out.failure is Some {
                if j == i + 2 {
                    assert(log[i + 1] is Terminate);
                } else if j == i + 1 {
                    assert(log[i] is Validate);
                } else {
                    assert(!all_went_well(log, i + 2, j));
                }
            }
        }
    }
}

/// A kill kills every process, or says that it failed. It succeeds exactly where all processes
/// are of one package and every call went well.
pub proof fn kills_are_complete_or_fail(ps: Seq<ProcessView>, log: Seq<Effect>, i: int)
    ensures
        kill_transaction(ps, log, i) matches Some((j, out)) ==> {
            &&& i <= j
            &&& out.applied <= ps.len()
            &&& forall|m: int| 0 <= m < out.applied ==> was_killed(log, i, j, #[trigger] ps[m])
            &&& out.failure is None ==> out.applied == ps.len() && one_package(ps)
                && all_went_well(log, i, j)
            &&& out.failure is Some ==> !one_package(ps) || !all_went_well(log, i, j)
        },
{
    let head = "identity validation failed before SIGKILL"@;
    checks(ps, 0, head, log, i);
    if let Some((j, None)) = prechecked(ps, 0, head, log, i) {
        kills_each(ps, 0, log, j);
        assert(one_package(ps));
        if let Some((j2, out)) = killing(ps, 0, log, j) {
            assert forall|m: int| 0 <= m < out.applied implies was_killed(
                log,
                i,
                j2,
                #[trigger] ps[m],
            ) by {
                killed_lasts(log, i, j, j2, j2, ps[m]);
            }
        }
    }
}

/// How many processes were thawed between `i` and `j`.
pub open spec fn thaws_done(log: Seq<Effect>, i: int, j: int) -> nat
    decreases j - i,
{
    if j <= i {
        0
    } else {
        thaws_done(log, i, j - 1) + (match log[j - 1] {
            Effect::Unfreeze { reply: Ok(_), .. } => 1nat,
            _ => 0nat,
        })
    }
}

proof fn thaws_add_up(log: Seq<Effect>, i: int, j: int, k: int)
    requires
        i <= j <= k,
    ensures
        thaws_done(log, i, k) == thaws_done(log, i, j) + thaws_done(log, j, k),
    decreases k - j,
{
    if j < k {
        thaws_add_up(log, i, j, k - 1);
    }
}

proof fn thaws_each(
    ps: Seq<ProcessView>,
    k: int,
    signal: bool,
    log: Seq<Effect>,
    i: int,
    out: ThawView,
)
    requires
        0 <= k <= ps.len(),
    ensures
        thawing(ps, k, signal, log, i, out) matches Some((j, end)) ==> {
            &&& i <= j
            &&& forall|m: int|
                k <= m < ps.len() ==> thaw_was_tried(
                    log,
                    i,
                    j,
                    handed(ps[m], signal),
                    #[trigger] ps[m],
                    signal,
                )
            &&& end.applied + end.failures.len() == out.applied + out.failures.len() + (ps.len()
                - k)
            &&& end.applied == out.applied + thaws_done(log, i, j)
        },
    decreases ps.len() - k,
{
    if k < ps.len() {
        let target = crate::app::controller::transaction::control_target(ps[k], signal);
        assert(target == handed(ps[k], signal));
        if let Some((j, end)) = thawing(ps, k, signal, log, i, out) {
            let reply = validated(log, i, target)->0;
            let failure = crate::app::controller::transaction::validation_failure(
                "identity validation failed before unfreeze"@,
                target,
                reply,
            );
            let (next, out1) = if failure is Some {
                (i + 1, ThawView { failures: out.failures.push(failure->0), ..out })
            } else {
                match crate::app::controller::transaction::thawed(log, i + 1, target)->0 {
                    Ok(_) => (i + 2, ThawView { applied: out.applied + 1, ..out }),
                    Err(e) => (
                        i + 2,
                        ThawView {
                            failures: out.failures.push(
                                crate::app::controller::transaction::about_pid(
                                    "unfreeze failed"@,
                                    target.pid,
                                    Some(e),
                                ),
                            ),
                            ..out
                        },
                    ),
                }
            };
            assert(thawing(ps, k, signal, log, i, out) == thawing(
                ps,
                k + 1,
                signal,
                log,
                next,
                out1,
            ));
            thaws_each(ps, k + 1, signal, log, next, out1);
            thaws_add_up(log, i, next, j);
            assert(out1.applied == out.applied + thaws_done(log, i, next)) by {
                reveal_with_fuel(thaws_done, 3);
            }
            assert forall|m: int| k <= m < ps.len() implies thaw_was_tried(
                log,
                i,
                j,
                handed(ps[m], signal),
                #[trigger] ps[m],
                signal,
            ) by {
                if m == k {
                    assert(log[i] is Validate);
                } else {
                    tried_lasts(log, i, next, j, j, handed(ps[m], signal), ps[m], signal);
                }
            }
        }
    }
}

/// A process of another package runs among these.
pub open spec fn is_mixed(package: Seq<char>, ps: Seq<ProcessView>) -> bool {
    exists|m: int| 0 <= m < ps.len() && (#[trigger] ps[m]).package_name != package
}

/// A thaw of an application tries every one of its processes, by signal alone where a signal
/// alone holds it, and counts each of them as thawed or as a failure. It makes no call where a
/// process of another package runs under the uid, and says so.
pub proof fn thaws_try_everything(
    package: Seq<char>,
    ps: Seq<ProcessView>,
    ownership: FrozenOwnership,
    log: Seq<Effect>,
    i: int,
)
    ensures
        thaw_identity(package, ps, ownership, log, i) matches Some((j, out)) ==> {
            let signal = ownership == FrozenOwnership::SignalOnly;
            &&& is_mixed(package, ps) ==> j == i && out.applied == 0 && out.failures.len() > 0
            &&& !is_mixed(package, ps) ==> {
                &&& forall|m: int|
                    0 <= m < ps.len() ==> thaw_was_tried(
                        log,
                        i,
                        j,
                        handed(ps[m], signal),
                        #[trigger] ps[m],
                        signal,
                    )
                &&& out.applied + out.failures.len() == ps.len()
                &&& out.applied == thaws_done(log, i, j)
            }
        },
{
    assert(has_stranger(package, ps) == is_mixed(package, ps));
    thaws_each(
        ps,
        0,
        ownership == FrozenOwnership::SignalOnly,
        log,
        i,
        ThawView { applied: 0, failures: seq![] },
    );
}

/// A process was noted in the ledger between `i` and `j` as held by the signal alone.
pub open spec fn was_noted(log: Seq<Effect>, i: int, j: int, p: ProcessView) -> bool {
    exists|a: int|
        i <= a < j && (#[trigger] log[a] matches Effect::Promote { process, .. } && process == p)
}

proof fn notes_each(ps: Seq<ProcessView>, k: int, log: Seq<Effect>, i: int)
    requires
        0 <= k <= ps.len(),
    ensures
        promoting(ps, k, log, i) matches Some(j) ==> i <= j && forall|m: int|
            k <= m < ps.len() ==> was_noted(log, i, j, #[trigger] ps[m]),
    decreases ps.len() - k,
{
    if k < ps.len() {
        notes_each(ps, k + 1, log, i + 1);
        if let Some(j) = promoting(ps, k, log, i) {
            assert forall|m: int| k <= m < ps.len() implies was_noted(
                log,
                i,
                j,
                #[trigger] ps[m],
            ) by {
                if m == k {
                    assert(log[i] is Promote);
                } else {
                    assert(was_noted(log, i + 1, j, ps[m]));
                }
            }
        }
    }
}

proof fn freezing_notes_nothing(ps: Seq<ProcessView>, signal: bool, log: Seq<Effect>, i: int)
    ensures
        freeze_transaction(ps, signal, log, i) matches Some((j, _)) ==> forall|a: int|
            i <= a < j ==> !((#[trigger] log[a]) is Promote),
{
    let head = "identity validation failed"@;
    checks_note_nothing(ps, 0, head, log, i);
    if let Some((j, None)) = prechecked(ps, 0, head, log, i) {
        freezes_note_nothing(ps, 0, signal, log, j);
        if let Some((j2, n, Some(_))) = freezing(ps, 0, signal, log, j) {
            undoing_notes_nothing(ps, n, signal, log, j2, 0, 0);
        }
    }
}

proof fn checks_note_nothing(ps: Seq<ProcessView>, k: int, head: Seq<char>, log: Seq<Effect>, i: int)
    ensures
        prechecked(ps, k, head, log, i) matches Some((j, _)) ==> forall|a: int|
            i <= a < j ==> !((#[trigger] log[a]) is Promote),
    decreases ps.len() - k,
{
    if 0 <= k < ps.len() {
        checks_note_nothing(ps, k + 1, head, log, i + 1);
    }
}

proof fn freezes_note_nothing(ps: Seq<ProcessView>, k: int, signal: bool, log: Seq<Effect>, i: int)
    ensures
        freezing(ps, k, signal, log, i) matches Some((j, _, _)) ==> forall|a: int|
            i <= a < j ==> !((#[trigger] log[a]) is Promote),
    decreases ps.len() - k,
{
    if 0 <= k < ps.len() {
        freezes_note_nothing(ps, k + 1, signal, log, i + 2);
    }
}

proof fn undoing_notes_nothing(
    ps: Seq<ProcessView>,
    k: int,
    signal: bool,
    log: Seq<Effect>,
    i: int,
    back: nat,
    failed: nat,
)
    ensures
        rolling_back(ps, k, signal, log, i, back, failed) matches Some((j, _, _)) ==> forall|a: int|
            i <= a < j ==> !((#[trigger] log[a]) is Promote),
    decreases k,
{
    if k > 0 {
        undoing_notes_nothing(ps, k - 1, signal, log, i + 1, back, failed + 1);
        undoing_notes_nothing(ps, k - 1, signal, log, i + 2, back + 1, failed);
        undoing_notes_nothing(ps, k - 1, signal, log, i + 2, back, failed + 1);
    }
}

/// A stop notes every process in the ledger as held by the signal alone where that was asked for
/// and every process was stopped; else it notes none.
pub proof fn stops_note_all_or_none(
    ps: Seq<ProcessView>,
    promotion: SignalStopLedgerPromotion,
    log: Seq<Effect>,
    i: int,
)
    ensures
        stop_transaction(ps, promotion, log, i) matches Some((j, out)) ==> {
            if promotion == SignalStopLedgerPromotion::AfterCompletedDirectTransaction
                && out.failure is None {
                forall|m: int| 0 <= m < ps.len() ==> was_noted(log, i, j, #[trigger] ps[m])
            } else {
                forall|a: int| i <= a < j ==> !((#[trigger] log[a]) is Promote)
            }
        },
{
    freezing_notes_nothing(ps, true, log, i);
    freezes_are_all_or_nothing(ps, true, log, i);
    if let Some((j, out)) = freeze_transaction(ps, true, log, i) {
        notes_each(ps, 0, log, j);
        if let Some(j2) = promoting(ps, 0, log, j) {
            assert forall|m: int| 0 <= m < ps.len() implies was_noted(
                log,
                i,
                j2,
                #[trigger] ps[m],
            ) by {
                assert(was_noted(log, j, j2, ps[m]));
            }
        }
    }
}

} // verus!
