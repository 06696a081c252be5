//! Laws of the control pass.

use vstd::prelude::*;

use crate::app::controller::carry::{
    acted, decided, decision_carried, fallback_carried, freeze_carried, ledger_clean,
    promotion_for, stop_carried, CarriedView,
};
use crate::app::controller::pass::{
    app_step, attempt_step, background_step, controlled, download_step, foreground_step, pass_from,
    protected_step, record_step, records_step, PassInput,
};
use crate::app::controller::port::Effect;
use crate::app::controller::rules::{controls, managed_app, record_policy, system_uid};
use crate::app::controller::state::{cleared, owner, unknown_owner, unresolved, ControlView};
use crate::app::controller::thaw::{found, thaw_each, thaw_one};
use crate::app::controller::transaction::{
    control_target, freeze_transaction, freezing, kill_transaction, killing, prechecked,
    promoting, promotion_ownership, rolling_back, signal_process, stop_transaction, thaw_identity, thawed, thawing,
    FreezeView, FrozenOwnership, SignalStopLedgerPromotion, ThawView,
};
use crate::app::error::ErrorView;
use crate::app::freezer_backend::{BackendEnvironment, DecisionAction, DecisionView};
use crate::domain::identity::Ident;
use crate::domain::policy::{control_allowed, AppView, PolicyView};
use crate::domain::runtime::{all_with_control_state, ControlState, ProcessView};
use crate::protocol::records::ManagerAppConfigRecord;

verus! {

/// The process that a call freezes or kills.
pub open spec fn forced(e: Effect) -> Option<ProcessView> {
    match e {
        Effect::Freeze { process, .. } => Some(process),
        Effect::Terminate { process, .. } => Some(process),
        _ => None,
    }
}

/// The process that a call freezes, thaws or kills.
pub open spec fn touched(e: Effect) -> Option<ProcessView> {
    match e {
        Effect::Unfreeze { process, .. } => Some(process),
        _ => forced(e),
    }
}

/// Position `k` asks whether a process is still the one that was discovered, and it is.
pub open spec fn confirms(e: Effect, p: ProcessView) -> bool {
    e matches Effect::Validate { process, reply } && reply == Ok::<bool, ErrorView>(true) && (p
        == process || p == signal_process(process))
}

/// From `i` to `j` no process is touched but right after it was confirmed.
pub open spec fn careful(log: Seq<Effect>, i: int, j: int) -> bool {
    forall|k: int|
        i <= k < j ==> (touched(#[trigger] log[k]) matches Some(p) ==> k > i && confirms(
            log[k - 1],
            p,
        ))
}

/// From `i` to `j` nothing is frozen or killed.
pub open spec fn gentle(log: Seq<Effect>, i: int, j: int) -> bool {
    forall|k: int| i <= k < j ==> forced(#[trigger] log[k]) is None
}

/// Two sights of one process.
pub open spec fn same_process(a: ProcessView, b: ProcessView) -> bool {
    a.pid == b.pid && a.uid == b.uid && a.package_name == b.package_name && a.start_time_ticks
        == b.start_time_ticks
}

/// A process is among those listed.
pub open spec fn is_listed(ps: Seq<ProcessView>, p: ProcessView) -> bool {
    exists|m: int| 0 <= m < ps.len() && same_process(#[trigger] ps[m], p)
}

/// From `i` to `j` only listed processes are frozen or killed.
pub open spec fn forces_only(log: Seq<Effect>, i: int, j: int, ps: Seq<ProcessView>) -> bool {
    forall|k: int| i <= k < j ==> (forced(#[trigger] log[k]) matches Some(p) ==> is_listed(ps, p))
}

// ---------------------------------------------------------------------------
// Transactions
// ---------------------------------------------------------------------------

proof fn prechecks(ps: Seq<ProcessView>, k: int, head: Seq<char>, log: Seq<Effect>, i: int)
    ensures
        prechecked(ps, k, head, log, i) matches Some((j, _)) ==> i <= j && careful(log, i, j)
            && gentle(log, i, j),
    decreases ps.len() - k,
{
    if 0 <= k < ps.len() {
        prechecks(ps, k + 1, head, log, i + 1);
    }
}

proof fn kills(ps: Seq<ProcessView>, k: int, log: Seq<Effect>, i: int)
    ensures
        killing(ps, k, log, i) matches Some((j, _)) ==> i <= j && careful(log, i, j)
            && forces_only(log, i, j, ps),
    decreases ps.len() - k,
{
    if 0 <= k < ps.len() {
        kills(ps, k + 1, log, i + 2);
        assert(same_process(ps[k], ps[k]));
    }
}

proof fn freezes(ps: Seq<ProcessView>, k: int, signal: bool, log: Seq<Effect>, i: int)
    ensures
        freezing(ps, k, signal, log, i) matches Some((j, n, failure)) ==> {
            &&& i <= j
            &&& careful(log, i, j)
            &&& forces_only(log, i, j, ps)
            &&& 0 <= k <= ps.len() ==> k <= n <= ps.len()
        },
    decreases ps.len() - k,
{
    if 0 <= k < ps.len() {
        freezes(ps, k + 1, signal, log, i + 2);
        assert(same_process(ps[k], control_target(ps[k], signal)));
    }
}

proof fn rolls_back(
    ps: Seq<ProcessView>,
    k: int,
    signal: bool,
    log: Seq<Effect>,
    i: int,
    back: nat,
    failed: nat,
)
    ensures
        rolling_back(ps, k, signal, log, i, back, failed) matches Some((j, b, f)) ==> {
            &&& i <= j
            &&& careful(log, i, j)
            &&& gentle(log, i, j)
            &&& k >= 0 ==> b + f == back + failed + k
        },
    decreases k,
{
    if k > 0 {
        rolls_back(ps, k - 1, signal, log, i + 1, back, failed + 1);
        rolls_back(ps, k - 1, signal, log, i + 2, back + 1, failed);
        rolls_back(ps, k - 1, signal, log, i + 2, back, failed + 1);
    }
}

proof fn promotes(ps: Seq<ProcessView>, k: int, log: Seq<Effect>, i: int)
    ensures
        promoting(ps, k, log, i) matches Some(j) ==> i <= j && careful(log, i, j) && gentle(
            log,
            i,
            j,
        ),
    decreases ps.len() - k,
{
    if 0 <= k < ps.len() {
        promotes(ps, k + 1, log, i + 1);
    }
}

proof fn thaws(
    ps: Seq<ProcessView>,
    k: int,
    signal: bool,
    log: Seq<Effect>,
    i: int,
    out: ThawView,
)
    ensures
        thawing(ps, k, signal, log, i, out) matches Some((j, _)) ==> i <= j && careful(log, i, j)
            && gentle(log, i, j),
    decreases ps.len() - k,
{
    if 0 <= k < ps.len() {
        let target = control_target(ps[k], signal);
        thaws(
            ps,
            k + 1,
            signal,
            log,
            i + 1,
            ThawView {
                failures: out.failures.push(
                    crate::app::controller::transaction::validation_failure(
                        "identity validation failed before unfreeze"@,
                        target,
                        crate::app::controller::transaction::validated(log, i, target)->0,
                    )->0,
                ),
                ..out
            },
        );
        thaws(ps, k + 1, signal, log, i + 2, ThawView { applied: out.applied + 1, ..out });
        thaws(
            ps,
            k + 1,
            signal,
            log,
            i + 2,
            ThawView {
                failures: out.failures.push(
                    crate::app::controller::transaction::about_pid(
                        "unfreeze failed"@,
                        target.pid,
                        Some(thawed(log, i + 1, target)->0->Err_0),
                    ),
                ),
                ..out
            },
        );
    }
}

/// A freeze transaction confirms every process right before it touches it, freezes none that is
/// not its own, and undoes what it did where it fails: every process that was frozen is thawed
/// again or counts as a failure of that.
pub proof fn freeze_transactions_are_careful(
    ps: Seq<ProcessView>,
    signal: bool,
    log: Seq<Effect>,
    i: int,
)
    ensures
        freeze_transaction(ps, signal, log, i) matches Some((j, out)) ==> {
            &&& i <= j
            &&& careful(log, i, j)
            &&& forces_only(log, i, j, ps)
            &&& out.failure is None ==> out.applied == ps.len()
            &&& out.failure is Some ==> out.applied == out.rolled_back + out.rollback_failures
        },
{
    prechecks(ps, 0, "identity validation failed"@, log, i);
    if let Some((j, None)) = prechecked(ps, 0, "identity validation failed"@, log, i) {
        freezes(ps, 0, signal, log, j);
        freezing_counts(ps, 0, signal, log, j);
        if let Some((j2, k, Some(failure))) = freezing(ps, 0, signal, log, j) {
            rolls_back(ps, k, signal, log, j2, 0, 0);
        }
    }
}

proof fn freezing_counts(ps: Seq<ProcessView>, k: int, signal: bool, log: Seq<Effect>, i: int)
    ensures
        freezing(ps, k, signal, log, i) matches Some((_, n, None)) ==> 0 <= k <= ps.len() ==> n
            == ps.len(),
    decreases ps.len() - k,
{
    if 0 <= k < ps.len() {
        freezing_counts(ps, k + 1, signal, log, i + 2);
    }
}

/// A kill transaction confirms every process right before it kills it, and kills none that is not
/// its own.
pub proof fn kill_transactions_are_careful(ps: Seq<ProcessView>, log: Seq<Effect>, i: int)
    ensures
        kill_transaction(ps, log, i) matches Some((j, _)) ==> i <= j && careful(log, i, j)
            && forces_only(log, i, j, ps),
{
    prechecks(ps, 0, "identity validation failed before SIGKILL"@, log, i);
    if let Some((j, None)) = prechecked(
        ps,
        0,
        "identity validation failed before SIGKILL"@,
        log,
        i,
    ) {
        kills(ps, 0, log, j);
    }
}

proof fn stops(
    ps: Seq<ProcessView>,
    promotion: SignalStopLedgerPromotion,
    log: Seq<Effect>,
    i: int,
)
    ensures
        stop_transaction(ps, promotion, log, i) matches Some((j, _)) ==> i <= j && careful(
            log,
            i,
            j,
        ) && forces_only(log, i, j, ps),
{
    freeze_transactions_are_careful(ps, true, log, i);
    if let Some((j, out)) = freeze_transaction(ps, true, log, i) {
        promotes(ps, 0, log, j);
    }
}

/// Thawing an identity confirms every process right before it touches it, and freezes nothing.
pub proof fn thaws_are_careful(
    package: Seq<char>,
    ps: Seq<ProcessView>,
    ownership: FrozenOwnership,
    log: Seq<Effect>,
    i: int,
)
    ensures
        thaw_identity(package, ps, ownership, log, i) matches Some((j, _)) ==> i <= j && careful(
            log,
            i,
            j,
        ) && gentle(log, i, j),
{
    thaws(
        ps,
        0,
        ownership == FrozenOwnership::SignalOnly,
        log,
        i,
        ThawView { applied: 0, failures: seq![] },
    );
}

// ---------------------------------------------------------------------------
// Steps of a pass
// ---------------------------------------------------------------------------

proof fn thaw_one_is_careful(
    s: ControlView,
    id: Ident,
    reason: Seq<char>,
    at: u128,
    log: Seq<Effect>,
    i: int,
)
    ensures
        thaw_one(s, id, reason, at, log, i) matches Some((j, _, _)) ==> i <= j && careful(
            log,
            i,
            j,
        ) && gentle(log, i, j),
{
    if let Some(Ok(ps)) = found(log, i, id.1) {
        thaws_are_careful(id.0, ps, owner(s, id), log, i + 1);
    }
}

pub(crate) proof fn thaw_each_is_careful(
    s: ControlView,
    ids: Seq<Ident>,
    k: int,
    reason: Seq<char>,
    at: u128,
    log: Seq<Effect>,
    i: int,
    failures: Seq<Seq<char>>,
)
    ensures
        thaw_each(s, ids, k, reason, at, log, i, failures) matches Some((j, _, _)) ==> i <= j
            && careful(log, i, j) && gentle(log, i, j),
    decreases ids.len() - k,
{
    if 0 <= k < ids.len() {
        thaw_one_is_careful(s, ids[k], reason, at, log, i);
        if let Some((j, s1, more)) = thaw_one(s, ids[k], reason, at, log, i) {
            thaw_each_is_careful(s1, ids, k + 1, reason, at, log, j, failures + more);
        }
    }
}

proof fn reading_the_ledger_is_gentle(ps: Seq<ProcessView>, k: int, log: Seq<Effect>, i: int)
    ensures
        ledger_clean(ps, k, log, i) matches Some((j, _)) ==> i <= j && careful(log, i, j)
            && gentle(log, i, j),
    decreases ps.len() - k,
{
    if 0 <= k < ps.len() {
        reading_the_ledger_is_gentle(ps, k + 1, log, i + 1);
    }
}

#[verifier::rlimit(60)]
#[verifier::spinoff_prover]
pub(crate) proof fn carrying_is_careful(
    s: ControlView,
    record: ManagerAppConfigRecord,
    id: Ident,
    ps: Seq<ProcessView>,
    pending: Seq<ProcessView>,
    env: BackendEnvironment,
    decision: DecisionView,
    at: u128,
    log: Seq<Effect>,
    i: int,
)
    ensures
        decision_carried(s, record, id, ps, pending, env, decision, at, log, i) matches Some(
            (j, _, _),
        ) ==> i <= j && careful(log, i, j) && forces_only(log, i, j, pending),
{
    kill_transactions_are_careful(pending, log, i);
    reading_the_ledger_is_gentle(pending, 0, log, i);
    if let Some((j, promotion)) = promotion_for(s, id, pending, log, i) {
        stops(pending, promotion, log, j);
    }
    freeze_transactions_are_careful(pending, false, log, i);
    if let Some((j, out)) = freeze_transaction(pending, false, log, i) {
        stops(pending, SignalStopLedgerPromotion::Never, log, j + 1);
        if let Some(Ok(post)) = found(log, j, record.uid) {
            thaws_are_careful(id.0, post, FrozenOwnership::CgroupBinder, log, j + 1);
        }
        if let Some(failure) = out.failure {
            if let Effect::Fallback { reply, .. } = log[j] {
                fallback_is_careful(s, record, id, ps, pending, reply, at, out, failure, log, j);
            }
        }
    }
}

proof fn fallback_is_careful(
    s: ControlView,
    record: ManagerAppConfigRecord,
    id: Ident,
    ps: Seq<ProcessView>,
    pending: Seq<ProcessView>,
    reply: DecisionView,
    at: u128,
    out: FreezeView,
    failure: Seq<char>,
    log: Seq<Effect>,
    j: int,
)
    ensures
        fallback_carried(
            crate::app::controller::carry::freeze_failed(s, id, ps, at, out, failure),
            record,
            id,
            pending,
            reply.action,
            at,
            log,
            j + 1,
        ) matches Some((e, _, _, _, _, _)) ==> j + 1 <= e && careful(log, j + 1, e) && forces_only(
            log,
            j + 1,
            e,
            pending,
        ),
{
    stops(pending, SignalStopLedgerPromotion::Never, log, j + 1);
}

proof fn pending_are_listed(ps: Seq<ProcessView>, log: Seq<Effect>, i: int, j: int)
    requires
        forces_only(log, i, j, all_with_control_state(ps, ControlState::PendingFreeze)),
    ensures
        forces_only(log, i, j, ps),
{
    let pending = all_with_control_state(ps, ControlState::PendingFreeze);
    assert forall|k: int| i <= k < j implies (forced(#[trigger] log[k]) matches Some(p)
        ==> is_listed(ps, p)) by {
        if let Some(p) = forced(log[k]) {
            let m = choose|m: int| 0 <= m < pending.len() && same_process(#[trigger] pending[m], p);
            assert(same_process(ps[m], p));
        }
    }
}

#[verifier::rlimit(60)]
#[verifier::spinoff_prover]
pub(crate) proof fn acting_is_careful(
    s: ControlView,
    record: ManagerAppConfigRecord,
    settings: Seq<u8>,
    app: AppView,
    id: Ident,
    ps: Seq<ProcessView>,
    abnormal: bool,
    binder: bool,
    at: u128,
    log: Seq<Effect>,
    i: int,
)
    ensures
        acted(s, record, settings, app, id, ps, abnormal, binder, at, log, i) matches Some(
            (j, _, _),
        ) ==> i <= j && careful(log, i, j) && forces_only(log, i, j, ps),
{
    let pending = all_with_control_state(ps, ControlState::PendingFreeze);
    let env = crate::app::controller::rules::environment(pending, binder);
    if let Some((j, decision)) = decided(record, settings, app, pending, env, log, i) {
        assert(i <= j <= i + 1);
        assert(j == i + 1 ==> log[i] is Decide);
        carrying_is_careful(s, record, id, ps, pending, env, decision, at, log, j);
        if let Some((j2, _, _)) = decision_carried(
            s,
            record,
            id,
            ps,
            pending,
            env,
            decision,
            at,
            log,
            j,
        ) {
            assert(forces_only(log, i, j2, pending));
            pending_are_listed(ps, log, i, j2);
        }
    }
}

proof fn attempts_are_careful(
    s: ControlView,
    record: ManagerAppConfigRecord,
    app: AppView,
    id: Ident,
    ps: Seq<ProcessView>,
    abnormal: bool,
    input: PassInput,
    log: Seq<Effect>,
    i: int,
)
    ensures
        attempt_step(s, record, app, id, ps, abnormal, input, log, i) matches Some((j, _, _)) ==> i
            <= j && careful(log, i, j) && forces_only(log, i, j, ps),
{
    let (s1, due) = crate::app::controller::pass::delay_step(
        s,
        record,
        id,
        ps,
        abnormal,
        input.settings,
        input.at,
    );
    if let Some((j, s2, go)) = download_step(s1, record, id, ps, input.at, log, i) {
        assert(i <= j <= i + 1);
        assert(j == i + 1 ==> log[i] is Sample);
        acting_is_careful(
            s2,
            record,
            input.settings,
            app,
            id,
            ps,
            abnormal,
            input.binder,
            input.at,
            log,
            j,
        );
    }
}

/// What a step with one application does to its processes: each is confirmed right before it is
/// touched, and only those listed are frozen or killed, none at all where the application is in
/// the foreground or may not be controlled.
pub(crate) proof fn application_is_handled_carefully(
    s: ControlView,
    record: ManagerAppConfigRecord,
    ps: Seq<ProcessView>,
    audit_due: bool,
    input: PassInput,
    log: Seq<Effect>,
    i: int,
)
    ensures
        app_step(s, record, ps, audit_due, input, log, i) matches Some((j, _, _)) ==> {
            &&& i <= j
            &&& careful(log, i, j)
            &&& forces_only(log, i, j, ps)
            &&& input.foreground.contains(record.uid) || system_uid(record.uid) ==> gentle(
                log,
                i,
                j,
            )
            &&& (log[i] matches Effect::Classify { reply, .. } && reply is Some) ==> gentle(
                log,
                i,
                j,
            )
        },
{
    let id = (crate::app::controller::rules::least_package(ps), record.uid);
    if let Effect::Classify { package, system, reply } = log[i] {
        let app = managed_app(id.0, record.uid, reply);
        let s1 = crate::app::controller::state::unblocked(s, id);
        protected_is_careful(s, record.uid, input.at, log, i + 1);
        foreground_is_careful(s1, record.uid, id, ps, input.at, log, i + 1);
        background_is_careful(s1, record, app, id, ps, audit_due, input, log, i + 1);
    }
}

pub(crate) proof fn protected_is_careful(s: ControlView, uid: u32, at: u128, log: Seq<Effect>, i: int)
    ensures
        protected_step(s, uid, at, log, i) matches Some((j, _)) ==> i <= j && careful(log, i, j)
            && gentle(log, i, j),
{
    let s1 = crate::app::controller::state::transient_cleared(s, uid);
    thaw_each_is_careful(
        s1,
        crate::domain::identity::ordered(
            s1.frozen.intersect(crate::app::controller::pass::of_uid(uid)),
        ),
        0,
        "policy or protected package blocks control"@,
        at,
        log,
        i,
        seq![],
    );
}

pub(crate) proof fn foreground_is_careful(
    s: ControlView,
    uid: u32,
    id: Ident,
    ps: Seq<ProcessView>,
    at: u128,
    log: Seq<Effect>,
    i: int,
)
    ensures
        foreground_step(s, uid, id, ps, at, log, i) matches Some((j, _)) ==> i <= j && careful(
            log,
            i,
            j,
        ) && gentle(log, i, j),
{
    let s1 = crate::app::controller::state::not_pending(s, id);
    thaws_are_careful(id.0, ps, owner(s1, id), log, i);
}

proof fn background_is_careful(
    s: ControlView,
    record: ManagerAppConfigRecord,
    app: AppView,
    id: Ident,
    ps: Seq<ProcessView>,
    audit_due: bool,
    input: PassInput,
    log: Seq<Effect>,
    i: int,
)
    ensures
        background_step(s, record, app, id, ps, audit_due, input, log, i) matches Some((j, _, _))
            ==> i <= j && careful(log, i, j) && forces_only(log, i, j, ps),
{
    attempts_are_careful(s, record, app, id, ps, false, input, log, i);
    thaws_are_careful(id.0, ps, owner(s, id), log, i);
    attempts_are_careful(
        crate::app::controller::state::seen_running(s, id),
        record,
        app,
        id,
        ps,
        true,
        input,
        log,
        i,
    );
}

/// A process that is frozen or killed at position `k` was listed, since position `i`, for an
/// application that a record puts under control and that is not in the foreground.
pub open spec fn under_control(
    records: Seq<ManagerAppConfigRecord>,
    input: PassInput,
    log: Seq<Effect>,
    i: int,
    k: int,
    p: ProcessView,
) -> bool {
    exists|m: int, d: int|
        #![trigger records[m], log[d]]
        {
            &&& 0 <= m < records.len()
            &&& i <= d < k
            &&& controls(records[m].mode)
            &&& !input.foreground.contains(records[m].uid)
            &&& !system_uid(records[m].uid)
            &&& found(log, d, records[m].uid) matches Some(Ok(ps)) && is_listed(ps, p)
        }
}

/// From `i` to `j` only processes under control are frozen or killed.
pub open spec fn forces_controlled(
    records: Seq<ManagerAppConfigRecord>,
    input: PassInput,
    log: Seq<Effect>,
    i: int,
    j: int,
) -> bool {
    forall|k: int|
        i <= k < j ==> (forced(#[trigger] log[k]) matches Some(p) ==> under_control(
            records,
            input,
            log,
            i,
            k,
            p,
        ))
}

pub(crate) proof fn record_is_handled_carefully(
    s: ControlView,
    records: Seq<ManagerAppConfigRecord>,
    m: int,
    audit_due: bool,
    input: PassInput,
    log: Seq<Effect>,
    i: int,
)
    requires
        0 <= m < records.len(),
    ensures
        record_step(s, records[m], audit_due, input, log, i) matches Some((j, _, _)) ==> {
            &&& i <= j
            &&& careful(log, i, j)
            &&& forces_controlled(records, input, log, i, j)
            &&& input.foreground.contains(records[m].uid) ==> gentle(log, i, j)
        },
{
    let record = records[m];
    if let Some(Ok(ps)) = found(log, i, record.uid) {
        application_is_handled_carefully(s, record, ps, audit_due, input, log, i + 1);
        if let Some((j, _, _)) = app_step(s, record, ps, audit_due, input, log, i + 1) {
            if controls(record.mode) && ps.len() > 0 {
                assert forall|k: int| i <= k < j implies (forced(#[trigger] log[k]) matches Some(p)
                    ==> under_control(records, input, log, i, k, p)) by {
                    if let Some(p) = forced(log[k]) {
                        assert(is_listed(ps, p));
                        assert(records[m] == record && log[i] is Discover);
                    }
                }
            }
        }
    }
}

pub(crate) proof fn records_are_handled_carefully(
    s: ControlView,
    records: Seq<ManagerAppConfigRecord>,
    m: int,
    audit_due: bool,
    input: PassInput,
    log: Seq<Effect>,
    i: int,
)
    ensures
        records_step(s, records, m, audit_due, input, log, i) matches Some((j, _, _)) ==> {
            &&& i <= j
            &&& careful(log, i, j)
            &&& forces_controlled(records, input, log, i, j)
        },
    decreases records.len() - m,
{
    if 0 <= m < records.len() {
        record_is_handled_carefully(s, records, m, audit_due, input, log, i);
        if let Some((j, s1, None)) = record_step(s, records[m], audit_due, input, log, i) {
            records_are_handled_carefully(s1, records, m + 1, audit_due, input, log, j);
            if let Some((j2, _, _)) = records_step(
                s1,
                records,
                m + 1,
                audit_due,
                input,
                log,
                j,
            ) {
                later_control_counts(records, input, log, i, j, j2);
            }
        }
    }
}

proof fn later_control_counts(
    records: Seq<ManagerAppConfigRecord>,
    input: PassInput,
    log: Seq<Effect>,
    i: int,
    j: int,
    end: int,
)
    requires
        i <= j <= end,
        forces_controlled(records, input, log, i, j),
        forces_controlled(records, input, log, j, end),
    ensures
        forces_controlled(records, input, log, i, end),
{
    assert forall|k: int| i <= k < end implies (forced(#[trigger] log[k]) matches Some(p)
        ==> under_control(records, input, log, i, k, p)) by {
        if let Some(p) = forced(log[k]) {
            if k >= j {
                assert(under_control(records, input, log, j, k, p));
                let (m, d) = choose|m: int, d: int|
                    #![trigger records[m], log[d]]
                    {
                        &&& 0 <= m < records.len()
                        &&& j <= d < k
                        &&& controls(records[m].mode)
                        &&& !input.foreground.contains(records[m].uid)
                        &&& !system_uid(records[m].uid)
                        &&& found(log, d, records[m].uid) matches Some(Ok(ps)) && is_listed(ps, p)
                    };
                assert(records[m].uid == records[m].uid && log[d] == log[d]);
            }
        }
    }
}

/// In a pass every process is confirmed right before it is frozen, thawed or killed. Frozen and
/// killed are only processes that were listed in this pass for an application under control that
/// is neither in the foreground nor part of the system.
pub proof fn passes_are_careful(
    s: ControlView,
    records: Seq<ManagerAppConfigRecord>,
    input: PassInput,
    log: Seq<Effect>,
    i: int,
)
    ensures
        pass_from(s, records, input, log, i) matches Some((j, _, _)) ==> {
            &&& i <= j
            &&& careful(log, i, j)
            &&& forces_controlled(records, input, log, i, j)
        },
{
    let uids = controlled(records);
    let s0 = crate::app::controller::pass::retired(s, uids);
    let ids = crate::domain::identity::ordered(
        s.frozen.intersect(crate::app::controller::pass::outside(uids)),
    );
    thaw_each_is_careful(s0, ids, 0, "control policy removed"@, input.at, log, i, seq![]);
    if let Some((j, s1, _)) = thaw_each(
        s0,
        ids,
        0,
        "control policy removed"@,
        input.at,
        log,
        i,
        seq![],
    ) {
        let (s2, audit_due) = crate::app::controller::rules::audit(
            crate::app::controller::state::without_detached(
                s1,
                crate::app::controller::pass::outside(uids),
            ),
            input.settings,
            input.at,
        );
        records_are_handled_carefully(s2, records, 0, audit_due, input, log, j);
        if let Some((j2, _, _)) = records_step(s2, records, 0, audit_due, input, log, j) {
            later_control_counts(records, input, log, i, j, j2);
        }
    }
}

/// An application in the foreground is never frozen or killed.
pub proof fn foreground_applications_are_left_running(
    s: ControlView,
    record: ManagerAppConfigRecord,
    audit_due: bool,
    input: PassInput,
    log: Seq<Effect>,
    i: int,
)
    requires
        input.foreground.contains(record.uid),
    ensures
        record_step(s, record, audit_due, input, log, i) matches Some((j, _, _)) ==> gentle(
            log,
            i,
            j,
        ),
{
    let records = seq![record];
    assert(records[0] == record);
    record_is_handled_carefully(s, records, 0, audit_due, input, log, i);
}

/// An application that is protected, or belongs to the system, is never frozen or killed.
pub proof fn protected_applications_are_left_running(
    s: ControlView,
    record: ManagerAppConfigRecord,
    ps: Seq<ProcessView>,
    audit_due: bool,
    input: PassInput,
    log: Seq<Effect>,
    i: int,
)
    requires
        system_uid(record.uid) || (log[i] matches Effect::Classify { reply, .. } && reply is Some),
    ensures
        app_step(s, record, ps, audit_due, input, log, i) matches Some((j, _, _)) ==> gentle(
            log,
            i,
            j,
        ),
{
    application_is_handled_carefully(s, record, ps, audit_due, input, log, i);
}

/// An identity that a signal alone holds is thawed by signal alone: no process is thawed through
/// its cgroup.
pub proof fn signal_only_identities_are_thawed_by_signal(
    package: Seq<char>,
    ps: Seq<ProcessView>,
    log: Seq<Effect>,
    i: int,
)
    ensures
        thaw_identity(package, ps, FrozenOwnership::SignalOnly, log, i) matches Some((j, _))
            ==> forall|k: int|
            i <= k < j ==> ((#[trigger] log[k]) matches Effect::Unfreeze { process, .. }
                ==> process.cgroup_freeze_path is None),
{
    thaws_by_signal(ps, 0, log, i, ThawView { applied: 0, failures: seq![] });
}

proof fn thaws_by_signal(ps: Seq<ProcessView>, k: int, log: Seq<Effect>, i: int, out: ThawView)
    ensures
        thawing(ps, k, true, log, i, out) matches Some((j, _)) ==> i <= j && forall|m: int|
            i <= m < j ==> ((#[trigger] log[m]) matches Effect::Unfreeze { process, .. }
                ==> process.cgroup_freeze_path is None),
    decreases ps.len() - k,
{
    if 0 <= k < ps.len() {
        let target = control_target(ps[k], true);
        thaws_by_signal(
            ps,
            k + 1,
            log,
            i + 1,
            ThawView {
                failures: out.failures.push(
                    crate::app::controller::transaction::validation_failure(
                        "identity validation failed before unfreeze"@,
                        target,
                        crate::app::controller::transaction::validated(log, i, target)->0,
                    )->0,
                ),
                ..out
            },
        );
        thaws_by_signal(ps, k + 1, log, i + 2, ThawView { applied: out.applied + 1, ..out });
        thaws_by_signal(
            ps,
            k + 1,
            log,
            i + 2,
            ThawView {
                failures: out.failures.push(
                    crate::app::controller::transaction::about_pid(
                        "unfreeze failed"@,
                        target.pid,
                        Some(thawed(log, i + 1, target)->0->Err_0),
                    ),
                ),
                ..out
            },
        );
    }
}

/// A frozen application that comes to the foreground is released only if every one of its
/// processes was thawed; else it stays frozen under the same owner.
pub proof fn foreground_releases_only_what_thawed(
    s: ControlView,
    uid: u32,
    id: Ident,
    ps: Seq<ProcessView>,
    at: u128,
    log: Seq<Effect>,
    i: int,
)
    requires
        s.frozen.contains(id),
    ensures
        foreground_step(s, uid, id, ps, at, log, i) matches Some((_, after)) ==> {
            let thaw = thaw_identity(id.0, ps, owner(s, id), log, i);
            &&& thaw is Some
            &&& !after.pending.contains_key(id)
            &&& (thaw matches Some((_, out)) && out.failures.len() == 0) ==> {
                &&& !after.frozen.contains(id)
                &&& !after.ownership.contains_key(id)
            }
            &&& (thaw matches Some((_, out)) && out.failures.len() > 0) ==> {
                &&& after.frozen.contains(id)
                &&& owner(after, id) == owner(s, id)
            }
        },
{
}

/// An application that was released is handled like one that was never frozen: its next freeze is
/// tried in the next pass in which it is in the background.
pub proof fn released_applications_can_be_frozen_again(
    s: ControlView,
    record: ManagerAppConfigRecord,
    app: AppView,
    id: Ident,
    ps: Seq<ProcessView>,
    audit_due: bool,
    input: PassInput,
    log: Seq<Effect>,
    i: int,
)
    ensures
        background_step(cleared(s, id), record, app, id, ps, audit_due, input, log, i)
            == attempt_step(cleared(s, id), record, app, id, ps, false, input, log, i),
{
}

/// A freeze by cgroup and binder that completed is noted as such. Where it was not known before
/// which freezers hold the application, it still is not.
pub proof fn complete_freezes_are_owned_by_the_freezer(
    s: ControlView,
    record: ManagerAppConfigRecord,
    id: Ident,
    ps: Seq<ProcessView>,
    pending: Seq<ProcessView>,
    policy: PolicyView,
    env: BackendEnvironment,
    reason: Seq<char>,
    at: u128,
    log: Seq<Effect>,
    i: int,
)
    ensures
        freeze_carried(s, record, id, ps, pending, policy, env, reason, at, log, i) matches Some(
            (_, after, CarriedView::ToLog(_, _)),
        ) ==> after.frozen.contains(id) && owner(after, id) == (if unknown_owner(s, id) {
            FrozenOwnership::ResidualUnknown
        } else {
            FrozenOwnership::CgroupBinder
        }),
{
}

/// A freeze by cgroup and binder that broke off leaves it unknown which freezers hold the
/// application, whatever was done then: a stop by signal does not make it known.
pub proof fn broken_freezes_leave_ownership_unknown(
    s: ControlView,
    record: ManagerAppConfigRecord,
    id: Ident,
    ps: Seq<ProcessView>,
    pending: Seq<ProcessView>,
    policy: PolicyView,
    env: BackendEnvironment,
    reason: Seq<char>,
    at: u128,
    log: Seq<Effect>,
    i: int,
)
    requires
        freeze_transaction(pending, false, log, i) matches Some((_, out)) && out.failure is Some
            && out.residual_possible,
    ensures
        freeze_carried(s, record, id, ps, pending, policy, env, reason, at, log, i) matches Some(
            (_, after, _),
        ) ==> after.frozen.contains(id) && owner(after, id) == FrozenOwnership::ResidualUnknown,
{
}

/// A direct stop that completed is noted as held by the signal alone only where nothing else
/// may hold the application: neither what is tracked nor what the ledger holds for its
/// processes says so.
pub proof fn direct_stops_are_owned_by_the_signal(
    s: ControlView,
    record: ManagerAppConfigRecord,
    id: Ident,
    ps: Seq<ProcessView>,
    pending: Seq<ProcessView>,
    reason: Seq<char>,
    at: u128,
    log: Seq<Effect>,
    i: int,
)
    ensures
        stop_carried(s, record, id, ps, pending, reason, at, log, i) matches Some(
            (_, after, CarriedView::ToLog(_, _)),
        ) ==> {
            &&& after.frozen.contains(id)
            &&& owner(after, id) == (match promotion_for(s, id, pending, log, i) {
                Some((_, promotion)) => promotion_ownership(promotion),
                None => FrozenOwnership::ResidualUnknown,
            })
            &&& owner(after, id) == FrozenOwnership::SignalOnly ==> !unresolved(s, id)
        },
{
}

// ---------------------------------------------------------------------------
// Applications that a whole pass leaves alone
// ---------------------------------------------------------------------------

/// From `i` to `j` a search for the processes of a uid lists only processes of that uid.
pub open spec fn lists_its_own(log: Seq<Effect>, i: int, j: int) -> bool {
    forall|d: int|
        i <= d < j ==> (#[trigger] log[d] matches Effect::Discover { uid, reply, .. } ==> (
        reply matches Ok(ps) ==> forall|m: int| 0 <= m < ps.len() ==> (#[trigger] ps[m]).uid
            == uid))
}

/// From `i` to `j` no process of the uid is frozen or killed.
pub open spec fn spares(log: Seq<Effect>, i: int, j: int, uid: u32) -> bool {
    forall|k: int|
        i <= k < j ==> (forced(#[trigger] log[k]) matches Some(p) ==> p.uid != uid)
}

/// In a whole pass no process of an application in the foreground is frozen or killed, whatever
/// the state, the settings and the time, and also where a frozen application is found running.
pub proof fn passes_spare_the_foreground(
    s: ControlView,
    records: Seq<ManagerAppConfigRecord>,
    input: PassInput,
    log: Seq<Effect>,
    i: int,
    uid: u32,
)
    requires
        input.foreground.contains(uid),
        pass_from(s, records, input, log, i) matches Some((j, _, _)) ==> lists_its_own(log, i, j),
    ensures
        pass_from(s, records, input, log, i) matches Some((j, _, _)) ==> spares(log, i, j, uid),
{
    passes_are_careful(s, records, input, log, i);
    if let Some((j, _, _)) = pass_from(s, records, input, log, i) {
        forced_only_where_allowed(records, input, log, i, j, uid);
    }
}

/// Where only processes under control are forced, those of the foreground and of the system are
/// not.
pub(crate) proof fn forced_only_where_allowed(
    records: Seq<ManagerAppConfigRecord>,
    input: PassInput,
    log: Seq<Effect>,
    i: int,
    j: int,
    uid: u32,
)
    requires
        forces_controlled(records, input, log, i, j),
        lists_its_own(log, i, j),
        input.foreground.contains(uid) || system_uid(uid),
    ensures
        spares(log, i, j, uid),
{
    assert forall|k: int| i <= k < j implies (forced(#[trigger] log[k]) matches Some(p) ==> p.uid
        != uid) by {
        if let Some(p) = forced(log[k]) {
            assert(under_control(records, input, log, i, k, p));
            let (m, d) = choose|m: int, d: int|
                #![trigger records[m], log[d]]
                {
                    &&& 0 <= m < records.len()
                    &&& i <= d < k
                    &&& controls(records[m].mode)
                    &&& !input.foreground.contains(records[m].uid)
                    &&& !system_uid(records[m].uid)
                    &&& found(log, d, records[m].uid) matches Some(Ok(ps)) && is_listed(ps, p)
                };
            let ps = found(log, d, records[m].uid)->0->Ok_0;
            let n = choose|n: int| 0 <= n < ps.len() && same_process(#[trigger] ps[n], p);
            assert(log[d] is Discover);
            assert(ps[n].uid == records[m].uid);
        }
    }
}

/// Nothing waits to be frozen for a uid.
pub open spec fn nothing_pending(s: ControlView, uid: u32) -> bool {
    forall|k: Ident| #[trigger] s.pending.contains_key(k) ==> k.1 != uid
}

/// For other uids nothing more waits to be frozen than before.
pub open spec fn pends_only(a: ControlView, b: ControlView, uid: u32) -> bool {
    forall|k: Ident| #[trigger] b.pending.contains_key(k) && k.1 != uid ==> a.pending.contains_key(k)
}

proof fn thaw_each_leaves_pending(
    s: ControlView,
    ids: Seq<Ident>,
    k: int,
    reason: Seq<char>,
    at: u128,
    log: Seq<Effect>,
    i: int,
    failures: Seq<Seq<char>>,
)
    ensures
        thaw_each(s, ids, k, reason, at, log, i, failures) matches Some((_, after, _))
            ==> after.pending == s.pending,
    decreases ids.len() - k,
{
    if 0 <= k < ids.len() {
        if let Some((j, s1, more)) = thaw_one(s, ids[k], reason, at, log, i) {
            thaw_each_leaves_pending(s1, ids, k + 1, reason, at, log, j, failures + more);
        }
    }
}

/// Nothing more waits to be frozen than before.
spec fn pends_no_more(a: ControlView, b: ControlView) -> bool {
    forall|k: Ident| #[trigger] b.pending.contains_key(k) ==> a.pending.contains_key(k)
}

proof fn fallback_pends_no_more(
    s: ControlView,
    record: ManagerAppConfigRecord,
    id: Ident,
    pending: Seq<ProcessView>,
    action: DecisionAction,
    at: u128,
    log: Seq<Effect>,
    i: int,
)
    ensures
        fallback_carried(s, record, id, pending, action, at, log, i) matches Some(
            (_, after, _, _, _, _),
        ) ==> after.pending == s.pending,
{
}

proof fn freezing_pends_no_more(
    s: ControlView,
    record: ManagerAppConfigRecord,
    id: Ident,
    ps: Seq<ProcessView>,
    pending: Seq<ProcessView>,
    policy: PolicyView,
    env: BackendEnvironment,
    reason: Seq<char>,
    at: u128,
    log: Seq<Effect>,
    i: int,
)
    ensures
        freeze_carried(s, record, id, ps, pending, policy, env, reason, at, log, i) matches Some(
            (_, after, _),
        ) ==> pends_no_more(s, after),
{
    if let Some((j, out)) = freeze_transaction(pending, false, log, i) {
        if let Some(failure) = out.failure {
            if let Effect::Fallback { reply, .. } = log[j] {
                fallback_pends_no_more(
                    crate::app::controller::carry::freeze_failed(s, id, ps, at, out, failure),
                    record,
                    id,
                    pending,
                    reply.action,
                    at,
                    log,
                    j + 1,
                );
            }
        }
    }
}

proof fn stopping_pends_no_more(
    s: ControlView,
    record: ManagerAppConfigRecord,
    id: Ident,
    ps: Seq<ProcessView>,
    pending: Seq<ProcessView>,
    reason: Seq<char>,
    at: u128,
    log: Seq<Effect>,
    i: int,
)
    ensures
        stop_carried(s, record, id, ps, pending, reason, at, log, i) matches Some((_, after, _))
            ==> pends_no_more(s, after),
{
}

proof fn carrying_pends_no_more(
    s: ControlView,
    record: ManagerAppConfigRecord,
    id: Ident,
    ps: Seq<ProcessView>,
    pending: Seq<ProcessView>,
    env: BackendEnvironment,
    decision: DecisionView,
    at: u128,
    log: Seq<Effect>,
    i: int,
)
    ensures
        decision_carried(s, record, id, ps, pending, env, decision, at, log, i) matches Some(
            (_, after, _),
        ) ==> pends_no_more(s, after),
{
    match decision.action {
        DecisionAction::Freeze => freezing_pends_no_more(
            s,
            record,
            id,
            ps,
            pending,
            record_policy(record),
            env,
            decision.reason,
            at,
            log,
            i,
        ),
        DecisionAction::Signal => stopping_pends_no_more(
            s,
            record,
            id,
            ps,
            pending,
            decision.reason,
            at,
            log,
            i,
        ),
        _ => {},
    }
}

#[verifier::rlimit(60)]
#[verifier::spinoff_prover]
proof fn acting_pends_no_more(
    s: ControlView,
    record: ManagerAppConfigRecord,
    settings: Seq<u8>,
    app: AppView,
    id: Ident,
    ps: Seq<ProcessView>,
    abnormal: bool,
    binder: bool,
    at: u128,
    log: Seq<Effect>,
    i: int,
)
    ensures
        acted(s, record, settings, app, id, ps, abnormal, binder, at, log, i) matches Some(
            (_, after, _),
        ) ==> pends_no_more(s, after),
{
    let pending = all_with_control_state(ps, ControlState::PendingFreeze);
    let env = crate::app::controller::rules::environment(pending, binder);
    if let Some((j, decision)) = decided(record, settings, app, pending, env, log, i) {
        carrying_pends_no_more(s, record, id, ps, pending, env, decision, at, log, j);
    }
}

proof fn application_pends_only_itself(
    s: ControlView,
    record: ManagerAppConfigRecord,
    ps: Seq<ProcessView>,
    audit_due: bool,
    input: PassInput,
    log: Seq<Effect>,
    i: int,
)
    ensures
        app_step(s, record, ps, audit_due, input, log, i) matches Some((_, after, _)) ==> {
            &&& pends_only(s, after, record.uid)
            &&& system_uid(record.uid) ==> nothing_pending(after, record.uid)
        },
{
    let id = (crate::app::controller::rules::least_package(ps), record.uid);
    let s0 = crate::app::controller::state::transient_cleared(s, record.uid);
    thaw_each_leaves_pending(
        s0,
        crate::domain::identity::ordered(
            s0.frozen.intersect(crate::app::controller::pass::of_uid(record.uid)),
        ),
        0,
        "policy or protected package blocks control"@,
        input.at,
        log,
        i + 1,
        seq![],
    );
    if let Effect::Classify { package, system, reply } = log[i] {
        let app = managed_app(id.0, record.uid, reply);
        let s1 = crate::app::controller::state::unblocked(s, id);
        attempt_pends_only_itself(s1, record, app, id, ps, false, input, log, i + 1);
        attempt_pends_only_itself(
            crate::app::controller::state::seen_running(s1, id),
            record,
            app,
            id,
            ps,
            true,
            input,
            log,
            i + 1,
        );
    }
}

proof fn attempt_pends_only_itself(
    s: ControlView,
    record: ManagerAppConfigRecord,
    app: AppView,
    id: Ident,
    ps: Seq<ProcessView>,
    abnormal: bool,
    input: PassInput,
    log: Seq<Effect>,
    i: int,
)
    requires
        id.1 == record.uid,
    ensures
        attempt_step(s, record, app, id, ps, abnormal, input, log, i) matches Some((_, after, _))
            ==> pends_only(s, after, record.uid),
{
    let (s1, due) = crate::app::controller::pass::delay_step(
        s,
        record,
        id,
        ps,
        abnormal,
        input.settings,
        input.at,
    );
    if let Some((j, s2, go)) = download_step(s1, record, id, ps, input.at, log, i) {
        acting_pends_no_more(
            s2,
            record,
            input.settings,
            app,
            id,
            ps,
            abnormal,
            input.binder,
            input.at,
            log,
            j,
        );
    }
}

proof fn records_leave_system_unpending(
    s: ControlView,
    records: Seq<ManagerAppConfigRecord>,
    m: int,
    audit_due: bool,
    input: PassInput,
    log: Seq<Effect>,
    i: int,
    at: int,
)
    requires
        0 <= m,
        0 <= at < records.len(),
        controls(records[at].mode),
        system_uid(records[at].uid),
        at < m ==> nothing_pending(s, records[at].uid),
    ensures
        records_step(s, records, m, audit_due, input, log, i) matches Some((_, after, None))
            ==> nothing_pending(after, records[at].uid),
    decreases records.len() - m,
{
    if m < records.len() {
        if let Some((j, s1, None)) = record_step(s, records[m], audit_due, input, log, i) {
            if let Some(Ok(ps)) = found(log, i, records[m].uid) {
                application_pends_only_itself(s, records[m], ps, audit_due, input, log, i + 1);
            }
            let uid = records[at].uid;
            if at < m || at == m {
                assert forall|k: Ident| #[trigger] s1.pending.contains_key(k) implies k.1 != uid by {
                    if controls(records[m].mode) && records[m].uid != uid && k.1 == uid {
                        assert(s.pending.contains_key(k));
                    }
                }
            }
            records_leave_system_unpending(s1, records, m + 1, audit_due, input, log, j, at);
        }
    }
}

/// In a whole pass no process of a system uid is frozen or killed, and after a pass that went
/// through nothing waits to be frozen for a system uid that a record names.
pub proof fn passes_spare_the_system(
    s: ControlView,
    records: Seq<ManagerAppConfigRecord>,
    input: PassInput,
    log: Seq<Effect>,
    i: int,
    at: int,
)
    requires
        0 <= at < records.len(),
        controls(records[at].mode),
        system_uid(records[at].uid),
        pass_from(s, records, input, log, i) matches Some((j, _, _)) ==> lists_its_own(log, i, j),
    ensures
        pass_from(s, records, input, log, i) matches Some((j, after, failure)) ==> {
            &&& spares(log, i, j, records[at].uid)
            &&& failure is None ==> nothing_pending(after, records[at].uid)
        },
{
    passes_are_careful(s, records, input, log, i);
    if let Some((j, _, _)) = pass_from(s, records, input, log, i) {
        forced_only_where_allowed(records, input, log, i, j, records[at].uid);
    }
    let uids = controlled(records);
    if let Some((j, s1, _)) = thaw_each(
        crate::app::controller::pass::retired(s, uids),
        crate::domain::identity::ordered(
            s.frozen.intersect(crate::app::controller::pass::outside(uids)),
        ),
        0,
        "control policy removed"@,
        input.at,
        log,
        i,
        seq![],
    ) {
        let (s2, audit_due) = crate::app::controller::rules::audit(
            crate::app::controller::state::without_detached(
                s1,
                crate::app::controller::pass::outside(uids),
            ),
            input.settings,
            input.at,
        );
        records_leave_system_unpending(s2, records, 0, audit_due, input, log, j, at);
    }
}

/// From `i` to `j` every search for the processes of the uid lists one with the pid, and no
/// validation of that pid succeeds.
pub open spec fn never_validated(log: Seq<Effect>, i: int, j: int, uid: u32, pid: i32) -> bool {
    &&& forall|d: int|
        i <= d < j ==> (#[trigger] log[d] matches Effect::Discover { uid: u, reply, .. } ==> (u
            == uid && reply is Ok ==> has_pid(reply->Ok_0, pid)))
    &&& forall|d: int|
        i <= d < j ==> (#[trigger] log[d] matches Effect::Validate { process, reply } ==> (
        process.pid == pid ==> reply != Ok::<bool, ErrorView>(true)))
}

/// A process with the pid is listed.
pub open spec fn has_pid(ps: Seq<ProcessView>, pid: i32) -> bool {
    exists|m: int| 0 <= m < ps.len() && (#[trigger] ps[m]).pid == pid
}

/// No validation of the pid succeeds.
pub open spec fn refuses(log: Seq<Effect>, i: int, j: int, pid: i32) -> bool {
    forall|d: int|
        i <= d < j ==> (#[trigger] log[d] matches Effect::Validate { process, reply } ==> (
        process.pid == pid ==> reply != Ok::<bool, ErrorView>(true)))
}

/// A check before a transaction does not pass a process that is refused.
proof fn prechecks_refuse(
    ps: Seq<ProcessView>,
    k: int,
    head: Seq<char>,
    log: Seq<Effect>,
    i: int,
    m: int,
)
    requires
        0 <= k <= m < ps.len(),
    ensures
        prechecked(ps, k, head, log, i) matches Some((j, None)) ==> j == i + (ps.len() - k)
            && !refuses(log, i, j, ps[m].pid),
    decreases ps.len() - k,
{
    if let Some((j, None)) = prechecked(ps, k, head, log, i) {
        prechecks_length(ps, k, head, log, i);
        assert(log[i] matches Effect::Validate { process, reply } && process == ps[k] && reply
            == Ok::<bool, ErrorView>(true));
        if k < m {
            prechecks_refuse(ps, k + 1, head, log, i + 1, m);
            let d = choose|d: int|
                i + 1 <= d < j && !(#[trigger] log[d] matches Effect::Validate { process, reply }
                    ==> (process.pid == ps[m].pid ==> reply != Ok::<bool, ErrorView>(true)));
            assert(!refuses(log, i, j, ps[m].pid));
        }
    }
}

proof fn prechecks_length(ps: Seq<ProcessView>, k: int, head: Seq<char>, log: Seq<Effect>, i: int)
    requires
        0 <= k <= ps.len(),
    ensures
        prechecked(ps, k, head, log, i) matches Some((j, None)) ==> j == i + (ps.len() - k),
    decreases ps.len() - k,
{
    if k < ps.len() {
        prechecks_length(ps, k + 1, head, log, i + 1);
    }
}

/// A freeze of processes of which one is refused freezes none.
proof fn refused_freeze_is_gentle(
    ps: Seq<ProcessView>,
    signal: bool,
    log: Seq<Effect>,
    i: int,
    pid: i32,
)
    requires
        has_pid(ps, pid),
        freeze_transaction(ps, signal, log, i) matches Some((j, _)) ==> refuses(log, i, j, pid),
    ensures
        freeze_transaction(ps, signal, log, i) matches Some((j, out)) ==> i <= j && gentle(
            log,
            i,
            j,
        ) && out.failure is Some,
{
    let m = choose|m: int| 0 <= m < ps.len() && (#[trigger] ps[m]).pid == pid;
    let head = "identity validation failed"@;
    prechecks(ps, 0, head, log, i);
    prechecks_refuse(ps, 0, head, log, i, m);
    freeze_transactions_are_careful(ps, signal, log, i);
    if let Some((j, None)) = prechecked(ps, 0, head, log, i) {
        freezes(ps, 0, signal, log, j);
        if let Some((j2, k, Some(failure))) = freezing(ps, 0, signal, log, j) {
            rolls_back(ps, k, signal, log, j2, 0, 0);
        }
        if let Some((end, _)) = freeze_transaction(ps, signal, log, i) {
            assert(j <= end);
            assert(refuses(log, i, j, pid));
        }
    }
}

/// A kill of processes of which one is refused kills none.
proof fn refused_kill_is_gentle(ps: Seq<ProcessView>, log: Seq<Effect>, i: int, pid: i32)
    requires
        has_pid(ps, pid),
        kill_transaction(ps, log, i) matches Some((j, _)) ==> refuses(log, i, j, pid),
    ensures
        kill_transaction(ps, log, i) matches Some((j, _)) ==> i <= j && gentle(log, i, j),
{
    let m = choose|m: int| 0 <= m < ps.len() && (#[trigger] ps[m]).pid == pid;
    let head = "identity validation failed before SIGKILL"@;
    prechecks(ps, 0, head, log, i);
    prechecks_refuse(ps, 0, head, log, i, m);
    if let Some((j, None)) = prechecked(ps, 0, head, log, i) {
        kills(ps, 0, log, j);
        if let Some((end, _)) = kill_transaction(ps, log, i) {
            assert(refuses(log, i, j, pid));
        }
    }
}

#[verifier::rlimit(60)]
#[verifier::spinoff_prover]
proof fn refused_carrying_is_gentle(
    s: ControlView,
    record: ManagerAppConfigRecord,
    id: Ident,
    ps: Seq<ProcessView>,
    pending: Seq<ProcessView>,
    env: BackendEnvironment,
    decision: DecisionView,
    at: u128,
    log: Seq<Effect>,
    i: int,
    pid: i32,
)
    requires
        has_pid(pending, pid),
        decision_carried(s, record, id, ps, pending, env, decision, at, log, i) matches Some(
            (j, _, _),
        ) ==> refuses(log, i, j, pid),
    ensures
        decision_carried(s, record, id, ps, pending, env, decision, at, log, i) matches Some(
            (j, _, _),
        ) ==> i <= j && gentle(log, i, j),
{
    if let Some((end, _, _)) = decision_carried(
        s,
        record,
        id,
        ps,
        pending,
        env,
        decision,
        at,
        log,
        i,
    ) {
        carrying_is_careful(s, record, id, ps, pending, env, decision, at, log, i);
        match decision.action {
            DecisionAction::Freeze => {
                if let Some((j, out)) = freeze_transaction(pending, false, log, i) {
                    freeze_transactions_are_careful(pending, false, log, i);
                    if let Some(failure) = out.failure {
                        if let Effect::Fallback { reply, .. } = log[j] {
                            fallback_is_careful(
                                s,
                                record,
                                id,
                                ps,
                                pending,
                                reply,
                                at,
                                out,
                                failure,
                                log,
                                j,
                            );
                            assert(j + 1 <= end);
                            refused_freeze_is_gentle(pending, false, log, i, pid);
                            if reply.action == DecisionAction::Signal {
                                refused_stop_is_gentle(
                                    pending,
                                    SignalStopLedgerPromotion::Never,
                                    log,
                                    j + 1,
                                    pid,
                                );
                            }
                        }
                    } else {
                        if let Some(Ok(post)) = found(log, j, record.uid) {
                            thaws_are_careful(
                                id.0,
                                post,
                                FrozenOwnership::CgroupBinder,
                                log,
                                j + 1,
                            );
                        }
                        refused_freeze_is_gentle(pending, false, log, i, pid);
                    }
                }
            },
            DecisionAction::Signal => {
                reading_the_ledger_is_gentle(pending, 0, log, i);
                if let Some((j, promotion)) = promotion_for(s, id, pending, log, i) {
                    refused_stop_is_gentle(pending, promotion, log, j, pid);
                }
            },
            DecisionAction::Terminate => {
                refused_kill_is_gentle(pending, log, i, pid);
            },
            _ => {},
        }
    }
}

proof fn refused_stop_is_gentle(
    ps: Seq<ProcessView>,
    promotion: SignalStopLedgerPromotion,
    log: Seq<Effect>,
    i: int,
    pid: i32,
)
    requires
        has_pid(ps, pid),
        stop_transaction(ps, promotion, log, i) matches Some((j, _)) ==> refuses(log, i, j, pid),
    ensures
        stop_transaction(ps, promotion, log, i) matches Some((j, _)) ==> i <= j && gentle(
            log,
            i,
            j,
        ),
{
    if let Some((end, _)) = stop_transaction(ps, promotion, log, i) {
        if let Some((j, out)) = freeze_transaction(ps, true, log, i) {
            promotes(ps, 0, log, j);
            assert(j <= end);
            refused_freeze_is_gentle(ps, true, log, i, pid);
        }
    }
}

#[verifier::rlimit(60)]
#[verifier::spinoff_prover]
proof fn refused_acting_is_gentle(
    s: ControlView,
    record: ManagerAppConfigRecord,
    settings: Seq<u8>,
    app: AppView,
    id: Ident,
    ps: Seq<ProcessView>,
    abnormal: bool,
    binder: bool,
    at: u128,
    log: Seq<Effect>,
    i: int,
    pid: i32,
)
    requires
        has_pid(ps, pid),
        acted(s, record, settings, app, id, ps, abnormal, binder, at, log, i) matches Some(
            (j, _, _),
        ) ==> refuses(log, i, j, pid),
    ensures
        acted(s, record, settings, app, id, ps, abnormal, binder, at, log, i) matches Some(
            (j, _, _),
        ) ==> i <= j && gentle(log, i, j),
{
    let pending = all_with_control_state(ps, ControlState::PendingFreeze);
    let env = crate::app::controller::rules::environment(pending, binder);
    let m = choose|m: int| 0 <= m < ps.len() && (#[trigger] ps[m]).pid == pid;
    assert(pending[m].pid == pid);
    if let Some((j, decision)) = decided(record, settings, app, pending, env, log, i) {
        assert(i <= j <= i + 1);
        assert(j == i + 1 ==> log[i] is Decide);
        refused_carrying_is_gentle(s, record, id, ps, pending, env, decision, at, log, j, pid);
    }
}

proof fn refused_attempt_is_gentle(
    s: ControlView,
    record: ManagerAppConfigRecord,
    app: AppView,
    id: Ident,
    ps: Seq<ProcessView>,
    abnormal: bool,
    input: PassInput,
    log: Seq<Effect>,
    i: int,
    pid: i32,
)
    requires
        has_pid(ps, pid),
        attempt_step(s, record, app, id, ps, abnormal, input, log, i) matches Some((j, _, _))
            ==> refuses(log, i, j, pid),
    ensures
        attempt_step(s, record, app, id, ps, abnormal, input, log, i) matches Some((j, _, _)) ==> i
            <= j && gentle(log, i, j),
{
    let (s1, due) = crate::app::controller::pass::delay_step(
        s,
        record,
        id,
        ps,
        abnormal,
        input.settings,
        input.at,
    );
    if due {
        if let Some((j, s2, go)) = download_step(s1, record, id, ps, input.at, log, i) {
            assert(i <= j <= i + 1);
            assert(j == i + 1 ==> log[i] is Sample);
            if go {
                refused_acting_is_gentle(
                    s2,
                    record,
                    input.settings,
                    app,
                    id,
                    ps,
                    abnormal,
                    input.binder,
                    input.at,
                    log,
                    j,
                    pid,
                );
            }
        }
    }
}

proof fn refused_application_is_left_running(
    s: ControlView,
    record: ManagerAppConfigRecord,
    ps: Seq<ProcessView>,
    audit_due: bool,
    input: PassInput,
    log: Seq<Effect>,
    i: int,
    pid: i32,
)
    requires
        has_pid(ps, pid),
        app_step(s, record, ps, audit_due, input, log, i) matches Some((j, _, _)) ==> refuses(
            log,
            i,
            j,
            pid,
        ),
    ensures
        app_step(s, record, ps, audit_due, input, log, i) matches Some((j, _, _)) ==> i <= j
            && gentle(log, i, j),
{
    if let Some((end, _, _)) = app_step(s, record, ps, audit_due, input, log, i) {
        let id = (crate::app::controller::rules::least_package(ps), record.uid);
        if let Effect::Classify { package, system, reply } = log[i] {
            let app = managed_app(id.0, record.uid, reply);
            let s1 = crate::app::controller::state::unblocked(s, id);
            protected_is_careful(s, record.uid, input.at, log, i + 1);
            foreground_is_careful(s1, record.uid, id, ps, input.at, log, i + 1);
            if control_allowed(record_policy(record), app)
                && !crate::app::controller::state::is_blocked(
                s,
                id,
                crate::app::controller::state::signature(ps),
            ) && !input.foreground.contains(record.uid) {
                thaws_are_careful(id.0, ps, owner(s1, id), log, i + 1);
                if !s1.frozen.contains(id) {
                    refused_attempt_is_gentle(
                        s1,
                        record,
                        app,
                        id,
                        ps,
                        false,
                        input,
                        log,
                        i + 1,
                        pid,
                    );
                } else if !crate::app::controller::rules::wakeup_due(
                    s1,
                    id,
                    input.settings,
                    input.at,
                ) && audit_due && crate::app::controller::pass::any_running(ps) {
                    refused_attempt_is_gentle(
                        crate::app::controller::state::seen_running(s1, id),
                        record,
                        app,
                        id,
                        ps,
                        true,
                        input,
                        log,
                        i + 1,
                        pid,
                    );
                }
            }
        }
    }
}

proof fn records_spare_the_refused(
    s: ControlView,
    records: Seq<ManagerAppConfigRecord>,
    m: int,
    audit_due: bool,
    input: PassInput,
    log: Seq<Effect>,
    i: int,
    end: int,
    uid: u32,
    pid: i32,
)
    requires
        records_step(s, records, m, audit_due, input, log, i) matches Some((j, _, _)) && j == end,
        lists_its_own(log, i, end),
        never_validated(log, i, end, uid, pid),
    ensures
        i <= end,
        spares(log, i, end, uid),
    decreases records.len() - m,
{
    records_are_handled_carefully(s, records, m, audit_due, input, log, i);
    if 0 <= m < records.len() {
        record_is_handled_carefully(s, records, m, audit_due, input, log, i);
        if let Some((j, s1, failure)) = record_step(s, records[m], audit_due, input, log, i) {
            if failure is None {
                records_are_handled_carefully(s1, records, m + 1, audit_due, input, log, j);
                records_spare_the_refused(
                    s1,
                    records,
                    m + 1,
                    audit_due,
                    input,
                    log,
                    j,
                    end,
                    uid,
                    pid,
                );
            }
            assert(j <= end);
            record_spares_the_refused(s, records[m], audit_due, input, log, i, j, uid, pid);
        }
    }
}

proof fn record_spares_the_refused(
    s: ControlView,
    record: ManagerAppConfigRecord,
    audit_due: bool,
    input: PassInput,
    log: Seq<Effect>,
    i: int,
    j: int,
    uid: u32,
    pid: i32,
)
    requires
        record_step(s, record, audit_due, input, log, i) matches Some((e, _, _)) && e == j,
        i <= j,
        lists_its_own(log, i, j),
        never_validated(log, i, j, uid, pid),
    ensures
        spares(log, i, j, uid),
{
    if controls(record.mode) {
        if let Some(Ok(ps)) = found(log, i, record.uid) {
            if ps.len() > 0 {
                assert(log[i] is Discover);
                application_is_handled_carefully(s, record, ps, audit_due, input, log, i + 1);
                if record.uid == uid {
                    assert(has_pid(ps, pid));
                    assert(refuses(log, i + 1, j, pid));
                    refused_application_is_left_running(
                        s,
                        record,
                        ps,
                        audit_due,
                        input,
                        log,
                        i + 1,
                        pid,
                    );
                } else {
                    assert forall|k: int| i <= k < j implies (forced(
                        #[trigger] log[k],
                    ) matches Some(p) ==> p.uid != uid) by {
                        if let Some(p) = forced(log[k]) {
                            let n = choose|n: int|
                                0 <= n < ps.len() && same_process(#[trigger] ps[n], p);
                            assert(ps[n].uid == record.uid);
                        }
                    }
                }
            }
        }
    }
}

/// In a whole pass one process of a uid that is not validated keeps every process of that uid
/// from being frozen or killed, by whatever backend.
pub proof fn passes_spare_what_is_not_validated(
    s: ControlView,
    records: Seq<ManagerAppConfigRecord>,
    input: PassInput,
    log: Seq<Effect>,
    i: int,
    uid: u32,
    pid: i32,
)
    requires
        pass_from(s, records, input, log, i) matches Some((j, _, _)) ==> lists_its_own(log, i, j)
            && never_validated(log, i, j, uid, pid),
    ensures
        pass_from(s, records, input, log, i) matches Some((j, _, _)) ==> spares(log, i, j, uid),
{
    if let Some((end, _, _)) = pass_from(s, records, input, log, i) {
        let uids = controlled(records);
        let s0 = crate::app::controller::pass::retired(s, uids);
        let ids = crate::domain::identity::ordered(
            s.frozen.intersect(crate::app::controller::pass::outside(uids)),
        );
        thaw_each_is_careful(s0, ids, 0, "control policy removed"@, input.at, log, i, seq![]);
        if let Some((j, s1, _)) = thaw_each(
            s0,
            ids,
            0,
            "control policy removed"@,
            input.at,
            log,
            i,
            seq![],
        ) {
            let (s2, audit_due) = crate::app::controller::rules::audit(
                crate::app::controller::state::without_detached(
                    s1,
                    crate::app::controller::pass::outside(uids),
                ),
                input.settings,
                input.at,
            );
            records_spare_the_refused(
                s2,
                records,
                0,
                audit_due,
                input,
                log,
                j,
                end,
                uid,
                pid,
            );
        }
    }
}

} // verus!
