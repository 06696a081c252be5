//! Carrying out a decision on the processes of one identity.

use vstd::prelude::*;
use vstd::string::*;

use crate::app::controller::port::{extends, proceeded, ControlBackend, Effect};
use crate::app::controller::rules::{
    backend_environment, backend_name, breaks_network, details, environment, fallback_operation,
    freezer_name, mode_has_network_restriction, new_operation, operation_details,
    operation_from_fallback, operation_on, requested_backend, requested_control_backend,
    record_policy, requested_name, RequestedControlBackend,
};
use crate::app::controller::state::{
    blocked, cleared, not_pending, recorded, signature, track, unresolved, without_stale_time,
    ControlView, RuntimeControlState, sound_change,
};
use crate::app::controller::thaw::{fallback_package, found};
use crate::app::controller::transaction::{
    apply_freeze_transaction, apply_signal_stop_freeze_transaction, apply_terminate_transaction,
    freeze_transaction, kill_transaction, promotion_ownership, stop_transaction, thaw_identity,
    unfreeze_identity_processes, FreezeView, FrozenOwnership, SignalStopLedgerPromotion,
};
use crate::app::error::{DaemonError, ErrorView};
use crate::app::freezer_backend::{
    BackendEnvironment, DecisionAction, DecisionView, FreezeDecision,
};
use crate::domain::identity::{copy_identity, Ident, RuntimeIdentity};
use crate::domain::operation::{ControlAction, OperationResult};
use crate::domain::policy::{AppView, FreezePolicy, ManagedApp, PolicyView};
use crate::domain::runtime::{
    all_with_control_state, copy_with_control_state, pids, process_ids, process_views,
    ControlState, ProcessView, RuntimeProcess,
};
use crate::protocol::records::ManagerAppConfigRecord;
use crate::sys::procfs::SignalStopOwnership;
use crate::text::{
    contains, decimal, has, join, join_strings, number, signed_decimal, signed_number, text, texts,
};

verus! {

/// How carrying out a decision ended.
pub enum Carried {
    /// Everything is logged.
    Done,
    /// The operation remains to be logged.
    ToLog(ControlAction, OperationResult),
    /// The processes could not be listed: the pass ends.
    Broken(DaemonError),
}

/// How carrying out a decision ended, as a value.
#[verifier::ext_equal]
pub ghost enum CarriedView {
    Done,
    ToLog(ControlAction, OperationResult),
    Broken(ErrorView),
}

impl View for Carried {
    type V = CarriedView;

    open spec fn view(&self) -> CarriedView {
        match self {
            Carried::Done => CarriedView::Done,
            Carried::ToLog(a, r) => CarriedView::ToLog(*a, *r),
            Carried::Broken(e) => CarriedView::Broken(e@),
        }
    }
}

/// The message that marks processes of more than one package under one uid.
pub open spec fn is_shared_uid_failure(failure: Seq<char>) -> bool {
    contains(failure, "shared uid contains multiple package identities"@)
}

/// The restriction of a uid's network is asked for, where the mode asks for it.
pub open spec fn with_network(s: ControlView, record: ManagerAppConfigRecord) -> ControlView {
    if breaks_network(record.mode) {
        ControlView { network: s.network.insert(record.uid), ..s }
    } else {
        s
    }
}

fn request_network(state: &mut RuntimeControlState, record: &ManagerAppConfigRecord)
    ensures
        sound_change(old(state)@, final(state)@),
        final(state)@ == with_network(old(state)@, *record),
{
    if mode_has_network_restriction(record.mode) {
        state.requeue_network_restriction_uid(record.uid);
    }
}

/// The details of an operation with a count at the end.
pub open spec fn counted(head: Seq<char>, label: Seq<char>, n: nat) -> Seq<char> {
    head + label + decimal(n)
}

fn add_count(out: &mut String, label: &str, n: usize)
    ensures
        final(out)@ == counted(old(out)@, label@, n as nat),
{
    out.append(label);
    let digits = number(n as u128);
    out.append(digits.as_str());
}

// ---------------------------------------------------------------------------
// Freezing with the freezer backend
// ---------------------------------------------------------------------------

/// The state after a freeze that failed, before the fallback.
pub open spec fn freeze_failed(
    s: ControlView,
    id: Ident,
    ps: Seq<ProcessView>,
    at: u128,
    out: FreezeView,
    failure: Seq<char>,
) -> ControlView {
    let s1 = if is_shared_uid_failure(failure) {
        blocked(s, id, signature(ps))
    } else {
        s
    };
    if out.residual_possible {
        track(s1, id, at, FrozenOwnership::ResidualUnknown)
    } else {
        s1
    }
}

/// The note on a stop that replaces a failed freeze.
pub open spec fn stop_note(out: FreezeView) -> Seq<char> {
    match out.failure {
        None => counted(seq![], "signal_applied="@, out.applied),
        Some(failure) => counted(
            counted(
                counted("signal_failure="@ + failure, " signal_applied="@, out.applied),
                " signal_rolled_back="@,
                out.rolled_back,
            ),
            " signal_rollback_failures="@,
            out.rollback_failures,
        ),
    }
}

/// The fallback of a failed freeze: a stop by signal, or only a note of the decision. Gives
/// the state, and how the operation is logged: action, result, backend and note.
pub open spec fn fallback_carried(
    s: ControlView,
    record: ManagerAppConfigRecord,
    id: Ident,
    pending: Seq<ProcessView>,
    action: DecisionAction,
    at: u128,
    log: Seq<Effect>,
    i: int,
) -> Option<(int, ControlView, ControlAction, OperationResult, Seq<char>, Seq<char>)> {
    if action == DecisionAction::Signal {
        match stop_transaction(pending, SignalStopLedgerPromotion::Never, log, i) {
            None => None,
            Some((j, out)) => if out.failure is None {
                Some(
                    (
                        j,
                        with_network(track(s, id, at, FrozenOwnership::SignalOnly), record),
                        ControlAction::Freeze,
                        OperationResult::Success,
                        "signal.stop"@,
                        stop_note(out),
                    ),
                )
            } else {
                Some(
                    (
                        j,
                        if out.rollback_failures > 0 {
                            track(s, id, at, FrozenOwnership::ResidualUnknown)
                        } else {
                            s
                        },
                        ControlAction::Fallback,
                        if out.rollback_failures == 0 {
                            OperationResult::Failed
                        } else {
                            OperationResult::Partial
                        },
                        "signal.stop"@,
                        stop_note(out),
                    ),
                )
            },
        }
    } else {
        let (a, r) = fallback_operation(action);
        Some(
            (
                i,
                if r == OperationResult::Success && a == ControlAction::Freeze {
                    with_network(s, record)
                } else {
                    s
                },
                a,
                r,
                freezer_name(pending),
                seq![],
            ),
        )
    }
}

/// The reason of an operation that replaces a failed freeze.
pub open spec fn fallback_reason(
    reason: Seq<char>,
    failure: Seq<char>,
    out: FreezeView,
) -> Seq<char> {
    counted(
        counted(
            counted(
                reason + "; primary_transaction="@ + failure,
                "; primary_rolled_back="@,
                out.rolled_back,
            ),
            "/"@,
            out.applied,
        ),
        " rollback_failures="@,
        out.rollback_failures,
    )
}

/// The process ids of a uid that were not among the frozen ones.
pub open spec fn new_pids(post: Seq<ProcessView>, uid: u32, frozen: Seq<i32>) -> Seq<i32>
    decreases post.len(),
{
    if post.len() == 0 {
        seq![]
    } else {
        let rest = new_pids(post.drop_last(), uid, frozen);
        if post.last().uid == uid && !frozen.contains(post.last().pid) {
            rest.push(post.last().pid)
        } else {
            rest
        }
    }
}

/// A list of process ids in square brackets.
pub open spec fn pid_list_text(list: Seq<i32>) -> Seq<char> {
    "["@ + join(list.map_values(|p: i32| signed_decimal(p as int)), ", "@) + "]"@
}

/// Freezing all processes of an identity. A failure leads to the fallback; a process that
/// appeared meanwhile undoes the freeze.
pub open spec fn freeze_carried(
    s: ControlView,
    record: ManagerAppConfigRecord,
    id: Ident,
    ps: Seq<ProcessView>,
    pending: Seq<ProcessView>,
    policy: PolicyView,
    env: BackendEnvironment,
    reason: Seq<char>,
    at: u128,
    log: Seq<Effect>,
    i: int,
) -> Option<(int, ControlView, CarriedView)> {
    match freeze_transaction(pending, false, log, i) {
        None => None,
        Some((j, out)) => match out.failure {
            Some(failure) => freeze_fallback(
                s,
                record,
                id,
                ps,
                pending,
                policy,
                env,
                at,
                out,
                failure,
                log,
                j,
            ),
            None => freeze_confirmed(s, record, id, pending, reason, at, log, j),
        },
    }
}

/// What follows a failed freeze transaction.
pub open spec fn freeze_fallback(
    s: ControlView,
    record: ManagerAppConfigRecord,
    id: Ident,
    ps: Seq<ProcessView>,
    pending: Seq<ProcessView>,
    policy: PolicyView,
    env: BackendEnvironment,
    at: u128,
    out: FreezeView,
    failure: Seq<char>,
    log: Seq<Effect>,
    j: int,
) -> Option<(int, ControlView, CarriedView)> {
    match log[j] {
        Effect::Fallback { policy: p, error, environment: e, reply } if 0 <= j < log.len() && p
            == policy && error == ErrorView::System(failure) && e == env => match fallback_carried(
            freeze_failed(s, id, ps, at, out, failure),
            record,
            id,
            pending,
            reply.action,
            at,
            log,
            j + 1,
        ) {
            None => None,
            Some((j2, s2, action, result, backend, note)) => Some(
                (
                    j2,
                    without_stale_time(
                        recorded(
                            not_pending(s2, id),
                            operation_on(
                                id.0,
                                record.uid,
                                pending,
                                action,
                                backend,
                                fallback_reason(reply.reason, failure, out),
                                result,
                                details(pending) + " "@ + note,
                            ),
                            at,
                        ),
                        id,
                    ),
                    CarriedView::Done,
                ),
            ),
        },
        _ => None,
    }
}

/// What follows a successful freeze transaction: the processes are listed again.
pub open spec fn freeze_confirmed(
    s: ControlView,
    record: ManagerAppConfigRecord,
    id: Ident,
    pending: Seq<ProcessView>,
    reason: Seq<char>,
    at: u128,
    log: Seq<Effect>,
    j: int,
) -> Option<(int, ControlView, CarriedView)> {
    match found(log, j, record.uid) {
        None => None,
        Some(Err(e)) => Some((j + 1, s, CarriedView::Broken(e))),
        Some(Ok(post)) => {
            let fresh = new_pids(post, record.uid, pids(pending));
            if fresh.len() > 0 {
                match thaw_identity(id.0, post, FrozenOwnership::CgroupBinder, log, j + 1) {
                    None => None,
                    Some((j2, back)) => Some(
                        (
                            j2,
                            without_stale_time(
                                recorded(
                                    not_pending(
                                        if back.failures.len() == 0 {
                                            cleared(s, id)
                                        } else {
                                            track(s, id, at, FrozenOwnership::ResidualUnknown)
                                        },
                                        id,
                                    ),
                                    operation_on(
                                        id.0,
                                        record.uid,
                                        post,
                                        ControlAction::Freeze,
                                        freezer_name(post),
                                        reason
                                            + "; new same-uid process appeared after freeze"@,
                                        OperationResult::Partial,
                                        counted(
                                            details(post) + " new_pids="@ + pid_list_text(fresh),
                                            " rollback_applied="@,
                                            back.applied,
                                        ) + " rollback_failures="@ + (if back.failures.len() == 0 {
                                            "none"@
                                        } else {
                                            join(back.failures, "; "@)
                                        }),
                                    ),
                                    at,
                                ),
                                id,
                            ),
                            CarriedView::Done,
                        ),
                    ),
                }
            } else {
                Some(
                    (
                        j + 1,
                        not_pending(
                            with_network(track(s, id, at, FrozenOwnership::CgroupBinder), record),
                            id,
                        ),
                        CarriedView::ToLog(ControlAction::Freeze, OperationResult::Success),
                    ),
                )
            }
        },
    }
}

fn note_of_stop(applied: usize, rolled_back: usize, rollback_failures: usize, failure: &Option<
    String,
>) -> (r: String)
    ensures
        r@ == stop_note(
            FreezeView {
                applied: applied as nat,
                rolled_back: rolled_back as nat,
                rollback_failures: rollback_failures as nat,
                residual_possible: false,
                failure: match failure {
                    Some(f) => Some(f@),
                    None => None,
                },
            },
        ),
{
    match failure {
        None => {
            let mut out = String::new();
            add_count(&mut out, "signal_applied=", applied);
            out
        },
        Some(failure) => {
            let mut out = text("signal_failure=");
            out.append(failure.as_str());
            add_count(&mut out, " signal_applied=", applied);
            add_count(&mut out, " signal_rolled_back=", rolled_back);
            add_count(&mut out, " signal_rollback_failures=", rollback_failures);
            out
        },
    }
}

fn carry_out_fallback<B: ControlBackend>(
    state: &mut RuntimeControlState,
    record: &ManagerAppConfigRecord,
    identity: &RuntimeIdentity,
    pending: &[RuntimeProcess],
    action: DecisionAction,
    backend: &mut B,
    timestamp_ms: u128,
) -> (r: (ControlAction, OperationResult, String, String))
    requires
        old(backend).ready(),
    ensures
        sound_change(old(state)@, final(state)@),
        proceeded(*old(backend), *final(backend)),
        forall|full: Seq<Effect>|
            extends(full, final(backend).trace()) ==> #[trigger] fallback_carried(
                old(state)@,
                *record,
                identity@,
                process_views(pending@),
                action,
                timestamp_ms,
                full,
                old(backend).trace().len() as int,
            ) == Some(
                (final(backend).trace().len() as int, final(state)@, r.0, r.1, r.2@, r.3@),
            ),
{
    match action {
        DecisionAction::Signal => {
            let out = apply_signal_stop_freeze_transaction(
                pending,
                SignalStopLedgerPromotion::Never,
                backend,
            );
            let note = note_of_stop(
                out.applied,
                out.rolled_back,
                out.rollback_failures,
                &out.failure,
            );
            if out.failure.is_none() {
                state.track_frozen(
                    copy_identity(identity),
                    timestamp_ms,
                    FrozenOwnership::SignalOnly,
                );
                request_network(state, record);
                (ControlAction::Freeze, OperationResult::Success, text("signal.stop"), note)
            } else {
                if out.rollback_failures > 0 {
                    state.track_frozen(
                        copy_identity(identity),
                        timestamp_ms,
                        FrozenOwnership::ResidualUnknown,
                    );
                }
                let result = if out.rollback_failures == 0 {
                    OperationResult::Failed
                } else {
                    OperationResult::Partial
                };
                (ControlAction::Fallback, result, text("signal.stop"), note)
            }
        },
        other => {
            let (a, result) = operation_from_fallback(other);
            if result == OperationResult::Success && a == ControlAction::Freeze {
                request_network(state, record);
            }
            (a, result, backend_name(pending), String::new())
        },
    }
}

fn contains_pid(list: &[i32], pid: i32) -> (r: bool)
    ensures
        r == list@.contains(pid),
{
    let mut i: usize = 0;
    while i < list.len()
        invariant
            i <= list@.len(),
            forall|k: int| 0 <= k < i ==> list@[k] != pid,
        decreases list@.len() - i,
    {
        if list[i] == pid {
            return true;
        }
        i += 1;
    }
    false
}

fn find_new_pids(post: &[RuntimeProcess], uid: u32, frozen: &[i32]) -> (r: Vec<i32>)
    ensures
        r@ == new_pids(process_views(post@), uid, frozen@),
{
    let ghost ps = process_views(post@);
    let mut out: Vec<i32> = Vec::new();
    let mut i: usize = 0;
    while i < post.len()
        invariant
            i <= post@.len(),
            ps == process_views(post@),
            out@ == new_pids(ps.take(i as int), uid, frozen@),
        decreases post@.len() - i,
    {
        assert(ps.take(i + 1).drop_last() =~= ps.take(i as int));
        assert(ps.take(i + 1).last() == post@[i as int]@);
        if post[i].uid == uid && !contains_pid(frozen, post[i].pid) {
            out.push(post[i].pid);
        }
        i += 1;
    }
    assert(ps.take(i as int) =~= ps);
    out
}

fn write_pid_list(list: &[i32]) -> (r: String)
    ensures
        r@ == pid_list_text(list@),
{
    let mut parts: Vec<String> = Vec::new();
    let ghost all = list@.map_values(|p: i32| signed_decimal(p as int));
    let mut i: usize = 0;
    while i < list.len()
        invariant
            i <= list@.len(),
            all == list@.map_values(|p: i32| signed_decimal(p as int)),
            texts(parts@) == all.take(i as int),
        decreases list@.len() - i,
    {
        let ghost done = texts(parts@);
        let item = signed_number(list[i] as i64);
        parts.push(item);
        assert(texts(parts@) =~= done.push(item@));
        assert(all.take(i + 1) =~= all.take(i as int).push(all[i as int]));
        i += 1;
    }
    assert(all.take(i as int) =~= all);
    let mut out = text("[");
    let joined = join_strings(parts.as_slice(), ", ");
    out.append(joined.as_str());
    out.append("]");
    out
}

fn carry_out_confirmation<B: ControlBackend>(
    state: &mut RuntimeControlState,
    record: &ManagerAppConfigRecord,
    identity: &RuntimeIdentity,
    pending: &[RuntimeProcess],
    reason: &str,
    backend: &mut B,
    timestamp_ms: u128,
) -> (r: Carried)
    requires
        old(backend).ready(),
    ensures
        sound_change(old(state)@, final(state)@),
        proceeded(*old(backend), *final(backend)),
        forall|full: Seq<Effect>|
            extends(full, final(backend).trace()) ==> #[trigger] freeze_confirmed(
                old(state)@,
                *record,
                identity@,
                process_views(pending@),
                reason@,
                timestamp_ms,
                full,
                old(backend).trace().len() as int,
            ) == Some((final(backend).trace().len() as int, final(state)@, r@)),
{
    let ghost j = backend.trace().len() as int;
    let lookup = fallback_package(record.uid);
    let post = match backend.discover(lookup.as_str(), record.uid) {
        Ok(post) => post,
        Err(error) => {
            proof {
                assert forall|full: Seq<Effect>|
                    extends(full, backend.trace()) implies found(full, j, record.uid) == Some(
                    Err::<Seq<ProcessView>, ErrorView>(error@),
                ) by {
                    assert(full[j] == backend.trace()[j]);
                }
            }
            return Carried::Broken(error);
        },
    };
    let ghost b1 = *backend;
    proof {
        assert forall|full: Seq<Effect>| extends(full, b1.trace()) implies #[trigger] found(
            full,
            j,
            record.uid,
        ) == Some(Ok::<Seq<ProcessView>, ErrorView>(process_views(post@))) by {
            assert(full[j] == b1.trace()[j]);
        }
    }
    let original = process_ids(pending);
    let fresh = find_new_pids(post.as_slice(), record.uid, original.as_slice());
    if fresh.len() > 0 {
        let back = unfreeze_identity_processes(
            identity.0.as_str(),
            post.as_slice(),
            FrozenOwnership::CgroupBinder,
            backend,
        );
        assert(texts(back.failures@).len() == back.failures@.len());
        if back.failures.len() == 0 {
            state.clear_frozen(identity);
        } else {
            state.track_frozen(
                copy_identity(identity),
                timestamp_ms,
                FrozenOwnership::ResidualUnknown,
            );
        }
        state.drop_pending(identity);
        let mut why = text(reason);
        why.append("; new same-uid process appeared after freeze");
        let mut note = operation_details(post.as_slice());
        note.append(" new_pids=");
        let listed = write_pid_list(fresh.as_slice());
        note.append(listed.as_str());
        add_count(&mut note, " rollback_applied=", back.applied);
        note.append(" rollback_failures=");
        if back.failures.len() == 0 {
            note.append("none");
        } else {
            let joined = join_strings(back.failures.as_slice(), "; ");
            note.append(joined.as_str());
        }
        let operation = new_operation(
            identity.0.as_str(),
            record.uid,
            post.as_slice(),
            ControlAction::Freeze,
            backend_name(post.as_slice()),
            why,
            OperationResult::Partial,
            note,
        );
        state.record_operation(operation, timestamp_ms);
        state.drop_stale_time(identity);
        return Carried::Done;
    }
    state.track_frozen(
        copy_identity(identity),
        timestamp_ms,
        FrozenOwnership::CgroupBinder,
    );
    request_network(state, record);
    state.drop_pending(identity);
    Carried::ToLog(ControlAction::Freeze, OperationResult::Success)
}

/// Freezes all processes of an identity with the freezer backend.
#[allow(clippy::too_many_arguments)]
pub fn carry_out_freeze<B: ControlBackend>(
    state: &mut RuntimeControlState,
    record: &ManagerAppConfigRecord,
    identity: &RuntimeIdentity,
    processes: &[RuntimeProcess],
    pending: &[RuntimeProcess],
    policy: &FreezePolicy,
    env: BackendEnvironment,
    reason: &str,
    backend: &mut B,
    timestamp_ms: u128,
) -> (r: Carried)
    requires
        old(backend).ready(),
    ensures
        sound_change(old(state)@, final(state)@),
        proceeded(*old(backend), *final(backend)),
        forall|full: Seq<Effect>|
            extends(full, final(backend).trace()) ==> #[trigger] freeze_carried(
                old(state)@,
                *record,
                identity@,
                process_views(processes@),
                process_views(pending@),
                policy@,
                env,
                reason@,
                timestamp_ms,
                full,
                old(backend).trace().len() as int,
            ) == Some((final(backend).trace().len() as int, final(state)@, r@)),
{
    let ghost s0 = state@;
    let ghost ps = process_views(processes@);
    let ghost pend = process_views(pending@);
    let ghost i0 = backend.trace().len() as int;
    let out = apply_freeze_transaction(pending, false, backend);
    let ghost b1 = *backend;
    let ghost view = out@;
    let failure = match out.failure {
        Some(failure) => failure,
        None => {
            return carry_out_confirmation(
                state,
                record,
                identity,
                pending,
                reason,
                backend,
                timestamp_ms,
            );
        },
    };
    if has(failure.as_str(), "shared uid contains multiple package identities") {
        state.block(identity, processes);
    }
    if out.residual_possible {
        state.track_frozen(
            copy_identity(identity),
            timestamp_ms,
            FrozenOwnership::ResidualUnknown,
        );
    }
    assert(state@ == freeze_failed(s0, identity@, ps, timestamp_ms, view, failure@));
    let ghost s1 = state@;
    let ghost j = backend.trace().len() as int;
    let error = DaemonError::system(failure.as_str());
    let fallback = backend.fallback(policy, &error, env);
    let ghost b2 = *backend;
    let (action, result, backend_text, note) = carry_out_fallback(
        state,
        record,
        identity,
        pending,
        fallback.action,
        backend,
        timestamp_ms,
    );
    state.drop_pending(identity);
    let mut why = text(fallback.reason.as_str());
    why.append("; primary_transaction=");
    why.append(failure.as_str());
    add_count(&mut why, "; primary_rolled_back=", out.rolled_back);
    add_count(&mut why, "/", out.applied);
    add_count(&mut why, " rollback_failures=", out.rollback_failures);
    let mut details_text = operation_details(pending);
    details_text.append(" ");
    details_text.append(note.as_str());
    let operation = new_operation(
        identity.0.as_str(),
        record.uid,
        pending,
        action,
        backend_text,
        why,
        result,
        details_text,
    );
    state.record_operation(operation, timestamp_ms);
    state.drop_stale_time(identity);
    proof {
        assert forall|full: Seq<Effect>|
            extends(full, backend.trace()) implies #[trigger] freeze_carried(
            s0,
            *record,
            identity@,
            ps,
            pend,
            policy@,
            env,
            reason@,
            timestamp_ms,
            full,
            i0,
        ) == Some((backend.trace().len() as int, state@, CarriedView::Done)) by {
            assert(extends(full, b1.trace()));
            assert(freeze_transaction(pend, false, full, i0) == Some((j, view)));
            assert(full[j] == b2.trace()[j]);
            assert(fallback_carried(
                s1,
                *record,
                identity@,
                pend,
                fallback.action,
                timestamp_ms,
                full,
                j + 1,
            ) is Some);
        }
    }
    Carried::Done
}

// ---------------------------------------------------------------------------
// Stopping by signal
// ---------------------------------------------------------------------------

/// Whether the stops of a direct transaction may be promoted, from process `k` on: only where
/// the ledger holds nothing but stops by signal.
pub open spec fn ledger_clean(ps: Seq<ProcessView>, k: int, log: Seq<Effect>, i: int) -> Option<
    (int, SignalStopLedgerPromotion),
>
    decreases ps.len() - k,
{
    if k >= ps.len() || k < 0 {
        Some((i, SignalStopLedgerPromotion::AfterCompletedDirectTransaction))
    } else {
        match ps[k].start_time_ticks {
            None => Some((i, SignalStopLedgerPromotion::Never)),
            Some(ticks) => match log[i] {
                Effect::Recorded { pid, start, reply } if 0 <= i < log.len() && pid == ps[k].pid
                    && start == ticks => match reply {
                    Err(_) => Some((i + 1, SignalStopLedgerPromotion::Never)),
                    Ok(Some(SignalStopOwnership::ResidualUnknown)) => Some(
                        (i + 1, SignalStopLedgerPromotion::Never),
                    ),
                    Ok(_) => ledger_clean(ps, k + 1, log, i + 1),
                },
                _ => None,
            },
        }
    }
}

/// Whether the stops of a direct transaction may be promoted. Where other freezers may hold
/// the identity, the ledger is not asked.
pub open spec fn promotion_for(
    s: ControlView,
    id: Ident,
    ps: Seq<ProcessView>,
    log: Seq<Effect>,
    i: int,
) -> Option<(int, SignalStopLedgerPromotion)> {
    if unresolved(s, id) {
        Some((i, SignalStopLedgerPromotion::Never))
    } else {
        ledger_clean(ps, 0, log, i)
    }
}

/// Decides whether the stops of a direct transaction may be promoted.
pub fn signal_stop_ledger_promotion<B: ControlBackend>(
    state: &RuntimeControlState,
    identity: &RuntimeIdentity,
    processes: &[RuntimeProcess],
    backend: &mut B,
) -> (r: SignalStopLedgerPromotion)
    requires
        old(backend).ready(),
    ensures
        proceeded(*old(backend), *final(backend)),
        forall|full: Seq<Effect>|
            extends(full, final(backend).trace()) ==> #[trigger] promotion_for(
                state@,
                identity@,
                process_views(processes@),
                full,
                old(backend).trace().len() as int,
            ) == Some((final(backend).trace().len() as int, r)),
{
    if state.has_unresolved_freeze_ownership(identity) {
        return SignalStopLedgerPromotion::Never;
    }
    let ghost ps = process_views(processes@);
    let ghost b0 = *backend;
    let ghost i0 = backend.trace().len() as int;
    let mut k: usize = 0;
    while k < processes.len()
        invariant
            k <= processes@.len(),
            ps == process_views(processes@),
            !unresolved(state@, identity@),
            b0 == *old(backend),
            i0 == b0.trace().len(),
            proceeded(b0, *backend),
            forall|full: Seq<Effect>|
                extends(full, backend.trace()) ==> #[trigger] ledger_clean(ps, 0, full, i0)
                    == ledger_clean(ps, k as int, full, backend.trace().len() as int),
        decreases processes@.len() - k,
    {
        let process = &processes[k];
        assert(ps[k as int] == process@);
        let start_time_ticks = match process.start_time_ticks {
            Some(ticks) => ticks,
            None => {
                return SignalStopLedgerPromotion::Never;
            },
        };
        let ghost i1 = backend.trace().len() as int;
        let allowed = match backend.recorded(process.pid, start_time_ticks) {
            Ok(Some(SignalStopOwnership::ResidualUnknown)) => false,
            Ok(_) => true,
            Err(_) => false,
        };
        if !allowed {
            proof {
                assert forall|full: Seq<Effect>|
                    extends(full, backend.trace()) implies #[trigger] ledger_clean(
                    ps,
                    0,
                    full,
                    i0,
                ) == Some((backend.trace().len() as int, SignalStopLedgerPromotion::Never)) by {
                    assert(full[i1] == backend.trace()[i1]);
                }
            }
            return SignalStopLedgerPromotion::Never;
        }
        proof {
            assert forall|full: Seq<Effect>|
                extends(full, backend.trace()) implies #[trigger] ledger_clean(ps, 0, full, i0)
                == ledger_clean(ps, k + 1, full, backend.trace().len() as int) by {
                assert(full[i1] == backend.trace()[i1]);
            }
        }
        k += 1;
    }
    SignalStopLedgerPromotion::AfterCompletedDirectTransaction
}

/// Stopping all processes of an identity by signal.
pub open spec fn stop_carried(
    s: ControlView,
    record: ManagerAppConfigRecord,
    id: Ident,
    ps: Seq<ProcessView>,
    pending: Seq<ProcessView>,
    reason: Seq<char>,
    at: u128,
    log: Seq<Effect>,
    i: int,
) -> Option<(int, ControlView, CarriedView)> {
    match promotion_for(s, id, pending, log, i) {
        None => None,
        Some((j, promotion)) => match stop_transaction(pending, promotion, log, j) {
            None => None,
            Some((j2, out)) => match out.failure {
                None => Some(
                    (
                        j2,
                        not_pending(
                            with_network(
                                track(s, id, at, promotion_ownership(promotion)),
                                record,
                            ),
                            id,
                        ),
                        CarriedView::ToLog(ControlAction::Freeze, OperationResult::Success),
                    ),
                ),
                Some(failure) => {
                    let s1 = if is_shared_uid_failure(failure) {
                        blocked(s, id, signature(ps))
                    } else {
                        s
                    };
                    let s2 = if out.rollback_failures > 0 {
                        track(s1, id, at, FrozenOwnership::ResidualUnknown)
                    } else {
                        s1
                    };
                    Some(
                        (
                            j2,
                            without_stale_time(
                                not_pending(
                                    recorded(
                                        s2,
                                        operation_on(
                                            id.0,
                                            record.uid,
                                            pending,
                                            ControlAction::Freeze,
                                            "signal.stop"@,
                                            reason + "; "@ + failure,
                                            if out.rollback_failures == 0 {
                                                OperationResult::Failed
                                            } else {
                                                OperationResult::Partial
                                            },
                                            counted(
                                                counted(
                                                    counted(
                                                        details(pending),
                                                        " signaled="@,
                                                        out.applied,
                                                    ),
                                                    " rolled_back="@,
                                                    out.rolled_back,
                                                ),
                                                " rollback_failures="@,
                                                out.rollback_failures,
                                            ),
                                        ),
                                        at,
                                    ),
                                    id,
                                ),
                                id,
                            ),
                            CarriedView::Done,
                        ),
                    )
                },
            },
        },
    }
}

/// Stops all processes of an identity by signal.
#[allow(clippy::too_many_arguments)]
pub fn carry_out_stop<B: ControlBackend>(
    state: &mut RuntimeControlState,
    record: &ManagerAppConfigRecord,
    identity: &RuntimeIdentity,
    processes: &[RuntimeProcess],
    pending: &[RuntimeProcess],
    reason: &str,
    backend: &mut B,
    timestamp_ms: u128,
) -> (r: Carried)
    requires
        old(backend).ready(),
    ensures
        sound_change(old(state)@, final(state)@),
        proceeded(*old(backend), *final(backend)),
        forall|full: Seq<Effect>|
            extends(full, final(backend).trace()) ==> #[trigger] stop_carried(
                old(state)@,
                *record,
                identity@,
                process_views(processes@),
                process_views(pending@),
                reason@,
                timestamp_ms,
                full,
                old(backend).trace().len() as int,
            ) == Some((final(backend).trace().len() as int, final(state)@, r@)),
{
    let ghost s0 = state@;
    let ghost ps = process_views(processes@);
    let ghost pend = process_views(pending@);
    let ghost i0 = backend.trace().len() as int;
    let promotion = signal_stop_ledger_promotion(state, identity, pending, backend);
    let ghost b1 = *backend;
    let ghost j = backend.trace().len() as int;
    let out = apply_signal_stop_freeze_transaction(pending, promotion, backend);
    let ghost view = out@;
    proof {
        assert forall|full: Seq<Effect>| extends(full, backend.trace()) implies #[trigger] promotion_for(
            s0,
            identity@,
            pend,
            full,
            i0,
        ) == Some((j, promotion)) && stop_transaction(pend, promotion, full, j) == Some(
            (backend.trace().len() as int, view),
        ) by {
            assert(extends(full, b1.trace()));
        }
    }
    let failure = match out.failure {
        Some(failure) => failure,
        None => {
            state.track_frozen(
                copy_identity(identity),
                timestamp_ms,
                promotion.frozen_ownership(),
            );
            request_network(state, record);
            state.drop_pending(identity);
            return Carried::ToLog(ControlAction::Freeze, OperationResult::Success);
        },
    };
    if has(failure.as_str(), "shared uid contains multiple package identities") {
        state.block(identity, processes);
    }
    if out.rollback_failures > 0 {
        state.track_frozen(
            copy_identity(identity),
            timestamp_ms,
            FrozenOwnership::ResidualUnknown,
        );
    }
    let mut why = text(reason);
    why.append("; ");
    why.append(failure.as_str());
    let mut note = operation_details(pending);
    add_count(&mut note, " signaled=", out.applied);
    add_count(&mut note, " rolled_back=", out.rolled_back);
    add_count(&mut note, " rollback_failures=", out.rollback_failures);
    let result = if out.rollback_failures == 0 {
        OperationResult::Failed
    } else {
        OperationResult::Partial
    };
    let operation = new_operation(
        identity.0.as_str(),
        record.uid,
        pending,
        ControlAction::Freeze,
        text("signal.stop"),
        why,
        result,
        note,
    );
    state.record_operation(operation, timestamp_ms);
    state.drop_pending(identity);
    state.drop_stale_time(identity);
    Carried::Done
}

// ---------------------------------------------------------------------------
// Killing
// ---------------------------------------------------------------------------

/// Killing all processes of an identity.
pub open spec fn kill_carried(
    s: ControlView,
    record: ManagerAppConfigRecord,
    id: Ident,
    pending: Seq<ProcessView>,
    reason: Seq<char>,
    at: u128,
    log: Seq<Effect>,
    i: int,
) -> Option<(int, ControlView, CarriedView)> {
    match kill_transaction(pending, log, i) {
        None => None,
        Some((j, out)) => match out.failure {
            None => Some(
                (
                    j,
                    cleared(not_pending(s, id), id),
                    CarriedView::ToLog(ControlAction::Terminate, OperationResult::Success),
                ),
            ),
            Some(failure) => Some(
                (
                    j,
                    recorded(
                        s,
                        operation_on(
                            id.0,
                            record.uid,
                            pending,
                            ControlAction::Terminate,
                            "signal.kill"@,
                            reason + "; "@ + failure,
                            if out.applied == 0 {
                                OperationResult::Failed
                            } else {
                                OperationResult::Partial
                            },
                            counted(details(pending), " sigkill_applied="@, out.applied),
                        ),
                        at,
                    ),
                    CarriedView::Done,
                ),
            ),
        },
    }
}

/// Kills all processes of an identity.
pub fn carry_out_kill<B: ControlBackend>(
    state: &mut RuntimeControlState,
    record: &ManagerAppConfigRecord,
    identity: &RuntimeIdentity,
    pending: &[RuntimeProcess],
    reason: &str,
    backend: &mut B,
    timestamp_ms: u128,
) -> (r: Carried)
    requires
        old(backend).ready(),
    ensures
        sound_change(old(state)@, final(state)@),
        proceeded(*old(backend), *final(backend)),
        forall|full: Seq<Effect>|
            extends(full, final(backend).trace()) ==> #[trigger] kill_carried(
                old(state)@,
                *record,
                identity@,
                process_views(pending@),
                reason@,
                timestamp_ms,
                full,
                old(backend).trace().len() as int,
            ) == Some((final(backend).trace().len() as int, final(state)@, r@)),
{
    let out = apply_terminate_transaction(pending, backend);
    let failure = match out.failure {
        Some(failure) => failure,
        None => {
            state.drop_pending(identity);
            state.clear_frozen(identity);
            return Carried::ToLog(ControlAction::Terminate, OperationResult::Success);
        },
    };
    let mut why = text(reason);
    why.append("; ");
    why.append(failure.as_str());
    let mut note = operation_details(pending);
    add_count(&mut note, " sigkill_applied=", out.applied);
    let result = if out.applied == 0 {
        OperationResult::Failed
    } else {
        OperationResult::Partial
    };
    let operation = new_operation(
        identity.0.as_str(),
        record.uid,
        pending,
        ControlAction::Terminate,
        text("signal.kill"),
        why,
        result,
        note,
    );
    state.record_operation(operation, timestamp_ms);
    Carried::Done
}

// ---------------------------------------------------------------------------
// Deciding and carrying out
// ---------------------------------------------------------------------------

/// The decision for the processes of an identity: fixed by the mode, or taken by the freezer
/// backend.
pub open spec fn decided(
    record: ManagerAppConfigRecord,
    settings: Seq<u8>,
    app: AppView,
    pending: Seq<ProcessView>,
    env: BackendEnvironment,
    log: Seq<Effect>,
    i: int,
) -> Option<(int, DecisionView)> {
    match requested_backend(record.mode, settings) {
        RequestedControlBackend::Terminate => Some(
            (
                i,
                DecisionView {
                    action: DecisionAction::Terminate,
                    reason: "SIGKILL selected by manager policy"@,
                },
            ),
        ),
        RequestedControlBackend::Signal => Some(
            (
                i,
                DecisionView {
                    action: DecisionAction::Signal,
                    reason: if record.mode == 20 || record.mode == 21 {
                        "SIGSTOP selected by manager policy"@
                    } else {
                        "global SIGSTOP selected for freezer policy"@
                    },
                },
            ),
        ),
        RequestedControlBackend::Freezer => match log[i] {
            Effect::Decide { app: a, policy, processes, environment: e, reply } if 0 <= i
                < log.len() && a == app && policy == record_policy(
                record,
            ) && processes == pending && e == env => Some((i + 1, reply)),
            _ => None,
        },
    }
}

/// Decides what to do with the processes of an identity.
fn decide_now<B: ControlBackend>(
    record: &ManagerAppConfigRecord,
    settings: &[u8],
    app: &ManagedApp,
    policy: &FreezePolicy,
    pending: &[RuntimeProcess],
    env: BackendEnvironment,
    backend: &mut B,
) -> (r: FreezeDecision)
    requires
        old(backend).ready(),
        policy@ == record_policy(*record),
    ensures
        proceeded(*old(backend), *final(backend)),
        forall|full: Seq<Effect>|
            extends(full, final(backend).trace()) ==> #[trigger] decided(
                *record,
                settings@,
                app@,
                process_views(pending@),
                env,
                full,
                old(backend).trace().len() as int,
            ) == Some((final(backend).trace().len() as int, r@)),
{
    match requested_control_backend(record, settings) {
        RequestedControlBackend::Terminate => FreezeDecision {
            action: DecisionAction::Terminate,
            reason: text("SIGKILL selected by manager policy"),
        },
        RequestedControlBackend::Signal => FreezeDecision {
            action: DecisionAction::Signal,
            reason: if record.mode == 20 || record.mode == 21 {
                text("SIGSTOP selected by manager policy")
            } else {
                text("global SIGSTOP selected for freezer policy")
            },
        },
        RequestedControlBackend::Freezer => {
            let ghost i0 = backend.trace().len() as int;
            let decision = backend.decide(app, policy, pending, env);
            proof {
                assert forall|full: Seq<Effect>|
                    extends(full, backend.trace()) implies #[trigger] decided(
                    *record,
                    settings@,
                    app@,
                    process_views(pending@),
                    env,
                    full,
                    i0,
                ) == Some((backend.trace().len() as int, decision@)) by {
                    assert(full[i0] == backend.trace()[i0]);
                }
            }
            decision
        },
    }
}

/// Carrying out a decision.
pub open spec fn decision_carried(
    s: ControlView,
    record: ManagerAppConfigRecord,
    id: Ident,
    ps: Seq<ProcessView>,
    pending: Seq<ProcessView>,
    env: BackendEnvironment,
    decision: DecisionView,
    at: u128,
    log: Seq<Effect>,
    i: int,
) -> Option<(int, ControlView, CarriedView)> {
    match decision.action {
        DecisionAction::Freeze => freeze_carried(
            s,
            record,
            id,
            ps,
            pending,
            record_policy(record),
            env,
            decision.reason,
            at,
            log,
            i,
        ),
        DecisionAction::Signal => stop_carried(
            s,
            record,
            id,
            ps,
            pending,
            decision.reason,
            at,
            log,
            i,
        ),
        DecisionAction::Terminate => kill_carried(
            s,
            record,
            id,
            pending,
            decision.reason,
            at,
            log,
            i,
        ),
        DecisionAction::Postpone => Some(
            (i, s, CarriedView::ToLog(ControlAction::Postpone, OperationResult::Postponed)),
        ),
        DecisionAction::AlternateFreezer => Some(
            (i, s, CarriedView::ToLog(ControlAction::Fallback, OperationResult::Failed)),
        ),
        DecisionAction::Skip => Some(
            (i, s, CarriedView::ToLog(ControlAction::Skip, OperationResult::Skipped)),
        ),
    }
}

#[allow(clippy::too_many_arguments)]
fn carry_out_decision<B: ControlBackend>(
    state: &mut RuntimeControlState,
    record: &ManagerAppConfigRecord,
    identity: &RuntimeIdentity,
    processes: &[RuntimeProcess],
    pending: &[RuntimeProcess],
    policy: &FreezePolicy,
    env: BackendEnvironment,
    decision: &FreezeDecision,
    backend: &mut B,
    timestamp_ms: u128,
) -> (r: Carried)
    requires
        old(backend).ready(),
        policy@ == record_policy(*record),
    ensures
        sound_change(old(state)@, final(state)@),
        proceeded(*old(backend), *final(backend)),
        forall|full: Seq<Effect>|
            extends(full, final(backend).trace()) ==> #[trigger] decision_carried(
                old(state)@,
                *record,
                identity@,
                process_views(processes@),
                process_views(pending@),
                env,
                decision@,
                timestamp_ms,
                full,
                old(backend).trace().len() as int,
            ) == Some((final(backend).trace().len() as int, final(state)@, r@)),
{
    let reason = decision.reason.as_str();
    match decision.action {
        DecisionAction::Freeze => carry_out_freeze(
            state,
            record,
            identity,
            processes,
            pending,
            policy,
            env,
            reason,
            backend,
            timestamp_ms,
        ),
        DecisionAction::Signal => carry_out_stop(
            state,
            record,
            identity,
            processes,
            pending,
            reason,
            backend,
            timestamp_ms,
        ),
        DecisionAction::Terminate => carry_out_kill(
            state,
            record,
            identity,
            pending,
            reason,
            backend,
            timestamp_ms,
        ),
        DecisionAction::Postpone => Carried::ToLog(
            ControlAction::Postpone,
            OperationResult::Postponed,
        ),
        DecisionAction::AlternateFreezer => Carried::ToLog(
            ControlAction::Fallback,
            OperationResult::Failed,
        ),
        DecisionAction::Skip => Carried::ToLog(ControlAction::Skip, OperationResult::Skipped),
    }
}

/// The name under which a carried out decision is logged.
pub open spec fn decision_backend(
    action: DecisionAction,
    requested: RequestedControlBackend,
    pending: Seq<ProcessView>,
) -> Seq<char> {
    if action == DecisionAction::Signal {
        "signal.stop"@
    } else {
        requested_name(requested, pending)
    }
}

/// The reason under which a carried out decision is logged.
pub open spec fn decision_reason(reason: Seq<char>, abnormal: bool) -> Seq<char> {
    if abnormal {
        "abnormal thaw audit; "@ + reason
    } else {
        reason
    }
}

/// Acting on the processes of an identity: deciding, carrying out and logging. The error ends
/// the pass.
pub open spec fn acted(
    s: ControlView,
    record: ManagerAppConfigRecord,
    settings: Seq<u8>,
    app: AppView,
    id: Ident,
    ps: Seq<ProcessView>,
    abnormal: bool,
    binder: bool,
    at: u128,
    log: Seq<Effect>,
    i: int,
) -> Option<(int, ControlView, Option<ErrorView>)> {
    let pending = all_with_control_state(ps, ControlState::PendingFreeze);
    let env = environment(pending, binder);
    match decided(record, settings, app, pending, env, log, i) {
        None => None,
        Some((j, decision)) => match decision_carried(
            s,
            record,
            id,
            ps,
            pending,
            env,
            decision,
            at,
            log,
            j,
        ) {
            None => None,
            Some((j2, s2, CarriedView::Done)) => Some((j2, s2, None)),
            Some((j2, s2, CarriedView::Broken(e))) => Some((j2, s2, Some(e))),
            Some((j2, s2, CarriedView::ToLog(action, result))) => Some(
                (
                    j2,
                    recorded(
                        without_stale_time(s2, id),
                        operation_on(
                            id.0,
                            record.uid,
                            pending,
                            action,
                            decision_backend(
                                decision.action,
                                requested_backend(record.mode, settings),
                                pending,
                            ),
                            decision_reason(decision.reason, abnormal),
                            result,
                            details(pending),
                        ),
                        at,
                    ),
                    None,
                ),
            ),
        },
    }
}

/// Acts on the processes of an identity.
#[allow(clippy::too_many_arguments)]
pub fn act<B: ControlBackend>(
    state: &mut RuntimeControlState,
    record: &ManagerAppConfigRecord,
    settings: &[u8],
    app: &ManagedApp,
    policy: &FreezePolicy,
    identity: &RuntimeIdentity,
    processes: &[RuntimeProcess],
    abnormal_thaw: bool,
    binder_available: bool,
    backend: &mut B,
    timestamp_ms: u128,
) -> (r: Result<(), DaemonError>)
    requires
        old(backend).ready(),
        policy@ == record_policy(*record),
    ensures
        sound_change(old(state)@, final(state)@),
        proceeded(*old(backend), *final(backend)),
        forall|full: Seq<Effect>|
            extends(full, final(backend).trace()) ==> #[trigger] acted(
                old(state)@,
                *record,
                settings@,
                app@,
                identity@,
                process_views(processes@),
                abnormal_thaw,
                binder_available,
                timestamp_ms,
                full,
                old(backend).trace().len() as int,
            ) == Some((final(backend).trace().len() as int, final(state)@, failure_of(r))),
{
    let ghost s0 = state@;
    let ghost ps = process_views(processes@);
    let ghost i0 = backend.trace().len() as int;
    let pending = copy_with_control_state(processes, ControlState::PendingFreeze);
    let ghost pend = process_views(pending@);
    let env = backend_environment(pending.as_slice(), binder_available);
    let decision = decide_now(record, settings, app, policy, pending.as_slice(), env, backend);
    let ghost b1 = *backend;
    let ghost j = backend.trace().len() as int;
    let carried = carry_out_decision(
        state,
        record,
        identity,
        processes,
        pending.as_slice(),
        policy,
        env,
        &decision,
        backend,
        timestamp_ms,
    );
    let ghost s2 = state@;
    proof {
        assert forall|full: Seq<Effect>| extends(full, backend.trace()) implies #[trigger] decided(
            *record,
            settings@,
            app@,
            pend,
            env,
            full,
            i0,
        ) == Some((j, decision@)) && decision_carried(
            s0,
            *record,
            identity@,
            ps,
            pend,
            env,
            decision@,
            timestamp_ms,
            full,
            j,
        ) == Some((backend.trace().len() as int, s2, carried@)) by {
            assert(extends(full, b1.trace()));
        }
    }
    match carried {
        Carried::Done => Ok(()),
        Carried::Broken(error) => Err(error),
        Carried::ToLog(action, result) => {
            state.drop_stale_time(identity);
            let backend_text = match decision.action {
                DecisionAction::Signal => text("signal.stop"),
                _ => requested_control_backend(record, settings).operation_backend(
                    pending.as_slice(),
                ),
            };
            let why = if abnormal_thaw {
                let mut why = text("abnormal thaw audit; ");
                why.append(decision.reason.as_str());
                why
            } else {
                text(decision.reason.as_str())
            };
            let operation = new_operation(
                identity.0.as_str(),
                record.uid,
                pending.as_slice(),
                action,
                backend_text,
                why,
                result,
                operation_details(pending.as_slice()),
            );
            state.record_operation(operation, timestamp_ms);
            Ok(())
        },
    }
}

/// The error of a result.
pub open spec fn failure_of(r: Result<(), DaemonError>) -> Option<ErrorView> {
    match r {
        Ok(_) => None,
        Err(e) => Some(e@),
    }
}

} // verus!
