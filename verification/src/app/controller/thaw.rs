//! Thawing frozen identities that leave control.

use vstd::prelude::*;
use vstd::string::*;

use crate::app::controller::port::{extends, proceeded, ControlBackend, Effect};
use crate::app::controller::rules::{
    details, new_operation, operation_details, operation_on, result_of_thaw, thaw_backend,
    thaw_result, unfreeze_backend,
};
use crate::app::controller::state::{
    cleared, owner, recorded, ControlView, RuntimeControlState, sound_change,
};
use crate::app::controller::transaction::{thaw_identity, unfreeze_identity_processes};
use crate::app::error::{error_text, DaemonError, ErrorView};
use crate::domain::identity::{identities, Ident, RuntimeIdentity};
use crate::domain::operation::{ControlAction, OperationResult};
use crate::domain::runtime::{process_views, ProcessView, RuntimeProcess};
use crate::text::{decimal, join, join_strings, number, text, texts};

verus! {

/// The package name under which the processes of a uid are looked up.
pub open spec fn uid_package(uid: u32) -> Seq<char> {
    "uid"@ + decimal(uid as nat)
}

/// The package name under which the processes of a uid are looked up.
pub fn fallback_package(uid: u32) -> (r: String)
    ensures
        r@ == uid_package(uid),
{
    let mut out = text("uid");
    let digits = number(uid as u128);
    out.append(digits.as_str());
    out
}

/// The reply to the discovery of a uid's processes at position `i` of a trace.
pub open spec fn found(log: Seq<Effect>, i: int, uid: u32) -> Option<
    Result<Seq<ProcessView>, ErrorView>,
> {
    match log[i] {
        Effect::Discover { package, uid: u, reply } if 0 <= i < log.len() && u == uid && package
            == uid_package(uid) => Some(reply),
        _ => None,
    }
}

/// The reason of a thaw, with the failures that it met.
pub open spec fn reason_with(reason: Seq<char>, failures: Seq<Seq<char>>) -> Seq<char> {
    if failures.len() == 0 {
        reason
    } else {
        reason + "; "@ + join(failures, "; "@)
    }
}

fn reason_text(reason: &str, failures: &[String]) -> (r: String)
    ensures
        r@ == reason_with(reason@, texts(failures@)),
{
    let mut out = text(reason);
    assert(texts(failures@).len() == failures@.len());
    if failures.len() > 0 {
        out.append("; ");
        let joined = join_strings(failures, "; ");
        out.append(joined.as_str());
    }
    out
}

/// Thawing one identity that leaves control: an identity without processes is forgotten, one
/// whose processes could not all be thawed stays frozen. Gives the failures.
pub open spec fn thaw_one(
    s: ControlView,
    id: Ident,
    reason: Seq<char>,
    at: u128,
    log: Seq<Effect>,
    i: int,
) -> Option<(int, ControlView, Seq<Seq<char>>)> {
    match found(log, i, id.1) {
        None => None,
        Some(Err(e)) => {
            let message = reason + "; process discovery failed: "@ + error_text(e);
            Some(
                (
                    i + 1,
                    recorded(
                        s,
                        operation_on(
                            id.0,
                            id.1,
                            seq![],
                            ControlAction::Unfreeze,
                            "recovery"@,
                            message,
                            OperationResult::Failed,
                            "process_count=0"@,
                        ),
                        at,
                    ),
                    seq![message],
                ),
            )
        },
        Some(Ok(ps)) => if ps.len() == 0 {
            Some((i + 1, cleared(s, id), seq![]))
        } else {
            match thaw_identity(id.0, ps, owner(s, id), log, i + 1) {
                None => None,
                Some((j, out)) => Some(
                    (
                        j,
                        recorded(
                            if out.failures.len() == 0 {
                                cleared(s, id)
                            } else {
                                s
                            },
                            operation_on(
                                id.0,
                                id.1,
                                ps,
                                ControlAction::Unfreeze,
                                thaw_backend(owner(s, id), ps),
                                reason_with(reason, out.failures),
                                thaw_result(out.applied, out.failures.len()),
                                details(ps),
                            ),
                            at,
                        ),
                        out.failures,
                    ),
                ),
            }
        },
    }
}

/// Thawing the identities from the `k`-th on, one after the other.
pub open spec fn thaw_each(
    s: ControlView,
    ids: Seq<Ident>,
    k: int,
    reason: Seq<char>,
    at: u128,
    log: Seq<Effect>,
    i: int,
    failures: Seq<Seq<char>>,
) -> Option<(int, ControlView, Seq<Seq<char>>)>
    decreases ids.len() - k,
{
    if k >= ids.len() || k < 0 {
        Some((i, s, failures))
    } else {
        match thaw_one(s, ids[k], reason, at, log, i) {
            None => None,
            Some((j, s1, more)) => thaw_each(s1, ids, k + 1, reason, at, log, j, failures + more),
        }
    }
}

/// The result of thawing: an error that joins the failures, if there are any.
pub open spec fn thaw_verdict(failures: Seq<Seq<char>>) -> Result<(), ErrorView> {
    if failures.len() == 0 {
        Ok(())
    } else {
        Err(ErrorView::System(join(failures, "; "@)))
    }
}

fn thaw_identity_now<B: ControlBackend>(
    state: &mut RuntimeControlState,
    identity: &RuntimeIdentity,
    backend: &mut B,
    timestamp_ms: u128,
    reason: &str,
) -> (r: Vec<String>)
    requires
        old(backend).ready(),
    ensures
        sound_change(old(state)@, final(state)@),
        proceeded(*old(backend), *final(backend)),
        forall|full: Seq<Effect>|
            extends(full, final(backend).trace()) ==> #[trigger] thaw_one(
                old(state)@,
                identity@,
                reason@,
                timestamp_ms,
                full,
                old(backend).trace().len() as int,
            ) == Some((final(backend).trace().len() as int, final(state)@, texts(r@))),
{
    let ghost s0 = state@;
    let ghost i0 = backend.trace().len() as int;
    let package_name = identity.0.as_str();
    let uid = identity.1;
    let lookup = fallback_package(uid);
    let processes = match backend.discover(lookup.as_str(), uid) {
        Ok(processes) => processes,
        Err(error) => {
            let mut message = text(reason);
            message.append("; process discovery failed: ");
            message.append(error.message());
            let none: Vec<RuntimeProcess> = Vec::new();
            assert(process_views(none@) =~= seq![]);
            let operation = new_operation(
                package_name,
                uid,
                none.as_slice(),
                ControlAction::Unfreeze,
                text("recovery"),
                text(message.as_str()),
                OperationResult::Failed,
                text("process_count=0"),
            );
            state.record_operation(operation, timestamp_ms);
            let mut failures: Vec<String> = Vec::new();
            failures.push(message);
            assert(texts(failures@) =~= seq![message@]);
            proof {
                assert forall|full: Seq<Effect>|
                    extends(full, backend.trace()) implies #[trigger] thaw_one(
                    s0,
                    identity@,
                    reason@,
                    timestamp_ms,
                    full,
                    i0,
                ) == Some((backend.trace().len() as int, state@, texts(failures@))) by {
                    assert(full[i0] == backend.trace()[i0]);
                }
            }
            return failures;
        },
    };
    let ghost ps = process_views(processes@);
    let ghost b1 = *backend;
    if processes.len() == 0 {
        state.clear_frozen(identity);
        let failures: Vec<String> = Vec::new();
        assert(texts(failures@) =~= seq![]);
        proof {
            assert forall|full: Seq<Effect>|
                extends(full, backend.trace()) implies #[trigger] thaw_one(
                s0,
                identity@,
                reason@,
                timestamp_ms,
                full,
                i0,
            ) == Some((backend.trace().len() as int, state@, texts(failures@))) by {
                assert(full[i0] == backend.trace()[i0]);
            }
        }
        return failures;
    }
    let ownership = state.frozen_ownership(identity);
    let out = unfreeze_identity_processes(package_name, processes.as_slice(), ownership, backend);
    let failures = out.failures;
    assert(texts(failures@).len() == failures@.len());
    if failures.len() == 0 {
        state.clear_frozen(identity);
    }
    let operation = new_operation(
        package_name,
        uid,
        processes.as_slice(),
        ControlAction::Unfreeze,
        unfreeze_backend(ownership, processes.as_slice()),
        reason_text(reason, failures.as_slice()),
        result_of_thaw(out.applied, failures.len()),
        operation_details(processes.as_slice()),
    );
    state.record_operation(operation, timestamp_ms);
    proof {
        assert forall|full: Seq<Effect>|
            extends(full, backend.trace()) implies #[trigger] thaw_one(
            s0,
            identity@,
            reason@,
            timestamp_ms,
            full,
            i0,
        ) == Some((backend.trace().len() as int, state@, texts(failures@))) by {
            assert(full[i0] == b1.trace()[i0]);
            assert(thaw_identity(identity@.0, ps, ownership, full, i0 + 1) is Some);
        }
    }
    failures
}

/// Thaws the identities one after the other. An identity that could not be thawed stays
/// frozen, and the others are tried nevertheless.
pub fn thaw_frozen_identities<B: ControlBackend>(
    state: &mut RuntimeControlState,
    list: &[RuntimeIdentity],
    backend: &mut B,
    timestamp_ms: u128,
    reason: &str,
) -> (r: Vec<String>)
    requires
        old(backend).ready(),
    ensures
        sound_change(old(state)@, final(state)@),
        proceeded(*old(backend), *final(backend)),
        forall|full: Seq<Effect>|
            extends(full, final(backend).trace()) ==> #[trigger] thaw_each(
                old(state)@,
                identities(list@),
                0,
                reason@,
                timestamp_ms,
                full,
                old(backend).trace().len() as int,
                seq![],
            ) == Some((final(backend).trace().len() as int, final(state)@, texts(r@))),
{
    let ghost s0 = state@;
    let ghost b0 = *backend;
    let ghost i0 = backend.trace().len() as int;
    let ghost ids = identities(list@);
    let mut failures: Vec<String> = Vec::new();
    assert(texts(failures@) =~= seq![]);
    let mut k: usize = 0;
    while k < list.len()
        invariant
            k <= list@.len(),
            ids == identities(list@),
            s0 == old(state)@,
            sound_change(s0, state@),
            b0 == *old(backend),
            i0 == b0.trace().len(),
            proceeded(b0, *backend),
            forall|full: Seq<Effect>|
                extends(full, backend.trace()) ==> #[trigger] thaw_each(
                    s0,
                    ids,
                    0,
                    reason@,
                    timestamp_ms,
                    full,
                    i0,
                    seq![],
                ) == thaw_each(
                    state@,
                    ids,
                    k as int,
                    reason@,
                    timestamp_ms,
                    full,
                    backend.trace().len() as int,
                    texts(failures@),
                ),
        decreases list@.len() - k,
    {
        assert(ids[k as int] == list@[k as int]@);
        let ghost s1 = state@;
        let ghost i1 = backend.trace().len() as int;
        let ghost done = texts(failures@);
        let mut more = thaw_identity_now(state, &list[k], backend, timestamp_ms, reason);
        let ghost added = texts(more@);
        failures.append(&mut more);
        assert(texts(failures@) =~= done + added);
        proof {
            assert forall|full: Seq<Effect>|
                extends(full, backend.trace()) implies #[trigger] thaw_each(
                s0,
                ids,
                0,
                reason@,
                timestamp_ms,
                full,
                i0,
                seq![],
            ) == thaw_each(
                state@,
                ids,
                k + 1,
                reason@,
                timestamp_ms,
                full,
                backend.trace().len() as int,
                texts(failures@),
            ) by {
                assert(thaw_one(s1, ids[k as int], reason@, timestamp_ms, full, i1) is Some);
            }
        }
        k += 1;
    }
    failures
}

/// The result of thawing.
pub fn thaw_result_of(failures: &[String]) -> (r: Result<(), DaemonError>)
    ensures
        match r {
            Ok(v) => thaw_verdict(texts(failures@)) == Ok::<(), ErrorView>(v),
            Err(e) => thaw_verdict(texts(failures@)) == Err::<(), ErrorView>(e@),
        },
{
    assert(texts(failures@).len() == failures@.len());
    if failures.len() == 0 {
        Ok(())
    } else {
        let joined = join_strings(failures, "; ");
        Err(DaemonError::system(joined.as_str()))
    }
}

} // verus!
