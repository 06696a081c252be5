//! One pass of the control loop over the configured applications.

use vstd::prelude::*;
use vstd::string::*;

use crate::app::controller::carry::{act, acted, failure_of};
use crate::app::controller::port::{discovered, extends, proceeded, ControlBackend, Effect};
use crate::app::controller::rules::{
    audit, backend_name, controls, details, freezer_name, is_control_policy_mode, is_system_uid,
    least_package, least_package_name, managed_app, managed_app_from_record,
    manager_policy_delay_ms, manager_wakeup_duration_ms, manager_wakeup_interval_ms, new_operation,
    operation_details, operation_on, periodic_wakeup_due, policy_delay, policy_from_record,
    record_policy, refreeze_audit_due, result_of_thaw, saturated, system_uid, thaw_backend,
    thaw_result, unfreeze_backend, wakeup_due, wakeup_duration, wakeup_interval, well_timed,
    add_saturating, LATEST_TIMESTAMP_MS,
};
use crate::app::controller::state::{
    cleared, is_blocked, not_pending, owner, pending_due, postponed, recorded, seen_running,
    signature, transient_cleared, unblocked, without_detached, without_stale_time, ControlView,
    RuntimeControlState, in_step, sound_change,
};
use crate::app::controller::thaw::{fallback_package, found, thaw_each, thaw_frozen_identities};
use crate::app::controller::transaction::{
    thaw_identity, unfreeze_identity_processes, FrozenOwnership, ThawView,
};
use crate::app::download_deferral::{
    deferral, is_candidate, is_candidate_package, DownloadDeferralAction, UidRxSample,
    DOWNLOAD_RETRY_DELAY_MS, INITIAL_SAMPLE_DELAY_MS,
};
use crate::app::error::{DaemonError, ErrorView};
use crate::domain::identity::{
    contains_uid, identities, only_uids, ordered, Ident, RuntimeIdentity,
};
use crate::domain::operation::{ControlAction, OperationResult};
use crate::domain::policy::{control_allowed, AppView, FreezePolicy, ManagedApp};
use crate::domain::runtime::{process_views, ControlState, ProcessView, RuntimeProcess};
use crate::domain::uids::{at_listed, retain_listed, retain_listed_keys};
use crate::protocol::records::ManagerAppConfigRecord;
use crate::text::{decimal, join, join_strings, number, text, texts};

verus! {

/// What a pass is given beside the configuration.
pub ghost struct PassInput {
    pub settings: Seq<u8>,
    pub foreground: Seq<u32>,
    pub binder: bool,
    pub at: u128,
}

/// What a pass is given beside the configuration.
#[derive(Clone, Copy)]
pub struct PassContext<'a> {
    pub settings: &'a [u8],
    pub foreground_uids: &'a [u32],
    pub binder_available: bool,
    pub timestamp_ms: u128,
}

impl View for PassContext<'_> {
    type V = PassInput;

    open spec fn view(&self) -> PassInput {
        PassInput {
            settings: self.settings@,
            foreground: self.foreground_uids@,
            binder: self.binder_available,
            at: self.timestamp_ms,
        }
    }
}

// ---------------------------------------------------------------------------
// Thawing an identity within a pass
// ---------------------------------------------------------------------------

/// Logs a thaw within a pass.
pub open spec fn thaw_logged(
    s: ControlView,
    uid: u32,
    id: Ident,
    ps: Seq<ProcessView>,
    out: ThawView,
    own: FrozenOwnership,
    reason: Seq<char>,
    at: u128,
) -> ControlView {
    recorded(
        s,
        operation_on(
            id.0,
            uid,
            ps,
            ControlAction::Unfreeze,
            thaw_backend(own, ps),
            reason,
            thaw_result(out.applied, out.failures.len()),
            details(ps),
        ),
        at,
    )
}

/// An application in the foreground: its postponed freeze is dropped, and it is thawed where
/// it is frozen. It stays frozen where a process could not be thawed.
pub open spec fn foreground_step(
    s: ControlView,
    uid: u32,
    id: Ident,
    ps: Seq<ProcessView>,
    at: u128,
    log: Seq<Effect>,
    i: int,
) -> Option<(int, ControlView)> {
    let s1 = not_pending(s, id);
    if !s1.frozen.contains(id) {
        Some((i, s1))
    } else {
        match thaw_identity(id.0, ps, owner(s1, id), log, i) {
            None => None,
            Some((j, out)) => Some(
                (
                    j,
                    thaw_logged(
                        if out.failures.len() == 0 {
                            cleared(s1, id)
                        } else {
                            s1
                        },
                        uid,
                        id,
                        ps,
                        out,
                        owner(s1, id),
                        if out.failures.len() == 0 {
                            "foreground uid active"@
                        } else {
                            join(out.failures, "; "@)
                        },
                        at,
                    ),
                ),
            ),
        }
    }
}

fn step_foreground<B: ControlBackend>(
    state: &mut RuntimeControlState,
    uid: u32,
    identity: &RuntimeIdentity,
    processes: &[RuntimeProcess],
    backend: &mut B,
    timestamp_ms: u128,
)
    requires
        old(backend).ready(),
    ensures
        sound_change(old(state)@, final(state)@),
        proceeded(*old(backend), *final(backend)),
        forall|full: Seq<Effect>|
            extends(full, final(backend).trace()) ==> #[trigger] foreground_step(
                old(state)@,
                uid,
                identity@,
                process_views(processes@),
                timestamp_ms,
                full,
                old(backend).trace().len() as int,
            ) == Some((final(backend).trace().len() as int, final(state)@)),
{
    state.drop_pending(identity);
    if !state.frozen_apps.contains(identity) {
        return;
    }
    let ownership = state.frozen_ownership(identity);
    let out = unfreeze_identity_processes(identity.0.as_str(), processes, ownership, backend);
    assert(texts(out.failures@).len() == out.failures@.len());
    let reason = if out.failures.len() == 0 {
        state.clear_frozen(identity);
        text("foreground uid active")
    } else {
        join_strings(out.failures.as_slice(), "; ")
    };
    let operation = new_operation(
        identity.0.as_str(),
        uid,
        processes,
        ControlAction::Unfreeze,
        unfreeze_backend(ownership, processes),
        reason,
        result_of_thaw(out.applied, out.failures.len()),
        operation_details(processes),
    );
    state.record_operation(operation, timestamp_ms);
}

/// The reason of a periodic wakeup.
pub open spec fn wakeup_reason(settings: Seq<u8>, failures: Seq<Seq<char>>) -> Seq<char> {
    if failures.len() == 0 {
        "periodic wakeup after "@ + decimal(
            match wakeup_interval(settings) {
                Some(interval) => interval as nat,
                None => 0,
            },
        ) + "ms; refreeze in "@ + decimal(wakeup_duration(settings) as nat) + "ms"@
    } else {
        "periodic wakeup failed; "@ + join(failures, "; "@)
    }
}

/// A periodic wakeup: the application is thawed and its next freeze is due after the wakeup
/// time.
pub open spec fn wakeup_step(
    s: ControlView,
    uid: u32,
    id: Ident,
    ps: Seq<ProcessView>,
    settings: Seq<u8>,
    at: u128,
    log: Seq<Effect>,
    i: int,
) -> Option<(int, ControlView)> {
    match thaw_identity(id.0, ps, owner(s, id), log, i) {
        None => None,
        Some((j, out)) => Some(
            (
                j,
                thaw_logged(
                    if out.failures.len() == 0 {
                        postponed(
                            cleared(s, id),
                            id,
                            saturated(at, wakeup_duration(settings)),
                        )
                    } else {
                        s
                    },
                    uid,
                    id,
                    ps,
                    out,
                    owner(s, id),
                    wakeup_reason(settings, out.failures),
                    at,
                ),
            ),
        ),
    }
}

fn write_wakeup_reason(settings: &[u8], failures: &[String]) -> (r: String)
    ensures
        r@ == wakeup_reason(settings@, texts(failures@)),
{
    assert(texts(failures@).len() == failures@.len());
    if failures.len() == 0 {
        let mut out = text("periodic wakeup after ");
        let interval: u128 = match manager_wakeup_interval_ms(settings) {
            Some(interval) => interval,
            None => 0,
        };
        let digits = number(interval);
        out.append(digits.as_str());
        out.append("ms; refreeze in ");
        let digits = number(manager_wakeup_duration_ms(settings));
        out.append(digits.as_str());
        out.append("ms");
        out
    } else {
        let mut out = text("periodic wakeup failed; ");
        let joined = join_strings(failures, "; ");
        out.append(joined.as_str());
        out
    }
}

fn step_wakeup<B: ControlBackend>(
    state: &mut RuntimeControlState,
    uid: u32,
    identity: &RuntimeIdentity,
    processes: &[RuntimeProcess],
    settings: &[u8],
    backend: &mut B,
    timestamp_ms: u128,
)
    requires
        old(backend).ready(),
    ensures
        sound_change(old(state)@, final(state)@),
        proceeded(*old(backend), *final(backend)),
        forall|full: Seq<Effect>|
            extends(full, final(backend).trace()) ==> #[trigger] wakeup_step(
                old(state)@,
                uid,
                identity@,
                process_views(processes@),
                settings@,
                timestamp_ms,
                full,
                old(backend).trace().len() as int,
            ) == Some((final(backend).trace().len() as int, final(state)@)),
{
    let ownership = state.frozen_ownership(identity);
    let out = unfreeze_identity_processes(identity.0.as_str(), processes, ownership, backend);
    assert(texts(out.failures@).len() == out.failures@.len());
    if out.failures.len() == 0 {
        state.clear_frozen(identity);
        let _ = state.postpone(
            identity,
            add_saturating(timestamp_ms, manager_wakeup_duration_ms(settings)),
        );
    }
    let operation = new_operation(
        identity.0.as_str(),
        uid,
        processes,
        ControlAction::Unfreeze,
        unfreeze_backend(ownership, processes),
        write_wakeup_reason(settings, out.failures.as_slice()),
        result_of_thaw(out.applied, out.failures.len()),
        operation_details(processes),
    );
    state.record_operation(operation, timestamp_ms);
}

// ---------------------------------------------------------------------------
// Postponing
// ---------------------------------------------------------------------------

/// Logs that a freeze is postponed.
pub open spec fn postpone_logged(
    s: ControlView,
    uid: u32,
    id: Ident,
    ps: Seq<ProcessView>,
    reason: Seq<char>,
    at: u128,
) -> ControlView {
    recorded(
        s,
        operation_on(
            id.0,
            uid,
            ps,
            ControlAction::Postpone,
            freezer_name(ps),
            reason,
            OperationResult::Postponed,
            details(ps),
        ),
        at,
    )
}

fn log_postpone(
    state: &mut RuntimeControlState,
    uid: u32,
    identity: &RuntimeIdentity,
    processes: &[RuntimeProcess],
    reason: String,
    timestamp_ms: u128,
)
    ensures
        sound_change(old(state)@, final(state)@),
        final(state)@ == postpone_logged(
            old(state)@,
            uid,
            identity@,
            process_views(processes@),
            reason@,
            timestamp_ms,
        ),
{
    let operation = new_operation(
        identity.0.as_str(),
        uid,
        processes,
        ControlAction::Postpone,
        backend_name(processes),
        reason,
        OperationResult::Postponed,
        operation_details(processes),
    );
    state.record_operation(operation, timestamp_ms);
}

/// Whether the delay of the mode lets control go on, and the state after it. A freeze that is
/// not yet due waits; the first attempt sets the due time and is logged.
pub open spec fn delay_step(
    s: ControlView,
    record: ManagerAppConfigRecord,
    id: Ident,
    ps: Seq<ProcessView>,
    abnormal: bool,
    settings: Seq<u8>,
    at: u128,
) -> (ControlView, bool) {
    let delay = policy_delay(record.mode, settings);
    if abnormal || delay == 0 {
        (s, true)
    } else {
        match pending_due(s, id) {
            Some(due) => (s, at >= due),
            None => (
                without_stale_time(
                    postpone_logged(
                        postponed(s, id, (at + delay) as u128),
                        record.uid,
                        id,
                        ps,
                        "pending freeze delay "@ + decimal(delay as nat) + "ms"@,
                        at,
                    ),
                    id,
                ),
                false,
            ),
        }
    }
}

#[allow(clippy::too_many_arguments)]
fn step_delay(
    state: &mut RuntimeControlState,
    record: &ManagerAppConfigRecord,
    identity: &RuntimeIdentity,
    processes: &[RuntimeProcess],
    abnormal_thaw: bool,
    settings: &[u8],
    timestamp_ms: u128,
) -> (r: bool)
    requires
        timestamp_ms <= LATEST_TIMESTAMP_MS,
    ensures
        sound_change(old(state)@, final(state)@),
        (final(state)@, r) == delay_step(
            old(state)@,
            *record,
            identity@,
            process_views(processes@),
            abnormal_thaw,
            settings@,
            timestamp_ms,
        ),
{
    let delay_ms = manager_policy_delay_ms(record, settings);
    if abnormal_thaw || delay_ms == 0 {
        return true;
    }
    match state.pending_freezes.get(identity) {
        Some(due_at_ms) => {
            return timestamp_ms >= *due_at_ms;
        },
        None => {},
    }
    let _ = state.postpone(identity, timestamp_ms + delay_ms as u128);
    let mut reason = text("pending freeze delay ");
    let digits = number(delay_ms as u128);
    reason.append(digits.as_str());
    reason.append("ms");
    log_postpone(state, record.uid, identity, processes, reason, timestamp_ms);
    state.drop_stale_time(identity);
    false
}

/// What a sampling reply says.
pub open spec fn sample_of(reply: Result<Option<u64>, ErrorView>) -> UidRxSample {
    match reply {
        Ok(Some(value)) => UidRxSample::Value(value),
        Ok(None) => UidRxSample::Missing,
        Err(_) => UidRxSample::Failed,
    }
}

/// Whether a download lets control go on, and the state after it. Only download applications
/// are sampled.
pub open spec fn download_step(
    s: ControlView,
    record: ManagerAppConfigRecord,
    id: Ident,
    ps: Seq<ProcessView>,
    at: u128,
    log: Seq<Effect>,
    i: int,
) -> Option<(int, ControlView, bool)> {
    if !is_candidate(id.0) {
        Some((i, ControlView { samples: s.samples.remove(record.uid), ..s }, true))
    } else {
        match log[i] {
            Effect::Sample { uid, package, reply } if 0 <= i < log.len() && uid == record.uid
                && package == id.0 => {
                let (samples, action) = deferral(
                    s.samples,
                    record.uid,
                    id.0,
                    sample_of(reply),
                    at,
                );
                let s1 = ControlView { samples, ..s };
                if action == DownloadDeferralAction::Proceed {
                    Some((i + 1, s1, true))
                } else {
                    let retry = if reply is Ok {
                        INITIAL_SAMPLE_DELAY_MS
                    } else {
                        DOWNLOAD_RETRY_DELAY_MS
                    };
                    let s2 = postponed(s1, id, (at + retry) as u128);
                    let s3 = if pending_due(s1, id) is None {
                        postpone_logged(
                            s2,
                            record.uid,
                            id,
                            ps,
                            if reply is Ok {
                                "download activity sampling/threshold"@
                            } else {
                                "download sampling failed; fail-safe postpone"@
                            },
                            at,
                        )
                    } else {
                        s2
                    };
                    Some((i + 1, without_stale_time(s3, id), false))
                }
            },
            _ => None,
        }
    }
}

fn step_download<B: ControlBackend>(
    state: &mut RuntimeControlState,
    record: &ManagerAppConfigRecord,
    identity: &RuntimeIdentity,
    processes: &[RuntimeProcess],
    backend: &mut B,
    timestamp_ms: u128,
) -> (r: bool)
    requires
        old(backend).ready(),
        timestamp_ms <= LATEST_TIMESTAMP_MS,
    ensures
        sound_change(old(state)@, final(state)@),
        proceeded(*old(backend), *final(backend)),
        forall|full: Seq<Effect>|
            extends(full, final(backend).trace()) ==> #[trigger] download_step(
                old(state)@,
                *record,
                identity@,
                process_views(processes@),
                timestamp_ms,
                full,
                old(backend).trace().len() as int,
            ) == Some((final(backend).trace().len() as int, final(state)@, r)),
{
    let ghost s0 = state@;
    let ghost i0 = backend.trace().len() as int;
    let package_name = identity.0.as_str();
    if !is_candidate_package(package_name) {
        let _ = state.download_deferral.evaluate(
            record.uid,
            package_name,
            UidRxSample::Missing,
            timestamp_ms,
        );
        assert(state@ =~= (ControlView { samples: s0.samples.remove(record.uid), ..s0 }));
        return true;
    }
    let sample = backend.sample(record.uid, package_name);
    let ghost b1 = *backend;
    let value = match &sample {
        Ok(Some(value)) => UidRxSample::Value(*value),
        Ok(None) => UidRxSample::Missing,
        Err(_) => UidRxSample::Failed,
    };
    let action = state.download_deferral.evaluate(record.uid, package_name, value, timestamp_ms);
    assert(state@ =~= (ControlView { samples: state@.samples, ..s0 }));
    let proceed = match action {
        DownloadDeferralAction::Proceed => true,
        DownloadDeferralAction::Postpone => false,
    };
    if !proceed {
        let retry_ms: u64 = if sample.is_ok() {
            INITIAL_SAMPLE_DELAY_MS
        } else {
            DOWNLOAD_RETRY_DELAY_MS
        };
        let previous_due = state.postpone(identity, timestamp_ms + retry_ms as u128);
        if previous_due.is_none() {
            let reason = if sample.is_ok() {
                text("download activity sampling/threshold")
            } else {
                text("download sampling failed; fail-safe postpone")
            };
            log_postpone(state, record.uid, identity, processes, reason, timestamp_ms);
        }
        state.drop_stale_time(identity);
    }
    proof {
        assert forall|full: Seq<Effect>|
            extends(full, backend.trace()) implies #[trigger] download_step(
            s0,
            *record,
            identity@,
            process_views(processes@),
            timestamp_ms,
            full,
            i0,
        ) == Some((backend.trace().len() as int, state@, proceed)) by {
            assert(full[i0] == b1.trace()[i0]);
        }
    }
    proceed
}

// ---------------------------------------------------------------------------
// One application
// ---------------------------------------------------------------------------

/// Whether a process was seen running.
pub open spec fn any_running(ps: Seq<ProcessView>) -> bool {
    exists|i: int| 0 <= i < ps.len() && (#[trigger] ps[i]).control_state == ControlState::Running
}

fn find_running(processes: &[RuntimeProcess]) -> (r: bool)
    ensures
        r == any_running(process_views(processes@)),
{
    let ghost ps = process_views(processes@);
    let mut i: usize = 0;
    while i < processes.len()
        invariant
            i <= processes@.len(),
            ps == process_views(processes@),
            forall|j: int|
                0 <= j < i ==> (#[trigger] ps[j]).control_state != ControlState::Running,
        decreases processes@.len() - i,
    {
        assert(ps[i as int] == processes@[i as int]@);
        if processes[i].control_state == ControlState::Running {
            return true;
        }
        i += 1;
    }
    false
}

/// Control of an application in the background that is not frozen, or was found running: the
/// delay, then the download check, then the action.
pub open spec fn attempt_step(
    s: ControlView,
    record: ManagerAppConfigRecord,
    app: AppView,
    id: Ident,
    ps: Seq<ProcessView>,
    abnormal: bool,
    input: PassInput,
    log: Seq<Effect>,
    i: int,
) -> Option<(int, ControlView, Option<ErrorView>)> {
    let (s1, due) = delay_step(s, record, id, ps, abnormal, input.settings, input.at);
    if !due {
        Some((i, s1, None))
    } else {
        match download_step(s1, record, id, ps, input.at, log, i) {
            None => None,
            Some((j, s2, false)) => Some((j, s2, None)),
            Some((j, s2, true)) => acted(
                s2,
                record,
                input.settings,
                app,
                id,
                ps,
                abnormal,
                input.binder,
                input.at,
                log,
                j,
            ),
        }
    }
}

#[allow(clippy::too_many_arguments)]
fn step_attempt<B: ControlBackend>(
    state: &mut RuntimeControlState,
    record: &ManagerAppConfigRecord,
    app: &ManagedApp,
    policy: &FreezePolicy,
    identity: &RuntimeIdentity,
    processes: &[RuntimeProcess],
    abnormal_thaw: bool,
    context: PassContext,
    backend: &mut B,
) -> (r: Result<(), DaemonError>)
    requires
        old(backend).ready(),
        context.timestamp_ms <= LATEST_TIMESTAMP_MS,
        policy@ == record_policy(*record),
    ensures
        sound_change(old(state)@, final(state)@),
        proceeded(*old(backend), *final(backend)),
        forall|full: Seq<Effect>|
            extends(full, final(backend).trace()) ==> #[trigger] attempt_step(
                old(state)@,
                *record,
                app@,
                identity@,
                process_views(processes@),
                abnormal_thaw,
                context@,
                full,
                old(backend).trace().len() as int,
            ) == Some((final(backend).trace().len() as int, final(state)@, failure_of(r))),
{
    if !step_delay(
        state,
        record,
        identity,
        processes,
        abnormal_thaw,
        context.settings,
        context.timestamp_ms,
    ) {
        return Ok(());
    }
    let ghost s1 = state@;
    let ghost i0 = backend.trace().len() as int;
    let proceed = step_download(
        state,
        record,
        identity,
        processes,
        backend,
        context.timestamp_ms,
    );
    let ghost b1 = *backend;
    if !proceed {
        return Ok(());
    }
    let ghost s2 = state@;
    let r = act(
        state,
        record,
        context.settings,
        app,
        policy,
        identity,
        processes,
        abnormal_thaw,
        context.binder_available,
        backend,
        context.timestamp_ms,
    );
    proof {
        assert forall|full: Seq<Effect>| extends(full, backend.trace()) implies #[trigger] download_step(
            s1,
            *record,
            identity@,
            process_views(processes@),
            context.timestamp_ms,
            full,
            i0,
        ) == Some((b1.trace().len() as int, s2, true)) by {
            assert(extends(full, b1.trace()));
        }
    }
    r
}

/// Control of an application in the background. A frozen one is woken up when that is due; an
/// audit freezes it again where it was found running.
pub open spec fn background_step(
    s: ControlView,
    record: ManagerAppConfigRecord,
    app: AppView,
    id: Ident,
    ps: Seq<ProcessView>,
    audit_due: bool,
    input: PassInput,
    log: Seq<Effect>,
    i: int,
) -> Option<(int, ControlView, Option<ErrorView>)> {
    if !s.frozen.contains(id) {
        attempt_step(s, record, app, id, ps, false, input, log, i)
    } else if wakeup_due(s, id, input.settings, input.at) {
        match wakeup_step(s, record.uid, id, ps, input.settings, input.at, log, i) {
            None => None,
            Some((j, s1)) => Some((j, s1, None)),
        }
    } else if !audit_due || !any_running(ps) {
        Some((i, s, None))
    } else {
        attempt_step(seen_running(s, id), record, app, id, ps, true, input, log, i)
    }
}

#[allow(clippy::too_many_arguments)]
fn step_background<B: ControlBackend>(
    state: &mut RuntimeControlState,
    record: &ManagerAppConfigRecord,
    app: &ManagedApp,
    policy: &FreezePolicy,
    identity: &RuntimeIdentity,
    processes: &[RuntimeProcess],
    audit_due: bool,
    context: PassContext,
    backend: &mut B,
) -> (r: Result<(), DaemonError>)
    requires
        old(backend).ready(),
        context.timestamp_ms <= LATEST_TIMESTAMP_MS,
        policy@ == record_policy(*record),
    ensures
        sound_change(old(state)@, final(state)@),
        proceeded(*old(backend), *final(backend)),
        forall|full: Seq<Effect>|
            extends(full, final(backend).trace()) ==> #[trigger] background_step(
                old(state)@,
                *record,
                app@,
                identity@,
                process_views(processes@),
                audit_due,
                context@,
                full,
                old(backend).trace().len() as int,
            ) == Some((final(backend).trace().len() as int, final(state)@, failure_of(r))),
{
    if !state.frozen_apps.contains(identity) {
        return step_attempt(
            state,
            record,
            app,
            policy,
            identity,
            processes,
            false,
            context,
            backend,
        );
    }
    if periodic_wakeup_due(state, identity, context.settings, context.timestamp_ms) {
        step_wakeup(
            state,
            record.uid,
            identity,
            processes,
            context.settings,
            backend,
            context.timestamp_ms,
        );
        return Ok(());
    }
    if !audit_due || !find_running(processes) {
        return Ok(());
    }
    state.mark_abnormal_thaw_for_refreeze(identity);
    step_attempt(state, record, app, policy, identity, processes, true, context, backend)
}

/// All identities of a uid.
pub open spec fn of_uid(uid: u32) -> Set<Ident> {
    Set::new(|k: Ident| k.1 == uid)
}

/// A protected application is never controlled: what is kept for it is dropped, and it is
/// thawed where it is frozen.
pub open spec fn protected_step(
    s: ControlView,
    uid: u32,
    at: u128,
    log: Seq<Effect>,
    i: int,
) -> Option<(int, ControlView)> {
    let s1 = transient_cleared(s, uid);
    match thaw_each(
        s1,
        ordered(s1.frozen.intersect(of_uid(uid))),
        0,
        "policy or protected package blocks control"@,
        at,
        log,
        i,
        seq![],
    ) {
        None => None,
        Some((j, s2, _)) => Some((j, without_detached(s2, of_uid(uid)))),
    }
}

fn step_protected<B: ControlBackend>(
    state: &mut RuntimeControlState,
    uid: u32,
    backend: &mut B,
    timestamp_ms: u128,
)
    requires
        old(backend).ready(),
    ensures
        sound_change(old(state)@, final(state)@),
        proceeded(*old(backend), *final(backend)),
        forall|full: Seq<Effect>|
            extends(full, final(backend).trace()) ==> #[trigger] protected_step(
                old(state)@,
                uid,
                timestamp_ms,
                full,
                old(backend).trace().len() as int,
            ) == Some((final(backend).trace().len() as int, final(state)@)),
{
    state.clear_transient_control_state_for_uid(uid);
    let ghost s1 = state@;
    let uids = [uid];
    assert(uids@.to_set() =~= set![uid]) by {
        assert(uids@[0] == uid);
    }
    let frozen = state.frozen_apps.keys_of_uids(&uids, true);
    assert(only_uids(state.frozen_apps@, set![uid], true).dom() =~= s1.frozen.intersect(
        of_uid(uid),
    ));
    let _ = thaw_frozen_identities(
        state,
        frozen.as_slice(),
        backend,
        timestamp_ms,
        "policy or protected package blocks control",
    );
    let ghost s2 = state@;
    let owned = state.frozen_ownership.keys_of_uids(&uids, true);
    state.clear_detached_ownerships(owned.as_slice());
    assert(state@ =~= without_detached(s2, of_uid(uid)));
}

/// An application without processes: nothing is kept for it.
pub open spec fn exited(s: ControlView, uid: u32) -> ControlView {
    let s1 = transient_cleared(s, uid);
    ControlView {
        frozen: s1.frozen.difference(of_uid(uid)),
        since: Map::new(
            |k: Ident|
                s1.since.contains_key(k) && !(k.1 == uid && (s1.frozen.contains(k)
                    || s1.ownership.contains_key(k))),
            |k: Ident| s1.since[k],
        ),
        ownership: only_uids(s1.ownership, set![uid], false),
        ..s1
    }
}

fn clear_listed(state: &mut RuntimeControlState, list: &[RuntimeIdentity])
    ensures
        sound_change(old(state)@, final(state)@),
        final(state)@ == (ControlView {
            frozen: old(state)@.frozen.difference(identities(list@).to_set()),
            since: old(state)@.since.remove_keys(identities(list@).to_set()),
            ownership: old(state)@.ownership.remove_keys(identities(list@).to_set()),
            ..old(state)@
        }),
{
    let ghost s0 = state@;
    let ghost ids = identities(list@);
    let mut i: usize = 0;
    assert(ids.take(0).to_set() =~= Set::empty());
    assert(state@ =~= (ControlView {
        frozen: s0.frozen.difference(ids.take(0).to_set()),
        since: s0.since.remove_keys(ids.take(0).to_set()),
        ownership: s0.ownership.remove_keys(ids.take(0).to_set()),
        ..s0
    }));
    while i < list.len()
        invariant
            i <= list@.len(),
            ids == identities(list@),
            sound_change(s0, state@),
            state@ == (ControlView {
                frozen: s0.frozen.difference(ids.take(i as int).to_set()),
                since: s0.since.remove_keys(ids.take(i as int).to_set()),
                ownership: s0.ownership.remove_keys(ids.take(i as int).to_set()),
                ..s0
            }),
        decreases list@.len() - i,
    {
        state.clear_frozen(&list[i]);
        proof {
            let done = ids.take(i as int);
            let next = ids.take(i + 1);
            let id = ids[i as int];
            assert(id == list@[i as int]@);
            assert(next =~= done.push(id));
            assert forall|k: Ident| next.to_set().contains(k) <==> done.to_set().contains(k) || k
                == id by {
                if done.contains(k) {
                    let j = choose|j: int| 0 <= j < done.len() && done[j] == k;
                    assert(next[j] == k);
                }
                assert(next[i as int] == id);
            }
            assert(state@ =~= (ControlView {
                frozen: s0.frozen.difference(next.to_set()),
                since: s0.since.remove_keys(next.to_set()),
                ownership: s0.ownership.remove_keys(next.to_set()),
                ..s0
            }));
        }
        i += 1;
    }
    assert(ids.take(i as int) =~= ids);
}

fn step_exited(state: &mut RuntimeControlState, uid: u32)
    ensures
        sound_change(old(state)@, final(state)@),
        final(state)@ == exited(old(state)@, uid),
{
    let ghost s0 = state@;
    state.clear_transient_control_state_for_uid(uid);
    let uids = [uid];
    assert(uids@.to_set() =~= set![uid]) by {
        assert(uids@[0] == uid);
    }
    let frozen = state.frozen_apps.keys_of_uids(&uids, true);
    let owned = state.frozen_ownership.keys_of_uids(&uids, true);
    let ghost s1 = state@;
    clear_listed(state, frozen.as_slice());
    clear_listed(state, owned.as_slice());
    assert(state@.frozen =~= exited(s0, uid).frozen);
    assert(state@.since =~= exited(s0, uid).since);
    assert(state@.ownership =~= exited(s0, uid).ownership);
    assert(state@ =~= exited(s0, uid));
}

/// Control of an application with processes.
pub open spec fn app_step(
    s: ControlView,
    record: ManagerAppConfigRecord,
    ps: Seq<ProcessView>,
    audit_due: bool,
    input: PassInput,
    log: Seq<Effect>,
    i: int,
) -> Option<(int, ControlView, Option<ErrorView>)> {
    let id = (least_package(ps), record.uid);
    match log[i] {
        Effect::Classify { package, system, reply } if 0 <= i < log.len() && package == id.0
            && system == system_uid(record.uid) => {
            let app = managed_app(id.0, record.uid, reply);
            if !control_allowed(record_policy(record), app) {
                match protected_step(s, record.uid, input.at, log, i + 1) {
                    None => None,
                    Some((j, s1)) => Some((j, s1, None)),
                }
            } else if is_blocked(s, id, signature(ps)) {
                Some((i + 1, s, None))
            } else {
                let s1 = unblocked(s, id);
                if input.foreground.contains(record.uid) {
                    match foreground_step(s1, record.uid, id, ps, input.at, log, i + 1) {
                        None => None,
                        Some((j, s2)) => Some((j, s2, None)),
                    }
                } else {
                    background_step(s1, record, app, id, ps, audit_due, input, log, i + 1)
                }
            }
        },
        _ => None,
    }
}

fn step_app<B: ControlBackend>(
    state: &mut RuntimeControlState,
    record: &ManagerAppConfigRecord,
    processes: &[RuntimeProcess],
    audit_due: bool,
    context: PassContext,
    backend: &mut B,
) -> (r: Result<(), DaemonError>)
    requires
        old(backend).ready(),
        processes@.len() > 0,
        context.timestamp_ms <= LATEST_TIMESTAMP_MS,
    ensures
        sound_change(old(state)@, final(state)@),
        proceeded(*old(backend), *final(backend)),
        forall|full: Seq<Effect>|
            extends(full, final(backend).trace()) ==> #[trigger] app_step(
                old(state)@,
                *record,
                process_views(processes@),
                audit_due,
                context@,
                full,
                old(backend).trace().len() as int,
            ) == Some((final(backend).trace().len() as int, final(state)@, failure_of(r))),
{
    let ghost i0 = backend.trace().len() as int;
    let ghost s0 = state@;
    let package_name = least_package_name(processes);
    let reason = backend.classify(package_name.as_str(), is_system_uid(record.uid));
    let ghost b1 = *backend;
    let app = managed_app_from_record(package_name.as_str(), record.uid, reason);
    let policy = policy_from_record(record);
    let identity: RuntimeIdentity = (package_name, record.uid);
    let ghost id = identity@;
    let r = if !policy.is_control_allowed_for(&app) {
        step_protected(state, record.uid, backend, context.timestamp_ms);
        Ok(())
    } else if state.still_blocked(&identity, processes) {
        Ok(())
    } else if contains_uid(context.foreground_uids, record.uid) {
        step_foreground(
            state,
            record.uid,
            &identity,
            processes,
            backend,
            context.timestamp_ms,
        );
        Ok(())
    } else {
        step_background(
            state,
            record,
            &app,
            &policy,
            &identity,
            processes,
            audit_due,
            context,
            backend,
        )
    };
    proof {
        assert forall|full: Seq<Effect>|
            extends(full, backend.trace()) implies #[trigger] app_step(
            s0,
            *record,
            process_views(processes@),
            audit_due,
            context@,
            full,
            i0,
        ) == Some((backend.trace().len() as int, state@, failure_of(r))) by {
            assert(full[i0] == b1.trace()[i0]);
        }
    }
    r
}

/// Control of one record.
pub open spec fn record_step(
    s: ControlView,
    record: ManagerAppConfigRecord,
    audit_due: bool,
    input: PassInput,
    log: Seq<Effect>,
    i: int,
) -> Option<(int, ControlView, Option<ErrorView>)> {
    if !controls(record.mode) {
        Some((i, s, None))
    } else {
        match found(log, i, record.uid) {
            None => None,
            Some(Err(e)) => Some((i + 1, s, Some(e))),
            Some(Ok(ps)) => if ps.len() == 0 {
                Some((i + 1, exited(s, record.uid), None))
            } else {
                app_step(s, record, ps, audit_due, input, log, i + 1)
            },
        }
    }
}

fn step_record<B: ControlBackend>(
    state: &mut RuntimeControlState,
    record: &ManagerAppConfigRecord,
    audit_due: bool,
    context: PassContext,
    backend: &mut B,
) -> (r: Result<(), DaemonError>)
    requires
        old(backend).ready(),
        context.timestamp_ms <= LATEST_TIMESTAMP_MS,
    ensures
        sound_change(old(state)@, final(state)@),
        proceeded(*old(backend), *final(backend)),
        forall|full: Seq<Effect>|
            extends(full, final(backend).trace()) ==> #[trigger] record_step(
                old(state)@,
                *record,
                audit_due,
                context@,
                full,
                old(backend).trace().len() as int,
            ) == Some((final(backend).trace().len() as int, final(state)@, failure_of(r))),
{
    if !is_control_policy_mode(record.mode) {
        return Ok(());
    }
    let ghost s0 = state@;
    let ghost i0 = backend.trace().len() as int;
    let lookup = fallback_package(record.uid);
    let reply = backend.discover(lookup.as_str(), record.uid);
    let ghost b1 = *backend;
    proof {
        assert forall|full: Seq<Effect>| extends(full, b1.trace()) implies #[trigger] found(
            full,
            i0,
            record.uid,
        ) == Some(discovered(reply)) by {
            assert(full[i0] == b1.trace()[i0]);
        }
    }
    match reply {
        Err(error) => Err(error),
        Ok(processes) => {
            assert(process_views(processes@).len() == processes@.len());
            if processes.len() == 0 {
                step_exited(state, record.uid);
                Ok(())
            } else {
                step_app(state, record, processes.as_slice(), audit_due, context, backend)
            }
        },
    }
}

/// The records from the `k`-th on, up to the first whose processes cannot be listed.
pub open spec fn records_step(
    s: ControlView,
    records: Seq<ManagerAppConfigRecord>,
    k: int,
    audit_due: bool,
    input: PassInput,
    log: Seq<Effect>,
    i: int,
) -> Option<(int, ControlView, Option<ErrorView>)>
    decreases records.len() - k,
{
    if k >= records.len() || k < 0 {
        Some((i, s, None))
    } else {
        match record_step(s, records[k], audit_due, input, log, i) {
            None => None,
            Some((j, s1, Some(e))) => Some((j, s1, Some(e))),
            Some((j, s1, None)) => records_step(s1, records, k + 1, audit_due, input, log, j),
        }
    }
}

fn step_records<B: ControlBackend>(
    state: &mut RuntimeControlState,
    records: &[ManagerAppConfigRecord],
    audit_due: bool,
    context: PassContext,
    backend: &mut B,
) -> (r: Result<(), DaemonError>)
    requires
        old(backend).ready(),
        context.timestamp_ms <= LATEST_TIMESTAMP_MS,
    ensures
        sound_change(old(state)@, final(state)@),
        proceeded(*old(backend), *final(backend)),
        forall|full: Seq<Effect>|
            extends(full, final(backend).trace()) ==> #[trigger] records_step(
                old(state)@,
                records@,
                0,
                audit_due,
                context@,
                full,
                old(backend).trace().len() as int,
            ) == Some((final(backend).trace().len() as int, final(state)@, failure_of(r))),
{
    let ghost s0 = state@;
    let ghost b0 = *backend;
    let ghost i0 = backend.trace().len() as int;
    let mut k: usize = 0;
    while k < records.len()
        invariant
            k <= records@.len(),
            context.timestamp_ms <= LATEST_TIMESTAMP_MS,
            s0 == old(state)@,
            sound_change(s0, state@),
            b0 == *old(backend),
            i0 == b0.trace().len(),
            proceeded(b0, *backend),
            forall|full: Seq<Effect>|
                extends(full, backend.trace()) ==> #[trigger] records_step(
                    s0,
                    records@,
                    0,
                    audit_due,
                    context@,
                    full,
                    i0,
                ) == records_step(
                    state@,
                    records@,
                    k as int,
                    audit_due,
                    context@,
                    full,
                    backend.trace().len() as int,
                ),
        decreases records@.len() - k,
    {
        let ghost s1 = state@;
        let ghost i1 = backend.trace().len() as int;
        match step_record(state, &records[k], audit_due, context, backend) {
            Ok(()) => {},
            Err(error) => {
                proof {
                    assert forall|full: Seq<Effect>|
                        extends(full, backend.trace()) implies #[trigger] records_step(
                        s0,
                        records@,
                        0,
                        audit_due,
                        context@,
                        full,
                        i0,
                    ) == Some((backend.trace().len() as int, state@, Some(error@))) by {
                        assert(record_step(
                            s1,
                            records@[k as int],
                            audit_due,
                            context@,
                            full,
                            i1,
                        ) is Some);
                    }
                }
                return Err(error);
            },
        }
        proof {
            assert forall|full: Seq<Effect>|
                extends(full, backend.trace()) implies #[trigger] records_step(
                s0,
                records@,
                0,
                audit_due,
                context@,
                full,
                i0,
            ) == records_step(
                state@,
                records@,
                k + 1,
                audit_due,
                context@,
                full,
                backend.trace().len() as int,
            ) by {
                assert(record_step(s1, records@[k as int], audit_due, context@, full, i1) is Some);
            }
        }
        k += 1;
    }
    Ok(())
}

// ---------------------------------------------------------------------------
// The whole pass
// ---------------------------------------------------------------------------

/// The uids that are controlled.
pub open spec fn controlled(records: Seq<ManagerAppConfigRecord>) -> Set<u32> {
    Set::new(
        |u: u32|
            exists|i: int|
                0 <= i < records.len() && controls((#[trigger] records[i]).mode) && records[i].uid
                    == u,
    )
}

fn controlled_uids(records: &[ManagerAppConfigRecord]) -> (r: Vec<u32>)
    ensures
        r@.to_set() == controlled(records@),
{
    let mut out: Vec<u32> = Vec::new();
    let mut i: usize = 0;
    while i < records.len()
        invariant
            i <= records@.len(),
            forall|u: u32| #[trigger]
                out@.contains(u) <==> exists|j: int|
                    0 <= j < i && controls((#[trigger] records@[j]).mode) && records@[j].uid == u,
        decreases records@.len() - i,
    {
        let ghost done = out@;
        if is_control_policy_mode(records[i].mode) {
            out.push(records[i].uid);
        }
        proof {
            let record = records@[i as int];
            assert forall|u: u32| #[trigger]
                out@.contains(u) <==> exists|j: int|
                    0 <= j < i + 1 && controls((#[trigger] records@[j]).mode) && records@[j].uid
                        == u by {
                if done.contains(u) {
                    let m = choose|m: int| 0 <= m < done.len() && done[m] == u;
                    assert(out@[m] == u);
                    let j = choose|j: int|
                        0 <= j < i && controls((#[trigger] records@[j]).mode) && records@[j].uid
                            == u;
                    assert(controls(records@[j].mode));
                }
                if controls(record.mode) && record.uid == u {
                    assert(out@[done.len() as int] == u);
                }
                if out@.contains(u) && !done.contains(u) {
                    assert(controls(records@[i as int].mode) && records@[i as int].uid == u);
                }
                if exists|j: int|
                    0 <= j < i + 1 && controls((#[trigger] records@[j]).mode) && records@[j].uid
                        == u {
                    let j = choose|j: int|
                        0 <= j < i + 1 && controls((#[trigger] records@[j]).mode)
                            && records@[j].uid == u;
                    if j < i {
                        assert(done.contains(u));
                    }
                }
            }
        }
        i += 1;
    }
    assert(out@.to_set() =~= controlled(records@));
    out
}

/// Whether an identity of a uid is pending, frozen or owned.
pub open spec fn tracked_uid(s: ControlView, uid: u32) -> bool {
    exists|k: Ident|
        #![trigger s.pending.contains_key(k)]
        #![trigger s.frozen.contains(k)]
        #![trigger s.ownership.contains_key(k)]
        k.1 == uid && (s.pending.contains_key(k) || s.frozen.contains(k)
            || s.ownership.contains_key(k))
}

/// What is kept of applications that are no longer controlled is dropped, but for the ones
/// that are still frozen.
pub open spec fn retired(s: ControlView, uids: Set<u32>) -> ControlView {
    ControlView {
        pending: only_uids(s.pending, uids, true),
        blocked: only_uids(s.blocked, uids, true),
        network: s.network.intersect(uids),
        status: at_listed(s.status, uids),
        samples: Map::new(
            |u: u32| s.samples.contains_key(u) && !(!uids.contains(u) && tracked_uid(s, u)),
            |u: u32| s.samples[u],
        ),
        ..s
    }
}

fn forget_samples(state: &mut RuntimeControlState, list: &[RuntimeIdentity])
    ensures
        sound_change(old(state)@, final(state)@),
        final(state)@ == (ControlView {
            samples: Map::new(
                |u: u32|
                    old(state)@.samples.contains_key(u) && !exists|j: int|
                        0 <= j < list@.len() && (#[trigger] list@[j]).1 == u,
                |u: u32| old(state)@.samples[u],
            ),
            ..old(state)@
        }),
{
    let ghost s0 = state@;
    let mut i: usize = 0;
    while i < list.len()
        invariant
            i <= list@.len(),
            state@ == (ControlView { samples: state@.samples, ..s0 }),
            forall|u: u32| #[trigger]
                state@.samples.contains_key(u) <==> s0.samples.contains_key(u) && !exists|j: int|
                    0 <= j < i && (#[trigger] list@[j]).1 == u,
            forall|u: u32| #[trigger]
                state@.samples.contains_key(u) ==> state@.samples[u] == s0.samples[u],
        decreases list@.len() - i,
    {
        let ghost before = state@.samples;
        let uid = list[i].1;
        state.download_deferral.clear_uid(uid);
        assert(state@ =~= (ControlView { samples: state@.samples, ..s0 }));
        proof {
            assert forall|u: u32| #[trigger]
                state@.samples.contains_key(u) <==> s0.samples.contains_key(u) && !exists|j: int|
                    0 <= j < i + 1 && (#[trigger] list@[j]).1 == u by {
                assert(state@.samples.contains_key(u) <==> before.contains_key(u) && u != uid);
                if u == uid {
                    assert(list@[i as int].1 == u);
                }
                if exists|j: int| 0 <= j < i + 1 && (#[trigger] list@[j]).1 == u {
                    let j = choose|j: int| 0 <= j < i + 1 && (#[trigger] list@[j]).1 == u;
                    if j < i {
                        assert(!before.contains_key(u));
                    }
                }
            }
        }
        i += 1;
    }
    proof {
        let target = Map::new(
            |u: u32|
                s0.samples.contains_key(u) && !exists|j: int|
                    0 <= j < list@.len() && (#[trigger] list@[j]).1 == u,
            |u: u32| s0.samples[u],
        );
        assert(state@.samples =~= target);
    }
}

proof fn listed_uid(list: Seq<RuntimeIdentity>, m: Set<Ident>, u: u32)
    requires
        identities(list).to_set() == m,
    ensures
        (exists|j: int| 0 <= j < list.len() && (#[trigger] list[j]).1 == u) <==> (exists|k: Ident|
            #[trigger] m.contains(k) && k.1 == u),
{
    let ids = identities(list);
    if exists|j: int| 0 <= j < list.len() && (#[trigger] list[j]).1 == u {
        let j = choose|j: int| 0 <= j < list.len() && (#[trigger] list[j]).1 == u;
        assert(ids[j] == list[j]@);
        assert(ids.to_set().contains(ids[j]));
        assert(m.contains(ids[j]) && ids[j].1 == u);
    }
    if exists|k: Ident| #[trigger] m.contains(k) && k.1 == u {
        let k = choose|k: Ident| #[trigger] m.contains(k) && k.1 == u;
        assert(ids.to_set().contains(k));
        let j = choose|j: int| 0 <= j < ids.len() && ids[j] == k;
        assert(list[j].1 == u);
    }
}

fn retire(state: &mut RuntimeControlState, uids: &[u32])
    ensures
        sound_change(old(state)@, final(state)@),
        final(state)@ == retired(old(state)@, uids@.to_set()),
{
    let ghost s0 = state@;
    let ghost set = uids@.to_set();
    let pending = state.pending_freezes.keys_of_uids(uids, false);
    let frozen = state.frozen_apps.keys_of_uids(uids, false);
    let owned = state.frozen_ownership.keys_of_uids(uids, false);
    forget_samples(state, pending.as_slice());
    forget_samples(state, frozen.as_slice());
    forget_samples(state, owned.as_slice());
    proof {
        let target = retired(s0, set).samples;
        assert forall|u: u32| state@.samples.contains_key(u) == target.contains_key(u) by {
            let mp = only_uids(s0.pending, set, false).dom();
            let mf = only_uids(state.frozen_apps@, set, false).dom();
            let mo = only_uids(s0.ownership, set, false).dom();
            listed_uid(pending@, mp, u);
            listed_uid(frozen@, mf, u);
            listed_uid(owned@, mo, u);
            if !set.contains(u) && tracked_uid(s0, u) {
                let k = choose|k: Ident|
                    #![trigger s0.pending.contains_key(k)]
                    #![trigger s0.frozen.contains(k)]
                    #![trigger s0.ownership.contains_key(k)]
                    k.1 == u && (s0.pending.contains_key(k) || s0.frozen.contains(k)
                        || s0.ownership.contains_key(k));
                assert(mp.contains(k) || mf.contains(k) || mo.contains(k));
            }
            if exists|k: Ident| #[trigger] mp.contains(k) && k.1 == u {
                let k = choose|k: Ident| #[trigger] mp.contains(k) && k.1 == u;
                assert(s0.pending.contains_key(k));
            }
            if exists|k: Ident| #[trigger] mf.contains(k) && k.1 == u {
                let k = choose|k: Ident| #[trigger] mf.contains(k) && k.1 == u;
                assert(s0.frozen.contains(k));
            }
            if exists|k: Ident| #[trigger] mo.contains(k) && k.1 == u {
                let k = choose|k: Ident| #[trigger] mo.contains(k) && k.1 == u;
                assert(s0.ownership.contains_key(k));
            }
        }
        assert(state@.samples =~= target);
    }
    state.pending_freezes.retain_uids(uids, true);
    state.blocked_process_signatures.retain_uids(uids, true);
    retain_listed(&mut state.network_restriction_requests, uids);
    retain_listed_keys(&mut state.status_since_ms, uids);
    assert(state@.blocked =~= only_uids(s0.blocked, set, true));
    assert(state@ =~= retired(s0, set));
}

/// All identities whose uid is not among `uids`.
pub open spec fn outside(uids: Set<u32>) -> Set<Ident> {
    Set::new(|k: Ident| !uids.contains(k.1))
}

/// A pass: applications that are no longer controlled are thawed first, then the controlled
/// ones are handled in the order of the configuration. Gives the position behind the calls.
pub open spec fn pass_from(
    s: ControlView,
    records: Seq<ManagerAppConfigRecord>,
    input: PassInput,
    log: Seq<Effect>,
    i: int,
) -> Option<(int, ControlView, Option<ErrorView>)> {
    let uids = controlled(records);
    match thaw_each(
        retired(s, uids),
        ordered(s.frozen.intersect(outside(uids))),
        0,
        "control policy removed"@,
        input.at,
        log,
        i,
        seq![],
    ) {
        None => None,
        Some((j, s1, _)) => {
            let (s2, audit_due) = audit(
                without_detached(s1, outside(uids)),
                input.settings,
                input.at,
            );
            records_step(s2, records, 0, audit_due, input, log, j)
        },
    }
}

/// Runs one pass.
pub fn run_pass<B: ControlBackend>(
    state: &mut RuntimeControlState,
    app_config: &[ManagerAppConfigRecord],
    context: PassContext,
    backend: &mut B,
) -> (r: Result<(), DaemonError>)
    requires
        old(backend).ready(),
        well_timed(old(state)@),
        context.timestamp_ms <= LATEST_TIMESTAMP_MS,
    ensures
        in_step(old(state)@) ==> in_step(final(state)@),
        well_timed(final(state)@),
        proceeded(*old(backend), *final(backend)),
        forall|full: Seq<Effect>|
            extends(full, final(backend).trace()) ==> #[trigger] pass_from(
                old(state)@,
                app_config@,
                context@,
                full,
                old(backend).trace().len() as int,
            ) == Some((final(backend).trace().len() as int, final(state)@, failure_of(r))),
{
    let ghost s0 = state@;
    let ghost i0 = backend.trace().len() as int;
    let uids = controlled_uids(app_config);
    let ghost set = controlled(app_config@);
    let stale = state.frozen_apps.keys_of_uids(uids.as_slice(), false);
    assert(only_uids(state.frozen_apps@, set, false).dom() =~= s0.frozen.intersect(outside(set)));
    retire(state, uids.as_slice());
    let ghost s1 = state@;
    let _ = thaw_frozen_identities(
        state,
        stale.as_slice(),
        backend,
        context.timestamp_ms,
        "control policy removed",
    );
    let ghost b1 = *backend;
    let ghost s2 = state@;
    let owned = state.frozen_ownership.keys_of_uids(uids.as_slice(), false);
    state.clear_detached_ownerships(owned.as_slice());
    assert(state@ =~= without_detached(s2, outside(set)));
    let audit_due = refreeze_audit_due(state, context.settings, context.timestamp_ms);
    let ghost s4 = state@;
    let r = step_records(state, app_config, audit_due, context, backend);
    proof {
        assert forall|full: Seq<Effect>|
            extends(full, backend.trace()) implies #[trigger] pass_from(
            s0,
            app_config@,
            context@,
            full,
            i0,
        ) == Some((backend.trace().len() as int, state@, failure_of(r))) by {
            assert(extends(full, b1.trace()));
        }
    }
    r
}

} // verus!
