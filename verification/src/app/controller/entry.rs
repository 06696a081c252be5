//! Passes over a device given as functions.

use vstd::prelude::*;

use crate::app::controller::carry::failure_of;
use crate::app::controller::pass::{pass_from, run_pass, PassContext, PassInput};
use crate::app::controller::port::{
    discovered, extends, proceeded, ControlBackend, ControlPort, Effect,
};
use crate::app::controller::rules::{well_timed, LATEST_TIMESTAMP_MS};
use crate::app::controller::state::{
    in_step, without_detached, ControlView, RuntimeControlState,
};
use crate::app::controller::thaw::{
    thaw_each, thaw_frozen_identities, thaw_result_of, thaw_verdict,
};
use crate::app::download_deferral::DownloadDeferral;
use crate::app::error::{outcome, DaemonError, ErrorView};
use crate::app::freezer_backend::{BackendEnvironment, DecisionAction, FreezeDecision};
use crate::domain::identity::ordered;
use crate::domain::policy::{FreezePolicy, ManagedApp, ProtectedReason};
use crate::domain::runtime::{process_views, RuntimeProcess};
use crate::protocol::records::ManagerAppConfigRecord;
use crate::sys::procfs::SignalStopOwnership;
use crate::text::text;

verus! {

/// The evidence and the decisions that a pass asks for.
pub struct BackendCalls<O, P, C, J, R> where
    O: FnMut(i32, u64) -> Result<Option<SignalStopOwnership>, DaemonError>,
    P: FnMut(&RuntimeProcess) -> Result<(), DaemonError>,
    C: FnMut(&str, bool) -> Option<ProtectedReason>,
    J: FnMut(&ManagedApp, &FreezePolicy, &[RuntimeProcess], BackendEnvironment) -> FreezeDecision,
    R: FnMut(&FreezePolicy, &DaemonError, BackendEnvironment) -> FreezeDecision,
 {
    /// What the stop ledger holds for a process.
    pub recorded_ownership: O,
    /// Marks a stopped process in the ledger as held by the signal alone.
    pub promote_signal_stop: P,
    /// Why a package is protected.
    pub protected_reason: C,
    /// What the freezer backend decides.
    pub can_freeze: J,
    /// What the freezer backend decides after a failed freeze.
    pub fallback_after_freeze_apply_error: R,
    /// Whether the binder freezer works on this device.
    pub binder_available: bool,
}

/// Whether the calls can be made with any arguments.
pub open spec fn calls_ready<O, P, C, J, R>(calls: BackendCalls<O, P, C, J, R>) -> bool where
    O: FnMut(i32, u64) -> Result<Option<SignalStopOwnership>, DaemonError>,
    P: FnMut(&RuntimeProcess) -> Result<(), DaemonError>,
    C: FnMut(&str, bool) -> Option<ProtectedReason>,
    J: FnMut(&ManagedApp, &FreezePolicy, &[RuntimeProcess], BackendEnvironment) -> FreezeDecision,
    R: FnMut(&FreezePolicy, &DaemonError, BackendEnvironment) -> FreezeDecision,
 {
    &&& forall|p: i32, s: u64| call_requires(calls.recorded_ownership, (p, s))
    &&& forall|p: &RuntimeProcess| call_requires(calls.promote_signal_stop, (p,))
    &&& forall|p: &str, s: bool| call_requires(calls.protected_reason, (p, s))
    &&& forall|a: &ManagedApp, p: &FreezePolicy, s: &[RuntimeProcess], e: BackendEnvironment|
        call_requires(calls.can_freeze, (a, p, s, e))
    &&& forall|p: &FreezePolicy, d: &DaemonError, e: BackendEnvironment|
        call_requires(calls.fallback_after_freeze_apply_error, (p, d, e))
}

/// A look into the ledger, a mark there, or a reason for protection has a reply that the
/// functions can return; other calls pass.
pub open spec fn evidence_gives<O, P, C>(recorded: O, promote: P, protect: C, e: Effect) -> bool where
    O: FnMut(i32, u64) -> Result<Option<SignalStopOwnership>, DaemonError>,
    P: FnMut(&RuntimeProcess) -> Result<(), DaemonError>,
    C: FnMut(&str, bool) -> Option<ProtectedReason>,
 {
    match e {
        Effect::Recorded { pid, start, reply } => exists|
            i: i32,
            t: u64,
            r: Result<Option<SignalStopOwnership>, DaemonError>,
        | #[trigger]
            call_ensures(recorded, (i, t), r) && i == pid && t == start && outcome(r) == reply,
        Effect::Promote { process, reply } => exists|
            p: &RuntimeProcess,
            r: Result<(), DaemonError>,
        | #[trigger] call_ensures(promote, (p,), r) && p@ == process && outcome(r) == reply,
        Effect::Classify { package, system, reply } => exists|
            p: &str,
            s: bool,
            r: Option<ProtectedReason>,
        | #[trigger]
            call_ensures(protect, (p, s), r) && p@ == package && s == system && r == reply,
        _ => true,
    }
}

/// Evidence or a decision has a reply that the functions can return; other calls pass.
pub open spec fn calls_give<O, P, C, J, R>(calls: BackendCalls<O, P, C, J, R>, e: Effect) -> bool where
    O: FnMut(i32, u64) -> Result<Option<SignalStopOwnership>, DaemonError>,
    P: FnMut(&RuntimeProcess) -> Result<(), DaemonError>,
    C: FnMut(&str, bool) -> Option<ProtectedReason>,
    J: FnMut(&ManagedApp, &FreezePolicy, &[RuntimeProcess], BackendEnvironment) -> FreezeDecision,
    R: FnMut(&FreezePolicy, &DaemonError, BackendEnvironment) -> FreezeDecision,
 {
    match e {
        Effect::Decide { app, policy, processes, environment, reply } => exists|
            a: &ManagedApp,
            p: &FreezePolicy,
            s: &[RuntimeProcess],
            r: FreezeDecision,
        | #[trigger]
            call_ensures(calls.can_freeze, (a, p, s, environment), r) && a@ == app && p@ == policy
                && process_views(s@) == processes && r@ == reply,
        Effect::Fallback { policy, error, environment, reply } => exists|
            p: &FreezePolicy,
            d: &DaemonError,
            r: FreezeDecision,
        | #[trigger]
            call_ensures(calls.fallback_after_freeze_apply_error, (p, d, environment), r) && p@
                == policy && d@ == error && r@ == reply,
        _ => evidence_gives(
            calls.recorded_ownership,
            calls.promote_signal_stop,
            calls.protected_reason,
            e,
        ),
    }
}

/// A discovery, freeze or thaw has a reply that the functions can return; other calls pass.
pub open spec fn acts_give<D, F, U>(discover: D, freeze: F, unfreeze: U, e: Effect) -> bool where
    D: FnMut(&str, u32) -> Result<Vec<RuntimeProcess>, DaemonError>,
    F: FnMut(&RuntimeProcess) -> Result<(), DaemonError>,
    U: FnMut(&RuntimeProcess) -> Result<(), DaemonError>,
 {
    match e {
        Effect::Discover { package, uid, reply } => exists|
            p: &str,
            u: u32,
            r: Result<Vec<RuntimeProcess>, DaemonError>,
        | #[trigger]
            call_ensures(discover, (p, u), r) && p@ == package && u == uid && discovered(r)
                == reply,
        Effect::Freeze { process, reply } => exists|p: &RuntimeProcess, r: Result<(), DaemonError>|
            #[trigger] call_ensures(freeze, (p,), r) && p@ == process && outcome(r) == reply,
        Effect::Unfreeze { process, reply } => exists|
            p: &RuntimeProcess,
            r: Result<(), DaemonError>,
        | #[trigger] call_ensures(unfreeze, (p,), r) && p@ == process && outcome(r) == reply,
        _ => true,
    }
}

/// A validation has a reply that the function can return; other calls pass.
pub open spec fn validation_gives<V>(validate: V, e: Effect) -> bool where
    V: FnMut(&RuntimeProcess) -> Result<bool, DaemonError>,
 {
    match e {
        Effect::Validate { process, reply } => exists|
            p: &RuntimeProcess,
            r: Result<bool, DaemonError>,
        | #[trigger] call_ensures(validate, (p,), r) && p@ == process && outcome(r) == reply,
        _ => true,
    }
}

/// A sample or a kill has a reply that the functions can return; other calls pass.
pub open spec fn system_gives<S, K>(sample: S, terminate: K, e: Effect) -> bool where
    S: FnMut(u32, &str) -> Result<Option<u64>, DaemonError>,
    K: FnMut(&RuntimeProcess) -> Result<(), DaemonError>,
 {
    match e {
        Effect::Terminate { process, reply } => exists|
            p: &RuntimeProcess,
            r: Result<(), DaemonError>,
        | #[trigger] call_ensures(terminate, (p,), r) && p@ == process && outcome(r) == reply,
        Effect::Sample { uid, package, reply } => exists|
            u: u32,
            p: &str,
            r: Result<Option<u64>, DaemonError>,
        | #[trigger]
            call_ensures(sample, (u, p), r) && u == uid && p@ == package && outcome(r) == reply,
        _ => true,
    }
}

/// A validation always holds; other calls pass.
pub open spec fn always_valid(e: Effect) -> bool {
    match e {
        Effect::Validate { reply, .. } => reply == Ok::<bool, ErrorView>(true),
        _ => true,
    }
}

/// A pass took the state from `before` to `after` and ended with `error`: some sequence of
/// calls, each with a reply that the device gives, is exactly the one that the pass makes.
pub open spec fn pass_happened(
    before: ControlView,
    records: Seq<ManagerAppConfigRecord>,
    input: PassInput,
    after: ControlView,
    error: Option<ErrorView>,
    gives: spec_fn(Effect) -> bool,
) -> bool {
    exists|trace: Seq<Effect>|
        #![trigger pass_from(before, records, input, trace, 0)]
        {
            &&& pass_from(before, records, input, trace, 0) == Some(
                (trace.len() as int, after, error),
            )
            &&& forall|i: int| 0 <= i < trace.len() ==> gives(#[trigger] trace[i])
        }
}

/// Replies that one device gives are replies that a less particular one gives.
pub proof fn pass_happened_with_more_replies(
    before: ControlView,
    records: Seq<ManagerAppConfigRecord>,
    input: PassInput,
    after: ControlView,
    error: Option<ErrorView>,
    gives: spec_fn(Effect) -> bool,
    more: spec_fn(Effect) -> bool,
)
    requires
        pass_happened(before, records, input, after, error, gives),
        forall|e: Effect| #[trigger] gives(e) ==> more(e),
    ensures
        pass_happened(before, records, input, after, error, more),
{
    let trace = choose|trace: Seq<Effect>|
        #![trigger pass_from(before, records, input, trace, 0)]
        {
            &&& pass_from(before, records, input, trace, 0) == Some(
                (trace.len() as int, after, error),
            )
            &&& forall|i: int| 0 <= i < trace.len() ==> gives(#[trigger] trace[i])
        };
    assert(pass_from(before, records, input, trace, 0) is Some);
}

/// Runs one pass with every call given as a function.
#[allow(clippy::too_many_arguments)]
pub fn run_control_pass_with_sampling_and_terminate<D, F, U, V, S, K, O, P, C, J, R>(
    state: &mut RuntimeControlState,
    app_config: &[ManagerAppConfigRecord],
    settings: &[u8],
    discover_processes: D,
    freeze_process: F,
    unfreeze_process: U,
    validate_process: V,
    sample_rx_bytes: S,
    terminate_process: K,
    foreground_uids: &[u32],
    timestamp_ms: u128,
    calls: BackendCalls<O, P, C, J, R>,
) -> (r: Result<(), DaemonError>) where
    D: FnMut(&str, u32) -> Result<Vec<RuntimeProcess>, DaemonError>,
    F: FnMut(&RuntimeProcess) -> Result<(), DaemonError>,
    U: FnMut(&RuntimeProcess) -> Result<(), DaemonError>,
    V: FnMut(&RuntimeProcess) -> Result<bool, DaemonError>,
    S: FnMut(u32, &str) -> Result<Option<u64>, DaemonError>,
    K: FnMut(&RuntimeProcess) -> Result<(), DaemonError>,
    O: FnMut(i32, u64) -> Result<Option<SignalStopOwnership>, DaemonError>,
    P: FnMut(&RuntimeProcess) -> Result<(), DaemonError>,
    C: FnMut(&str, bool) -> Option<ProtectedReason>,
    J: FnMut(&ManagedApp, &FreezePolicy, &[RuntimeProcess], BackendEnvironment) -> FreezeDecision,
    R: FnMut(&FreezePolicy, &DaemonError, BackendEnvironment) -> FreezeDecision,

    requires
        well_timed(old(state)@),
        timestamp_ms <= LATEST_TIMESTAMP_MS,
        forall|p: &str, u: u32| call_requires(discover_processes, (p, u)),
        forall|p: &RuntimeProcess| call_requires(freeze_process, (p,)),
        forall|p: &RuntimeProcess| call_requires(unfreeze_process, (p,)),
        forall|p: &RuntimeProcess| call_requires(validate_process, (p,)),
        forall|u: u32, p: &str| call_requires(sample_rx_bytes, (u, p)),
        forall|p: &RuntimeProcess| call_requires(terminate_process, (p,)),
        calls_ready(calls),
    ensures
        well_timed(final(state)@),
        in_step(old(state)@) ==> in_step(final(state)@),
        pass_happened(
            old(state)@,
            app_config@,
            (PassInput {
                settings: settings@,
                foreground: foreground_uids@,
                binder: calls.binder_available,
                at: timestamp_ms,
            }),
            final(state)@,
            failure_of(r),
            (|e: Effect|
                acts_give(discover_processes, freeze_process, unfreeze_process, e)
                    && validation_gives(validate_process, e) && system_gives(
                    sample_rx_bytes,
                    terminate_process,
                    e,
                ) && calls_give(calls, e)),
        ),
{
    let ghost s0 = state@;
    let ghost gives = |e: Effect|
        acts_give(discover_processes, freeze_process, unfreeze_process, e) && validation_gives(
            validate_process,
            e,
        ) && system_gives(sample_rx_bytes, terminate_process, e) && calls_give(calls, e);
    let context = PassContext {
        settings,
        foreground_uids,
        binder_available: calls.binder_available,
        timestamp_ms,
    };
    let mut port = ControlPort::new(
        discover_processes,
        freeze_process,
        unfreeze_process,
        validate_process,
        sample_rx_bytes,
        terminate_process,
        calls.recorded_ownership,
        calls.promote_signal_stop,
        calls.protected_reason,
        calls.can_freeze,
        calls.fallback_after_freeze_apply_error,
    );
    let ghost p0 = port;
    let r = run_pass(state, app_config, context, &mut port);
    proof {
        let trace = port.trace();
        assert(extends(trace, trace));
        assert(pass_from(s0, app_config@, context@, trace, 0) == Some(
            (trace.len() as int, state@, failure_of(r)),
        ));
        assert forall|i: int| 0 <= i < trace.len() implies gives(#[trigger] trace[i]) by {
            assert((p0.gives())(trace[i]));
        }
    }
    r
}

/// Runs one pass with the given sampler.
#[allow(clippy::too_many_arguments)]
pub fn run_control_pass_with_sampling<D, F, U, V, S, K, O, P, C, J, R>(
    state: &mut RuntimeControlState,
    app_config: &[ManagerAppConfigRecord],
    settings: &[u8],
    discover_processes: D,
    freeze_process: F,
    unfreeze_process: U,
    validate_process: V,
    sample_rx_bytes: S,
    foreground_uids: &[u32],
    timestamp_ms: u128,
    terminate_process: K,
    calls: BackendCalls<O, P, C, J, R>,
) -> (r: Result<(), DaemonError>) where
    D: FnMut(&str, u32) -> Result<Vec<RuntimeProcess>, DaemonError>,
    F: FnMut(&RuntimeProcess) -> Result<(), DaemonError>,
    U: FnMut(&RuntimeProcess) -> Result<(), DaemonError>,
    V: FnMut(&RuntimeProcess) -> Result<bool, DaemonError>,
    S: FnMut(u32, &str) -> Result<Option<u64>, DaemonError>,
    K: FnMut(&RuntimeProcess) -> Result<(), DaemonError>,
    O: FnMut(i32, u64) -> Result<Option<SignalStopOwnership>, DaemonError>,
    P: FnMut(&RuntimeProcess) -> Result<(), DaemonError>,
    C: FnMut(&str, bool) -> Option<ProtectedReason>,
    J: FnMut(&ManagedApp, &FreezePolicy, &[RuntimeProcess], BackendEnvironment) -> FreezeDecision,
    R: FnMut(&FreezePolicy, &DaemonError, BackendEnvironment) -> FreezeDecision,

    requires
        well_timed(old(state)@),
        timestamp_ms <= LATEST_TIMESTAMP_MS,
        forall|p: &str, u: u32| call_requires(discover_processes, (p, u)),
        forall|p: &RuntimeProcess| call_requires(freeze_process, (p,)),
        forall|p: &RuntimeProcess| call_requires(unfreeze_process, (p,)),
        forall|p: &RuntimeProcess| call_requires(validate_process, (p,)),
        forall|u: u32, p: &str| call_requires(sample_rx_bytes, (u, p)),
        forall|p: &RuntimeProcess| call_requires(terminate_process, (p,)),
        calls_ready(calls),
    ensures
        well_timed(final(state)@),
        in_step(old(state)@) ==> in_step(final(state)@),
        pass_happened(
            old(state)@,
            app_config@,
            (PassInput {
                settings: settings@,
                foreground: foreground_uids@,
                binder: calls.binder_available,
                at: timestamp_ms,
            }),
            final(state)@,
            failure_of(r),
            (|e: Effect|
                acts_give(discover_processes, freeze_process, unfreeze_process, e)
                    && validation_gives(validate_process, e) && system_gives(
                    sample_rx_bytes,
                    terminate_process,
                    e,
                ) && calls_give(calls, e)),
        ),
{
    run_control_pass_with_sampling_and_terminate(
        state,
        app_config,
        settings,
        discover_processes,
        freeze_process,
        unfreeze_process,
        validate_process,
        sample_rx_bytes,
        terminate_process,
        foreground_uids,
        timestamp_ms,
        calls,
    )
}

/// Runs one pass that validates processes with the given function.
#[allow(clippy::too_many_arguments)]
pub fn run_control_pass_with_validation<D, F, U, V, S, K, O, P, C, J, R>(
    state: &mut RuntimeControlState,
    app_config: &[ManagerAppConfigRecord],
    settings: &[u8],
    discover_processes: D,
    freeze_process: F,
    unfreeze_process: U,
    validate_process: V,
    foreground_uids: &[u32],
    timestamp_ms: u128,
    sample_rx_bytes: S,
    terminate_process: K,
    calls: BackendCalls<O, P, C, J, R>,
) -> (r: Result<(), DaemonError>) where
    D: FnMut(&str, u32) -> Result<Vec<RuntimeProcess>, DaemonError>,
    F: FnMut(&RuntimeProcess) -> Result<(), DaemonError>,
    U: FnMut(&RuntimeProcess) -> Result<(), DaemonError>,
    V: FnMut(&RuntimeProcess) -> Result<bool, DaemonError>,
    S: FnMut(u32, &str) -> Result<Option<u64>, DaemonError>,
    K: FnMut(&RuntimeProcess) -> Result<(), DaemonError>,
    O: FnMut(i32, u64) -> Result<Option<SignalStopOwnership>, DaemonError>,
    P: FnMut(&RuntimeProcess) -> Result<(), DaemonError>,
    C: FnMut(&str, bool) -> Option<ProtectedReason>,
    J: FnMut(&ManagedApp, &FreezePolicy, &[RuntimeProcess], BackendEnvironment) -> FreezeDecision,
    R: FnMut(&FreezePolicy, &DaemonError, BackendEnvironment) -> FreezeDecision,

    requires
        well_timed(old(state)@),
        timestamp_ms <= LATEST_TIMESTAMP_MS,
        forall|p: &str, u: u32| call_requires(discover_processes, (p, u)),
        forall|p: &RuntimeProcess| call_requires(freeze_process, (p,)),
        forall|p: &RuntimeProcess| call_requires(unfreeze_process, (p,)),
        forall|p: &RuntimeProcess| call_requires(validate_process, (p,)),
        forall|u: u32, p: &str| call_requires(sample_rx_bytes, (u, p)),
        forall|p: &RuntimeProcess| call_requires(terminate_process, (p,)),
        calls_ready(calls),
    ensures
        well_timed(final(state)@),
        in_step(old(state)@) ==> in_step(final(state)@),
        pass_happened(
            old(state)@,
            app_config@,
            (PassInput {
                settings: settings@,
                foreground: foreground_uids@,
                binder: calls.binder_available,
                at: timestamp_ms,
            }),
            final(state)@,
            failure_of(r),
            (|e: Effect|
                acts_give(discover_processes, freeze_process, unfreeze_process, e)
                    && validation_gives(validate_process, e) && system_gives(
                    sample_rx_bytes,
                    terminate_process,
                    e,
                ) && calls_give(calls, e)),
        ),
{
    run_control_pass_with_sampling(
        state,
        app_config,
        settings,
        discover_processes,
        freeze_process,
        unfreeze_process,
        validate_process,
        sample_rx_bytes,
        foreground_uids,
        timestamp_ms,
        terminate_process,
        calls,
    )
}

/// Runs one pass that takes every process for the one that was discovered.
#[allow(clippy::too_many_arguments)]
pub fn run_control_pass_with_settings<D, F, U, S, K, O, P, C, J, R>(
    state: &mut RuntimeControlState,
    app_config: &[ManagerAppConfigRecord],
    settings: &[u8],
    discover_processes: D,
    freeze_process: F,
    unfreeze_process: U,
    foreground_uids: &[u32],
    timestamp_ms: u128,
    sample_rx_bytes: S,
    terminate_process: K,
    calls: BackendCalls<O, P, C, J, R>,
) -> (r: Result<(), DaemonError>) where
    D: FnMut(&str, u32) -> Result<Vec<RuntimeProcess>, DaemonError>,
    F: FnMut(&RuntimeProcess) -> Result<(), DaemonError>,
    U: FnMut(&RuntimeProcess) -> Result<(), DaemonError>,
    S: FnMut(u32, &str) -> Result<Option<u64>, DaemonError>,
    K: FnMut(&RuntimeProcess) -> Result<(), DaemonError>,
    O: FnMut(i32, u64) -> Result<Option<SignalStopOwnership>, DaemonError>,
    P: FnMut(&RuntimeProcess) -> Result<(), DaemonError>,
    C: FnMut(&str, bool) -> Option<ProtectedReason>,
    J: FnMut(&ManagedApp, &FreezePolicy, &[RuntimeProcess], BackendEnvironment) -> FreezeDecision,
    R: FnMut(&FreezePolicy, &DaemonError, BackendEnvironment) -> FreezeDecision,

    requires
        well_timed(old(state)@),
        timestamp_ms <= LATEST_TIMESTAMP_MS,
        forall|p: &str, u: u32| call_requires(discover_processes, (p, u)),
        forall|p: &RuntimeProcess| call_requires(freeze_process, (p,)),
        forall|p: &RuntimeProcess| call_requires(unfreeze_process, (p,)),
        forall|u: u32, p: &str| call_requires(sample_rx_bytes, (u, p)),
        forall|p: &RuntimeProcess| call_requires(terminate_process, (p,)),
        calls_ready(calls),
    ensures
        well_timed(final(state)@),
        in_step(old(state)@) ==> in_step(final(state)@),
        pass_happened(
            old(state)@,
            app_config@,
            (PassInput {
                settings: settings@,
                foreground: foreground_uids@,
                binder: calls.binder_available,
                at: timestamp_ms,
            }),
            final(state)@,
            failure_of(r),
            (|e: Effect|
                acts_give(discover_processes, freeze_process, unfreeze_process, e) && always_valid(
                    e,
                ) && system_gives(sample_rx_bytes, terminate_process, e) && calls_give(calls, e)),
        ),
{
    let ghost s0 = state@;
    let ghost input = PassInput {
        settings: settings@,
        foreground: foreground_uids@,
        binder: calls.binder_available,
        at: timestamp_ms,
    };
    let ghost more = |e: Effect|
        acts_give(discover_processes, freeze_process, unfreeze_process, e) && always_valid(e)
            && system_gives(sample_rx_bytes, terminate_process, e) && calls_give(calls, e);
    let validate_process = |_process: &RuntimeProcess| -> (r: Result<bool, DaemonError>)
        ensures
            r == Ok::<bool, DaemonError>(true),
        { Ok(true) };
    let ghost gives = |e: Effect|
        acts_give(discover_processes, freeze_process, unfreeze_process, e) && validation_gives(
            validate_process,
            e,
        ) && system_gives(sample_rx_bytes, terminate_process, e) && calls_give(calls, e);
    let r = run_control_pass_with_validation(
        state,
        app_config,
        settings,
        discover_processes,
        freeze_process,
        unfreeze_process,
        validate_process,
        foreground_uids,
        timestamp_ms,
        sample_rx_bytes,
        terminate_process,
        calls,
    );
    proof {
        pass_happened_with_more_replies(
            s0,
            app_config@,
            input,
            state@,
            failure_of(r),
            gives,
            more,
        );
    }
    r
}

/// Runs one pass with all settings zero.
#[allow(clippy::too_many_arguments)]
pub fn run_control_pass<D, F, U, S, K, O, P, C, J, R>(
    state: &mut RuntimeControlState,
    app_config: &[ManagerAppConfigRecord],
    discover_processes: D,
    freeze_process: F,
    unfreeze_process: U,
    foreground_uids: &[u32],
    timestamp_ms: u128,
    sample_rx_bytes: S,
    terminate_process: K,
    calls: BackendCalls<O, P, C, J, R>,
) -> (r: Result<(), DaemonError>) where
    D: FnMut(&str, u32) -> Result<Vec<RuntimeProcess>, DaemonError>,
    F: FnMut(&RuntimeProcess) -> Result<(), DaemonError>,
    U: FnMut(&RuntimeProcess) -> Result<(), DaemonError>,
    S: FnMut(u32, &str) -> Result<Option<u64>, DaemonError>,
    K: FnMut(&RuntimeProcess) -> Result<(), DaemonError>,
    O: FnMut(i32, u64) -> Result<Option<SignalStopOwnership>, DaemonError>,
    P: FnMut(&RuntimeProcess) -> Result<(), DaemonError>,
    C: FnMut(&str, bool) -> Option<ProtectedReason>,
    J: FnMut(&ManagedApp, &FreezePolicy, &[RuntimeProcess], BackendEnvironment) -> FreezeDecision,
    R: FnMut(&FreezePolicy, &DaemonError, BackendEnvironment) -> FreezeDecision,

    requires
        well_timed(old(state)@),
        timestamp_ms <= LATEST_TIMESTAMP_MS,
        forall|p: &str, u: u32| call_requires(discover_processes, (p, u)),
        forall|p: &RuntimeProcess| call_requires(freeze_process, (p,)),
        forall|p: &RuntimeProcess| call_requires(unfreeze_process, (p,)),
        forall|u: u32, p: &str| call_requires(sample_rx_bytes, (u, p)),
        forall|p: &RuntimeProcess| call_requires(terminate_process, (p,)),
        calls_ready(calls),
    ensures
        well_timed(final(state)@),
        in_step(old(state)@) ==> in_step(final(state)@),
        pass_happened(
            old(state)@,
            app_config@,
            (PassInput {
                settings: seq![],
                foreground: foreground_uids@,
                binder: calls.binder_available,
                at: timestamp_ms,
            }),
            final(state)@,
            failure_of(r),
            (|e: Effect|
                acts_give(discover_processes, freeze_process, unfreeze_process, e) && always_valid(
                    e,
                ) && system_gives(sample_rx_bytes, terminate_process, e) && calls_give(calls, e)),
        ),
{
    let settings: Vec<u8> = Vec::new();
    assert(settings@ =~= seq![]);
    run_control_pass_with_settings(
        state,
        app_config,
        settings.as_slice(),
        discover_processes,
        freeze_process,
        unfreeze_process,
        foreground_uids,
        timestamp_ms,
        sample_rx_bytes,
        terminate_process,
        calls,
    )
}

// ---------------------------------------------------------------------------
// Disabling control
// ---------------------------------------------------------------------------

/// Control is disabled: every frozen identity is thawed in order, and everything that only
/// serves control is dropped. What could not be thawed stays frozen.
pub open spec fn thaw_all(s: ControlView, at: u128, log: Seq<Effect>, i: int) -> Option<
    (int, ControlView, Result<(), ErrorView>),
> {
    match thaw_each(s, ordered(s.frozen), 0, "control disabled"@, at, log, i, seq![]) {
        None => None,
        Some((j, s1, failures)) => Some(
            (
                j,
                ControlView {
                    pending: Map::empty(),
                    network: Set::empty(),
                    blocked: Map::empty(),
                    samples: Map::empty(),
                    ..without_detached(s1, Set::full())
                },
                thaw_verdict(failures),
            ),
        ),
    }
}

/// Thaws everything that is frozen and drops what only serves control.
pub fn thaw_all_on<B: ControlBackend>(
    state: &mut RuntimeControlState,
    backend: &mut B,
    timestamp_ms: u128,
) -> (r: Result<(), DaemonError>)
    requires
        old(backend).ready(),
    ensures
        proceeded(*old(backend), *final(backend)),
        final(state)@.audit_start == old(state)@.audit_start,
        in_step(old(state)@) ==> in_step(final(state)@),
        forall|full: Seq<Effect>|
            extends(full, final(backend).trace()) ==> #[trigger] thaw_all(
                old(state)@,
                timestamp_ms,
                full,
                old(backend).trace().len() as int,
            ) == Some((final(backend).trace().len() as int, final(state)@, outcome(r))),
{
    let frozen = state.frozen_apps.keys();
    let failures = thaw_frozen_identities(
        state,
        frozen.as_slice(),
        backend,
        timestamp_ms,
        "control disabled",
    );
    let ghost s1 = state@;
    let owned = state.frozen_ownership.keys();
    state.clear_detached_ownerships(owned.as_slice());
    assert(state@ =~= without_detached(s1, Set::full()));
    let ghost s2 = state@;
    state.pending_freezes.clear();
    state.network_restriction_requests = std::collections::BTreeSet::new();
    state.blocked_process_signatures.clear();
    state.download_deferral = DownloadDeferral::default();
    assert(state@.blocked =~= Map::empty());
    assert(state@ =~= (ControlView {
        pending: Map::empty(),
        network: Set::empty(),
        blocked: Map::empty(),
        samples: Map::empty(),
        ..s2
    }));
    thaw_result_of(failures.as_slice())
}

impl RuntimeControlState {
    /// Thaws everything that is frozen and drops what only serves control.
    pub fn thaw_all_frozen<D, U, V>(
        &mut self,
        discover_processes: D,
        unfreeze_process: U,
        validate_process: V,
        timestamp_ms: u128,
    ) -> (r: Result<(), DaemonError>) where
        D: FnMut(&str, u32) -> Result<Vec<RuntimeProcess>, DaemonError>,
        U: FnMut(&RuntimeProcess) -> Result<(), DaemonError>,
        V: FnMut(&RuntimeProcess) -> Result<bool, DaemonError>,

        requires
            forall|p: &str, u: u32| call_requires(discover_processes, (p, u)),
            forall|p: &RuntimeProcess| call_requires(unfreeze_process, (p,)),
            forall|p: &RuntimeProcess| call_requires(validate_process, (p,)),
        ensures
            final(self)@.audit_start == old(self)@.audit_start,
            in_step(old(self)@) ==> in_step(final(self)@),
            exists|trace: Seq<Effect>|
                #![trigger thaw_all(old(self)@, timestamp_ms, trace, 0)]
                {
                    &&& thaw_all(old(self)@, timestamp_ms, trace, 0) == Some(
                        (trace.len() as int, final(self)@, outcome(r)),
                    )
                    &&& forall|i: int|
                        0 <= i < trace.len() ==> thaw_given(
                            discover_processes,
                            unfreeze_process,
                            validate_process,
                            #[trigger] trace[i],
                        )
                },
    {
        let ghost s0 = self@;
        let mut port = ControlPort::new(
            discover_processes,
            |_process: &RuntimeProcess| -> Result<(), DaemonError> { Ok(()) },
            unfreeze_process,
            validate_process,
            |_uid: u32, _package: &str| -> Result<Option<u64>, DaemonError> { Ok(None) },
            |_process: &RuntimeProcess| -> Result<(), DaemonError> { Ok(()) },
            |_pid: i32, _start: u64| -> Result<Option<SignalStopOwnership>, DaemonError> {
                Ok(None)
            },
            |_process: &RuntimeProcess| -> Result<(), DaemonError> { Ok(()) },
            |_package: &str, _system: bool| -> Option<ProtectedReason> { None },
            |
                _app: &ManagedApp,
                _policy: &FreezePolicy,
                _processes: &[RuntimeProcess],
                _environment: BackendEnvironment,
            | -> FreezeDecision
                { FreezeDecision { action: DecisionAction::Skip, reason: text("") } },
            |
                _policy: &FreezePolicy,
                _error: &DaemonError,
                _environment: BackendEnvironment,
            | -> FreezeDecision
                { FreezeDecision { action: DecisionAction::Skip, reason: text("") } },
        );
        let ghost p0 = port;
        let r = thaw_all_on(self, &mut port, timestamp_ms);
        proof {
            let trace = port.trace();
            assert(extends(trace, trace));
            assert(thaw_all(s0, timestamp_ms, trace, 0) == Some(
                (trace.len() as int, self@, outcome(r)),
            ));
            assert forall|i: int| 0 <= i < trace.len() implies thaw_given(
                discover_processes,
                unfreeze_process,
                validate_process,
                #[trigger] trace[i],
            ) by {
                assert((p0.gives())(trace[i]));
            }
        }
        r
    }
}

/// A discovery, thaw or validation has a reply that the functions can return.
pub open spec fn thaw_given<D, U, V>(discover: D, unfreeze: U, validate: V, e: Effect) -> bool where
    D: FnMut(&str, u32) -> Result<Vec<RuntimeProcess>, DaemonError>,
    U: FnMut(&RuntimeProcess) -> Result<(), DaemonError>,
    V: FnMut(&RuntimeProcess) -> Result<bool, DaemonError>,
 {
    match e {
        Effect::Discover { package, uid, reply } => exists|
            p: &str,
            u: u32,
            r: Result<Vec<RuntimeProcess>, DaemonError>,
        | #[trigger]
            call_ensures(discover, (p, u), r) && p@ == package && u == uid && discovered(r)
                == reply,
        Effect::Unfreeze { process, reply } => exists|
            p: &RuntimeProcess,
            r: Result<(), DaemonError>,
        | #[trigger] call_ensures(unfreeze, (p,), r) && p@ == process && outcome(r) == reply,
        Effect::Validate { process, reply } => exists|
            p: &RuntimeProcess,
            r: Result<bool, DaemonError>,
        | #[trigger] call_ensures(validate, (p,), r) && p@ == process && outcome(r) == reply,
        _ => true,
    }
}

} // verus!
