//! Passes that follow the decisions of the freezer backend, over a device given as functions.

use vstd::prelude::*;

use crate::app::controller::carry::failure_of;
use crate::app::controller::entry::{
    acts_give, evidence_gives, pass_happened, system_gives, thaw_all, validation_gives,
};
use crate::app::controller::live::{round_went, run_live_control_pass, sight_gives, LiveSight};
use crate::app::controller::pass::{controlled, pass_from, run_pass, PassContext};
use crate::app::controller::port::{extends, ControlBackend, ControlPort, Effect};
use crate::app::controller::rules::{well_timed, LATEST_TIMESTAMP_MS};
use crate::app::controller::state::{in_step, ControlView, RuntimeControlState};
use crate::app::error::{outcome, DaemonError, ErrorView};
use crate::app::freezer_backend::{decide_after_error_in, decide_in, decision, decision_after};
use crate::domain::policy::ProtectedReason;
use crate::domain::runtime::RuntimeProcess;
use crate::domain::uids::rising;
use crate::protocol::manager_v1::state::{ManagerView, ReadOnlyState};
use crate::protocol::records::ManagerAppConfigRecord;
use crate::sys::procfs::SignalStopOwnership;
use crate::sys::socket::pass_allowed;

verus! {

/// What a device does and shows, one function for each call.
pub struct DeviceCalls<D, F, U, V, S, K, O, P, C> where
    D: FnMut(&str, u32) -> Result<Vec<RuntimeProcess>, DaemonError>,
    F: FnMut(&RuntimeProcess) -> Result<(), DaemonError>,
    U: FnMut(&RuntimeProcess) -> Result<(), DaemonError>,
    V: FnMut(&RuntimeProcess) -> Result<bool, DaemonError>,
    S: FnMut(u32, &str) -> Result<Option<u64>, DaemonError>,
    K: FnMut(&RuntimeProcess) -> Result<(), DaemonError>,
    O: FnMut(i32, u64) -> Result<Option<SignalStopOwnership>, DaemonError>,
    P: FnMut(&RuntimeProcess) -> Result<(), DaemonError>,
    C: FnMut(&str, bool) -> Option<ProtectedReason>,
 {
    /// Lists the processes of a uid.
    pub discover_processes: D,
    pub freeze_process: F,
    pub unfreeze_process: U,
    /// Whether a process is still the one that was discovered.
    pub validate_process: V,
    /// The received bytes of a uid.
    pub sample_rx_bytes: S,
    pub terminate_process: K,
    /// What the stop ledger holds for a process.
    pub recorded_ownership: O,
    /// Marks a stopped process in the ledger as held by the signal alone.
    pub promote_signal_stop: P,
    /// Why a package is protected.
    pub protected_reason: C,
}

/// Whether the calls can be made with any arguments.
pub open spec fn device_ready<D, F, U, V, S, K, O, P, C>(
    device: DeviceCalls<D, F, U, V, S, K, O, P, C>,
) -> bool where
    D: FnMut(&str, u32) -> Result<Vec<RuntimeProcess>, DaemonError>,
    F: FnMut(&RuntimeProcess) -> Result<(), DaemonError>,
    U: FnMut(&RuntimeProcess) -> Result<(), DaemonError>,
    V: FnMut(&RuntimeProcess) -> Result<bool, DaemonError>,
    S: FnMut(u32, &str) -> Result<Option<u64>, DaemonError>,
    K: FnMut(&RuntimeProcess) -> Result<(), DaemonError>,
    O: FnMut(i32, u64) -> Result<Option<SignalStopOwnership>, DaemonError>,
    P: FnMut(&RuntimeProcess) -> Result<(), DaemonError>,
    C: FnMut(&str, bool) -> Option<ProtectedReason>,
 {
    &&& forall|p: &str, u: u32| call_requires(device.discover_processes, (p, u))
    &&& forall|p: &RuntimeProcess| call_requires(device.freeze_process, (p,))
    &&& forall|p: &RuntimeProcess| call_requires(device.unfreeze_process, (p,))
    &&& forall|p: &RuntimeProcess| call_requires(device.validate_process, (p,))
    &&& forall|u: u32, p: &str| call_requires(device.sample_rx_bytes, (u, p))
    &&& forall|p: &RuntimeProcess| call_requires(device.terminate_process, (p,))
    &&& forall|p: i32, s: u64| call_requires(device.recorded_ownership, (p, s))
    &&& forall|p: &RuntimeProcess| call_requires(device.promote_signal_stop, (p,))
    &&& forall|p: &str, s: bool| call_requires(device.protected_reason, (p, s))
}

/// A decision is the one of the freezer backend for what it was asked; other calls pass.
pub open spec fn follows_the_backend(e: Effect) -> bool {
    match e {
        Effect::Decide { app, policy, processes, environment, reply } => reply == decision(
            app,
            policy,
            processes,
            environment,
        ),
        Effect::Fallback { policy, error, reply, .. } => reply == decision_after(policy, error),
        _ => true,
    }
}

/// A call of the device with a reply that its function can return, or a decision of the freezer
/// backend.
pub open spec fn device_gives<D, F, U, V, S, K, O, P, C>(
    device: DeviceCalls<D, F, U, V, S, K, O, P, C>,
    e: Effect,
) -> bool where
    D: FnMut(&str, u32) -> Result<Vec<RuntimeProcess>, DaemonError>,
    F: FnMut(&RuntimeProcess) -> Result<(), DaemonError>,
    U: FnMut(&RuntimeProcess) -> Result<(), DaemonError>,
    V: FnMut(&RuntimeProcess) -> Result<bool, DaemonError>,
    S: FnMut(u32, &str) -> Result<Option<u64>, DaemonError>,
    K: FnMut(&RuntimeProcess) -> Result<(), DaemonError>,
    O: FnMut(i32, u64) -> Result<Option<SignalStopOwnership>, DaemonError>,
    P: FnMut(&RuntimeProcess) -> Result<(), DaemonError>,
    C: FnMut(&str, bool) -> Option<ProtectedReason>,
 {
    &&& acts_give(device.discover_processes, device.freeze_process, device.unfreeze_process, e)
    &&& validation_gives(device.validate_process, e)
    &&& system_gives(device.sample_rx_bytes, device.terminate_process, e)
    &&& evidence_gives(
        device.recorded_ownership,
        device.promote_signal_stop,
        device.protected_reason,
        e,
    )
    &&& follows_the_backend(e)
}

/// Runs one pass on a device. Every decision in it is the one of the freezer backend.
pub fn run_system_aware_pass<D, F, U, V, S, K, O, P, C>(
    state: &mut RuntimeControlState,
    app_config: &[ManagerAppConfigRecord],
    context: PassContext,
    device: DeviceCalls<D, F, U, V, S, K, O, P, C>,
) -> (r: Result<(), DaemonError>) where
    D: FnMut(&str, u32) -> Result<Vec<RuntimeProcess>, DaemonError>,
    F: FnMut(&RuntimeProcess) -> Result<(), DaemonError>,
    U: FnMut(&RuntimeProcess) -> Result<(), DaemonError>,
    V: FnMut(&RuntimeProcess) -> Result<bool, DaemonError>,
    S: FnMut(u32, &str) -> Result<Option<u64>, DaemonError>,
    K: FnMut(&RuntimeProcess) -> Result<(), DaemonError>,
    O: FnMut(i32, u64) -> Result<Option<SignalStopOwnership>, DaemonError>,
    P: FnMut(&RuntimeProcess) -> Result<(), DaemonError>,
    C: FnMut(&str, bool) -> Option<ProtectedReason>,

    requires
        well_timed(old(state)@),
        context.timestamp_ms <= LATEST_TIMESTAMP_MS,
        device_ready(device),
    ensures
        well_timed(final(state)@),
        in_step(old(state)@) ==> in_step(final(state)@),
        pass_happened(
            old(state)@,
            app_config@,
            context@,
            final(state)@,
            failure_of(r),
            (|e: Effect| device_gives(device, e)),
        ),
{
    let ghost s0 = state@;
    let mut port = ControlPort::new(
        device.discover_processes,
        device.freeze_process,
        device.unfreeze_process,
        device.validate_process,
        device.sample_rx_bytes,
        device.terminate_process,
        device.recorded_ownership,
        device.promote_signal_stop,
        device.protected_reason,
        decide_in,
        decide_after_error_in,
    );
    let ghost p0 = port;
    let r = run_pass(state, app_config, context, &mut port);
    proof {
        let trace = port.trace();
        assert(extends(trace, trace));
        assert(pass_from(s0, app_config@, context@, trace, 0) == Some(
            (trace.len() as int, state@, failure_of(r)),
        ));
        assert forall|i: int| 0 <= i < trace.len() implies device_gives(
            device,
            #[trigger] trace[i],
        ) by {
            assert((p0.gives())(trace[i]));
        }
    }
    r
}

/// A round made exactly these calls: those of a pass where control is allowed, else those that
/// thaw everything.
pub open spec fn round_made<G: FnOnce(&[u32]) -> Result<LiveSight, DaemonError>>(
    gather: G,
    s: ManagerView,
    c: ControlView,
    at: u128,
    trace: Seq<Effect>,
    s2: ManagerView,
    c2: ControlView,
    r: Result<(), ErrorView>,
) -> bool {
    if pass_allowed(s) {
        exists|sight: Result<LiveSight, DaemonError>|
            #![trigger sight_gives(gather, controlled(s.app_config), sight)]
            sight_gives(gather, controlled(s.app_config), sight) && round_went(
                s,
                c,
                sight,
                at,
                trace,
                0,
                trace.len() as int,
                s2,
                c2,
                r,
            )
    } else {
        &&& s2 == (ManagerView { freeze_status: seq![], ..s })
        &&& thaw_all(c, at, trace, 0) == Some((trace.len() as int, c2, r))
    }
}

/// Runs a round on a device. Every decision in it is the one of the freezer backend. The calls
/// are those of [`run_live_control_pass`], in its order.
pub fn run_system_aware_round<D, F, U, V, S, K, O, P, C, G>(
    state: &mut ReadOnlyState,
    control_state: &mut RuntimeControlState,
    gather: G,
    device: DeviceCalls<D, F, U, V, S, K, O, P, C>,
    timestamp_ms: u128,
) -> (r: Result<(), DaemonError>) where
    D: FnMut(&str, u32) -> Result<Vec<RuntimeProcess>, DaemonError>,
    F: FnMut(&RuntimeProcess) -> Result<(), DaemonError>,
    U: FnMut(&RuntimeProcess) -> Result<(), DaemonError>,
    V: FnMut(&RuntimeProcess) -> Result<bool, DaemonError>,
    S: FnMut(u32, &str) -> Result<Option<u64>, DaemonError>,
    K: FnMut(&RuntimeProcess) -> Result<(), DaemonError>,
    O: FnMut(i32, u64) -> Result<Option<SignalStopOwnership>, DaemonError>,
    P: FnMut(&RuntimeProcess) -> Result<(), DaemonError>,
    C: FnMut(&str, bool) -> Option<ProtectedReason>,
    G: FnOnce(&[u32]) -> Result<LiveSight, DaemonError>,

    requires
        well_timed(old(control_state)@),
        timestamp_ms <= LATEST_TIMESTAMP_MS,
        pass_allowed(old(state)@) ==> forall|u: &[u32]|
            rising(u@) && u@.to_set() == controlled(old(state)@.app_config)
                ==> #[trigger] call_requires(gather, (u,)),
        device_ready(device),
    ensures
        well_timed(final(control_state)@),
        in_step(old(control_state)@) ==> in_step(final(control_state)@),
        exists|trace: Seq<Effect>|
            #![trigger round_made(
                gather,
                old(state)@,
                old(control_state)@,
                timestamp_ms,
                trace,
                final(state)@,
                final(control_state)@,
                outcome(r),
            )]
            {
                &&& round_made(
                    gather,
                    old(state)@,
                    old(control_state)@,
                    timestamp_ms,
                    trace,
                    final(state)@,
                    final(control_state)@,
                    outcome(r),
                )
                &&& forall|i: int|
                    0 <= i < trace.len() ==> device_gives(device, #[trigger] trace[i])
            },
{
    let ghost (s, c) = (state@, control_state@);
    let mut port = ControlPort::new(
        device.discover_processes,
        device.freeze_process,
        device.unfreeze_process,
        device.validate_process,
        device.sample_rx_bytes,
        device.terminate_process,
        device.recorded_ownership,
        device.promote_signal_stop,
        device.protected_reason,
        decide_in,
        decide_after_error_in,
    );
    let ghost p0 = port;
    let ghost look = gather;
    let r = run_live_control_pass(state, control_state, gather, &mut port, timestamp_ms);
    proof {
        let trace = port.trace();
        assert(extends(trace, trace));
        assert forall|i: int| 0 <= i < trace.len() implies device_gives(
            device,
            #[trigger] trace[i],
        ) by {
            assert((p0.gives())(trace[i]));
        }
        assert(round_made(
            look,
            s,
            c,
            timestamp_ms,
            trace,
            state@,
            control_state@,
            outcome(r),
        ));
    }
    r
}

} // verus!
