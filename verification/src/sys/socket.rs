//! Decisions around the manager's connection and the hook.

use vstd::prelude::*;
use vstd::string::*;

use crate::app::compatibility::{device_report, RuntimeEnvironment, RuntimeView};
use crate::app::controller::rules::{controls, is_control_policy_mode};
use crate::app::error::{error_text, outcome, DaemonError, ErrorView};
use crate::app::health::{evaluated, HealthStatus, ModuleHealth};
use crate::app::logging::{
    pushed, stands_in, text_record, LogCategory, LogLevel, LogRecord, RecordView,
};
use crate::domain::capability::{capability_views, CapabilityView, ControlCapability};
use crate::protocol::bytes::{le_bytes, le_u32, push_u32, read_u32, signed, to_signed};
use crate::protocol::manager_v1::app_config::{
    app_config_reads_back, encode_app_config, encode_xposed_config_payload, hook_payload,
};
use crate::protocol::manager_v1::frame::ManagerCommand;
use crate::protocol::manager_v1::state::{same_bytes, ManagerView, ReadOnlyState};
use crate::protocol::manager_v2::{
    check_text, compatibility_report_json, health_report_json, health_text,
    self_check_json_for_runtime,
};
use crate::protocol::records::ManagerAppConfigRecord;
use crate::protocol::xposed::{
    bridge_error, bridge_health, bridge_label, classify_bridge_error,
    classify_hook_health_payload, BridgeView, XposedCommand,
};
use crate::sys::freezer::{
    binder_can_freeze, call_gives, cgroup_can_fail, done, freeze_on, freeze_result,
    path_call_gives, path_view, takes_path, thaw_failures, thaw_on, thaw_result, FreezePort,
    FreezerBackend, FreezerEffect, StepView, ThawPort,
};
use crate::sys::hook::{
    health_gives, health_view, hook_gives, hook_reply, made, query_gives, request_gives,
    send_gives, takes_payload, takes_request, HealthPort, HookBackend, HookCall, HookEffect,
    HookReply, RequestPort,
};
use crate::text::{copy, decimal, number, same, text};

verus! {

/// Whether a command changes the policy.
pub fn is_policy_mutation_command(command: ManagerCommand) -> (r: bool)
    ensures
        r == (command == ManagerCommand::SetAppCfg || command == ManagerCommand::SetSettingsVar),
{
    command == ManagerCommand::SetAppCfg || command == ManagerCommand::SetSettingsVar
}

/// Whether a record puts an application under control.
pub open spec fn any_controlled(records: Seq<ManagerAppConfigRecord>) -> bool {
    exists|i: int| 0 <= i < records.len() && controls((#[trigger] records[i]).mode)
}

/// Whether processes may be controlled now: the device allows it, the hook is active and has the
/// current configuration, and there is an application to control.
pub open spec fn pass_allowed(s: ManagerView) -> bool {
    s.control_allowed && s.hook_health == "active"@ && s.hook_config_synced && any_controlled(
        s.app_config,
    )
}

/// Whether processes may be controlled now.
pub fn should_run_control_pass(state: &ReadOnlyState) -> (r: bool)
    ensures
        r == pass_allowed(state@),
{
    if !(state.control_allowed && same(state.hook_health.as_str(), "active")
        && state.hook_config_synced) {
        return false;
    }
    let mut i: usize = 0;
    while i < state.app_config.len()
        invariant
            i <= state.app_config@.len(),
            state@.control_allowed && state@.hook_health == "active"@ && state@.hook_config_synced,
            forall|k: int| 0 <= k < i ==> !controls((#[trigger] state.app_config@[k]).mode),
        decreases state.app_config@.len() - i,
    {
        if is_control_policy_mode(state.app_config[i].mode) {
            assert(controls(state@.app_config[i as int].mode));
            return true;
        }
        i += 1;
    }
    false
}

/// Without the applications in the foreground nothing is controlled: their absence is an error,
/// never an empty list.
pub fn require_foreground_uids_for_control(foreground_uids: Result<Vec<u32>, DaemonError>) -> (r:
    Result<Vec<u32>, DaemonError>)
    ensures
        match foreground_uids {
            Ok(v) => r matches Ok(w) && w@ == v@,
            Err(e) => r matches Err(f) && f@ == e@,
        },
{
    foreground_uids
}

// ---------------------------------------------------------------------------
// Freezing and thawing a process
// ---------------------------------------------------------------------------

/// The calls of a thaw were made: with a cgroup all three, else the signal alone. The signal is
/// sent whatever came before.
pub open spec fn thaw_made<T, B, S>(
    thaw: T,
    binder: B,
    resume: S,
    path: Option<Seq<char>>,
    a: Result<(), ErrorView>,
    b: Result<(), ErrorView>,
    c: Result<(), ErrorView>,
) -> bool where
    T: FnOnce(&str) -> Result<(), DaemonError>,
    B: FnOnce() -> Result<(), DaemonError>,
    S: FnOnce() -> Result<(), DaemonError>,
 {
    &&& (path matches Some(p) ==> path_call_gives(thaw, p, a) && call_gives(binder, b))
    &&& call_gives(resume, c)
}

/// Thaws a process: its cgroup and the binder where it has a cgroup, and always the signal. The
/// calls are those of [`thaw_on`], in its order.
pub fn run_unfreeze_sequence<T, B, S>(
    cgroup_path: Option<&str>,
    thaw_cgroup: T,
    unfreeze_binder: B,
    resume_signal: S,
) -> (r: Result<(), DaemonError>) where
    T: FnOnce(&str) -> Result<(), DaemonError>,
    B: FnOnce() -> Result<(), DaemonError>,
    S: FnOnce() -> Result<(), DaemonError>,

    requires
        cgroup_path matches Some(path) ==> takes_path(thaw_cgroup, path@) && call_requires(
            unfreeze_binder,
            (),
        ),
        call_requires(resume_signal, ()),
    ensures
        exists|a: Result<(), ErrorView>, b: Result<(), ErrorView>, c: Result<(), ErrorView>|
            #[trigger]
            thaw_made(
                thaw_cgroup,
                unfreeze_binder,
                resume_signal,
                path_view(cgroup_path),
                a,
                b,
                c,
            ) && done(r) == thaw_result(thaw_failures(cgroup_path is Some, a, b, c)),
{
    let ghost (thaw, binder, resume) = (thaw_cgroup, unfreeze_binder, resume_signal);
    let mut port = ThawPort::new(thaw_cgroup, unfreeze_binder, resume_signal);
    let ghost before = port;
    let r = thaw_on(cgroup_path, &mut port);
    proof {
        let nothing: Result<(), ErrorView> = Ok(());
        match cgroup_path {
            Some(path) => {
                let t = port.trace();
                assert(t[0].step == StepView::ThawCgroup(path@));
                assert(t[1].step == StepView::UnfreezeBinder);
                assert(t[2].step == StepView::Resume);
                assert(thaw_made(
                    thaw,
                    binder,
                    resume,
                    Some(path@),
                    t[0].reply,
                    t[1].reply,
                    t[2].reply,
                ));
            },
            None => {
                let t = port.trace();
                assert(t[0].step == StepView::Resume);
                assert(thaw_made(thaw, binder, resume, None, nothing, nothing, t[0].reply));
            },
        }
    }
    r
}

/// The calls that a freeze with a cgroup needs were made.
pub open spec fn freeze_made<B, T, C>(
    binder: B,
    freeze: T,
    cleanup: C,
    path: Seq<char>,
    a: Result<(), ErrorView>,
    b: Result<(), ErrorView>,
    c: Result<(), ErrorView>,
) -> bool where
    B: FnOnce() -> Result<(), DaemonError>,
    T: FnOnce(&str) -> Result<(), DaemonError>,
    C: FnOnce() -> Result<(), DaemonError>,
 {
    &&& call_gives(binder, a)
    &&& a is Ok ==> path_call_gives(freeze, path, b)
    &&& a is Ok && b is Err ==> call_gives(cleanup, c)
}

/// Freezes a process in a cgroup. The binder is thawed again only after the cgroup could not be
/// frozen. The calls are those of [`freeze_on`], in its order.
pub fn run_freeze_sequence<B, T, C>(
    cgroup_path: &str,
    freeze_binder: B,
    freeze_cgroup: T,
    unfreeze_binder: C,
) -> (r: Result<(), DaemonError>) where
    B: FnOnce() -> Result<(), DaemonError>,
    T: FnOnce(&str) -> Result<(), DaemonError>,
    C: FnOnce() -> Result<(), DaemonError>,

    requires
        call_requires(freeze_binder, ()),
        call_gives(freeze_binder, Ok(())) ==> takes_path(freeze_cgroup, cgroup_path@),
        (exists|b: Result<(), ErrorView>|
            b is Err && #[trigger] path_call_gives(freeze_cgroup, cgroup_path@, b))
            ==> call_requires(unfreeze_binder, ()),
    ensures
        exists|a: Result<(), ErrorView>, b: Result<(), ErrorView>, c: Result<(), ErrorView>|
            #[trigger]
            freeze_made(freeze_binder, freeze_cgroup, unfreeze_binder, cgroup_path@, a, b, c)
                && done(r) == freeze_result(a, b, c),
{
    let ghost (binder, freeze, cleanup) = (freeze_binder, freeze_cgroup, unfreeze_binder);
    let mut port = FreezePort::new(freeze_binder, freeze_cgroup, unfreeze_binder);
    proof {
        if binder_can_freeze(port) {
            let e = choose|e: FreezerEffect| #[trigger]
                (port.gives())(e) && e.step == StepView::FreezeBinder && e.reply is Ok;
            assert(call_gives(binder, e.reply));
        }
        if cgroup_can_fail(port, cgroup_path@) {
            let e = choose|e: FreezerEffect| #[trigger]
                (port.gives())(e) && e.step == StepView::FreezeCgroup(cgroup_path@)
                    && e.reply is Err;
            assert(path_call_gives(freeze, cgroup_path@, e.reply));
        }
    }
    let r = freeze_on(cgroup_path, &mut port);
    proof {
        let nothing: Result<(), ErrorView> = Ok(());
        let t = port.trace();
        assert(t[0].step == StepView::FreezeBinder);
        if t[0].reply is Err {
            assert(freeze_made(
                binder,
                freeze,
                cleanup,
                cgroup_path@,
                t[0].reply,
                nothing,
                nothing,
            ));
        } else {
            assert(t[1].step == StepView::FreezeCgroup(cgroup_path@));
            if t[1].reply is Err {
                assert(t[2].step == StepView::UnfreezeBinder);
            }
            assert(freeze_made(
                binder,
                freeze,
                cleanup,
                cgroup_path@,
                t[0].reply,
                t[1].reply,
                t[2].reply,
            ));
        }
    }
    r
}

// ---------------------------------------------------------------------------
// The state that the hook shares
// ---------------------------------------------------------------------------

/// The bytes of uids.
pub open spec fn uid_bytes(uids: Seq<u32>) -> Seq<u8>
    decreases uids.len(),
{
    if uids.len() == 0 {
        seq![]
    } else {
        uid_bytes(uids.drop_last()) + le_bytes(uids.last())
    }
}

/// Writes uids for the hook.
pub fn encode_uid_payload(uids: &[u32]) -> (r: Vec<u8>)
    ensures
        r@ == uid_bytes(uids@),
{
    let mut out: Vec<u8> = Vec::new();
    let mut i: usize = 0;
    assert(out@ =~= uid_bytes(uids@.take(0)));
    while i < uids.len()
        invariant
            i <= uids@.len(),
            out@ == uid_bytes(uids@.take(i as int)),
        decreases uids@.len() - i,
    {
        assert(uids@.take(i + 1).drop_last() =~= uids@.take(i as int));
        push_u32(&mut out, uids[i]);
        i += 1;
    }
    assert(uids@.take(i as int) =~= uids@);
    out
}

/// The name of a command of the hook.
pub open spec fn hook_command_name(c: XposedCommand) -> Seq<char> {
    match c {
        XposedCommand::GetForeground => "GetForeground"@,
        XposedCommand::GetScreen => "GetScreen"@,
        XposedCommand::GetXpLog => "GetXpLog"@,
        XposedCommand::SetConfig => "SetConfig"@,
        XposedCommand::SetWakeupLock => "SetWakeupLock"@,
        XposedCommand::BreakNetwork => "BreakNetwork"@,
        XposedCommand::UpdatePending => "UpdatePending"@,
        XposedCommand::GetHookHealth => "GetHookHealth"@,
        XposedCommand::GetRuntimeAppStates => "GetRuntimeAppStates"@,
        XposedCommand::GetSystemFreezerHints => "GetSystemFreezerHints"@,
    }
}

fn name_of_hook_command(c: XposedCommand) -> (r: &'static str)
    ensures
        r@ == hook_command_name(c),
{
    match c {
        XposedCommand::GetForeground => "GetForeground",
        XposedCommand::GetScreen => "GetScreen",
        XposedCommand::GetXpLog => "GetXpLog",
        XposedCommand::SetConfig => "SetConfig",
        XposedCommand::SetWakeupLock => "SetWakeupLock",
        XposedCommand::BreakNetwork => "BreakNetwork",
        XposedCommand::UpdatePending => "UpdatePending",
        XposedCommand::GetHookHealth => "GetHookHealth",
        XposedCommand::GetRuntimeAppStates => "GetRuntimeAppStates",
        XposedCommand::GetSystemFreezerHints => "GetSystemFreezerHints",
    }
}

/// Why a reply is no success.
pub open spec fn reply_fault(command: XposedCommand, response: Seq<u8>) -> Option<ErrorView> {
    if response.len() < 4 {
        Some(
            ErrorView::Protocol(
                "xposed "@ + hook_command_name(command) + " response header is incomplete"@,
            ),
        )
    } else if signed(le_u32(response, 0)) != 2 {
        Some(
            ErrorView::System("xposed "@ + hook_command_name(command) + " rejected request"@),
        )
    } else {
        None
    }
}

/// Refuses a reply that is no success.
pub fn require_xposed_success(command: XposedCommand, response: &[u8]) -> (r: Result<
    (),
    DaemonError,
>)
    ensures
        match reply_fault(command, response@) {
            None => r is Ok,
            Some(error) => r matches Err(e) && e@ == error,
        },
{
    if response.len() < 4 {
        let mut message = text("xposed ");
        message.append(name_of_hook_command(command));
        message.append(" response header is incomplete");
        return Err(DaemonError::protocol(message.as_str()));
    }
    if to_signed(read_u32(response, 0)) != 2 {
        let mut message = text("xposed ");
        message.append(name_of_hook_command(command));
        message.append(" rejected request");
        return Err(DaemonError::system(message.as_str()));
    }
    Ok(())
}

/// Why a request failed.
pub open spec fn request_fault(
    command: XposedCommand,
    reply: Result<Seq<u8>, ErrorView>,
) -> Option<ErrorView> {
    match reply {
        Err(e) => Some(e),
        Ok(response) => reply_fault(command, response),
    }
}

/// The uids whose request failed.
pub open spec fn failed_uids(uids: Seq<u32>, replies: Seq<Result<Seq<u8>, ErrorView>>) -> Seq<u32>
    decreases uids.len(),
{
    if uids.len() == 0 {
        seq![]
    } else {
        let rest = failed_uids(uids.drop_last(), replies.drop_last());
        if request_fault(XposedCommand::BreakNetwork, replies.last()) is Some {
            rest.push(uids.last())
        } else {
            rest
        }
    }
}

/// What came of telling the hook.
#[derive(Debug, PartialEq, Eq)]
pub struct HookRuntimeSyncOutcome {
    pub pending_error: Option<String>,
    pub failed_network_uids: Vec<u32>,
}

/// Replies of the hook for the pending applications and for each one that loses the network.
pub open spec fn sync_made<F: FnMut(XposedCommand, &[u8]) -> Result<Vec<u8>, DaemonError>>(
    request: F,
    pending: Seq<u32>,
    network: Seq<u32>,
    first: Result<Seq<u8>, ErrorView>,
    replies: Seq<Result<Seq<u8>, ErrorView>>,
) -> bool {
    &&& hook_gives(request, XposedCommand::UpdatePending, uid_bytes(pending), first)
    &&& replies.len() == network.len()
    &&& forall|i: int|
        0 <= i < network.len() ==> hook_gives(
            request,
            XposedCommand::BreakNetwork,
            le_bytes(#[trigger] network[i]),
            replies[i],
        )
}

/// The requests that tell the hook: the pending applications first, then one for each
/// application that loses the network, in order.
pub open spec fn sync_requests(pending: Seq<u32>, network: Seq<u32>) -> Seq<HookCall> {
    seq![HookCall::Request(XposedCommand::UpdatePending, uid_bytes(pending))]
        + network.map_values(
        |uid: u32| HookCall::Request(XposedCommand::BreakNetwork, le_bytes(uid)),
    )
}

/// The reply to a request.
pub open spec fn request_reply(e: HookEffect) -> Result<Seq<u8>, ErrorView> {
    match e.reply {
        HookReply::Request(reply) => reply,
        _ => Err(ErrorView::System(seq![])),
    }
}

/// The replies to `n` requests from position `from` on.
pub open spec fn request_replies(trace: Seq<HookEffect>, from: int, n: nat) -> Seq<
    Result<Seq<u8>, ErrorView>,
> {
    Seq::new(n, |k: int| request_reply(trace[from + k]))
}

/// The outcome that follows from the replies.
pub open spec fn sync_outcome(
    r: HookRuntimeSyncOutcome,
    network: Seq<u32>,
    first: Result<Seq<u8>, ErrorView>,
    replies: Seq<Result<Seq<u8>, ErrorView>>,
) -> bool {
    &&& r.failed_network_uids@ == failed_uids(network, replies)
    &&& match request_fault(XposedCommand::UpdatePending, first) {
        Some(e) => r.pending_error matches Some(m) && m@ == error_text(e),
        None => r.pending_error is None,
    }
}

/// Tells the hook which applications wait for a freeze, and which ones lose the network. An
/// empty list is told too: it clears what the hook remembers. Nothing else is requested.
pub fn sync_hook_on<B: HookBackend>(
    pending_uids: &[u32],
    network_uids: &[u32],
    hook: &mut B,
) -> (r: HookRuntimeSyncOutcome)
    requires
        old(hook).may(HookCall::Request(XposedCommand::UpdatePending, uid_bytes(pending_uids@))),
        forall|i: int|
            0 <= i < network_uids@.len() ==> old(hook).may(
                HookCall::Request(XposedCommand::BreakNetwork, le_bytes(#[trigger] network_uids@[i])),
            ),
    ensures
        made(*old(hook), *final(hook), sync_requests(pending_uids@, network_uids@)),
        sync_outcome(
            r,
            network_uids@,
            request_reply(final(hook).trace()[old(hook).trace().len() as int]),
            request_replies(
                final(hook).trace(),
                old(hook).trace().len() as int + 1,
                network_uids@.len(),
            ),
        ),
{
    let ghost before = *hook;
    let ghost n = hook.trace().len() as int;
    let ghost calls = sync_requests(pending_uids@, network_uids@);
    let payload = encode_uid_payload(pending_uids);
    let reply = hook.request(XposedCommand::UpdatePending, payload.as_slice());
    let ghost first = hook_reply(reply);
    let pending_error: Option<String> = match reply {
        Err(e) => Some(copy(e.message())),
        Ok(response) => match require_xposed_success(
            XposedCommand::UpdatePending,
            response.as_slice(),
        ) {
            Ok(()) => None,
            Err(e) => Some(copy(e.message())),
        },
    };
    let mut failed: Vec<u32> = Vec::new();
    let mut i: usize = 0;
    assert(request_replies(hook.trace(), n + 1, 0) =~= seq![]);
    assert(failed@ =~= failed_uids(
        network_uids@.take(0),
        request_replies(hook.trace(), n + 1, 0),
    ));
    while i < network_uids.len()
        invariant
            i <= network_uids@.len(),
            n == before.trace().len(),
            calls == sync_requests(pending_uids@, network_uids@),
            hook.gives() == before.gives(),
            hook.trace().len() == n + 1 + i,
            forall|k: int| 0 <= k < n ==> #[trigger] hook.trace()[k] == before.trace()[k],
            forall|k: int|
                n <= k < n + 1 + i ==> (#[trigger] hook.trace()[k]).call == calls[k - n]
                    && (before.gives())(hook.trace()[k]),
            request_reply(hook.trace()[n]) == first,
            forall|k: int|
                0 <= k < network_uids@.len() ==> hook.may(
                    HookCall::Request(
                        XposedCommand::BreakNetwork,
                        le_bytes(#[trigger] network_uids@[k]),
                    ),
                ),
            failed@ == failed_uids(
                network_uids@.take(i as int),
                request_replies(hook.trace(), n + 1, i as nat),
            ),
        decreases network_uids@.len() - i,
    {
        let uid = network_uids[i];
        let mut payload: Vec<u8> = Vec::new();
        push_u32(&mut payload, uid);
        assert(payload@ =~= le_bytes(uid));
        let ghost trace = hook.trace();
        let reply = hook.request(XposedCommand::BreakNetwork, payload.as_slice());
        proof {
            let replies = request_replies(hook.trace(), n + 1, (i + 1) as nat);
            assert(replies.drop_last() =~= request_replies(trace, n + 1, i as nat));
            assert(replies.last() == hook_reply(reply));
            assert(network_uids@.take(i + 1).drop_last() =~= network_uids@.take(i as int));
        }
        let refused = match reply {
            Err(_) => true,
            Ok(response) => require_xposed_success(
                XposedCommand::BreakNetwork,
                response.as_slice(),
            ).is_err(),
        };
        if refused {
            failed.push(uid);
        }
        i += 1;
    }
    assert(network_uids@.take(i as int) =~= network_uids@);
    HookRuntimeSyncOutcome { pending_error, failed_network_uids: failed }
}

/// Tells the hook which applications wait for a freeze, and which ones lose the network. The
/// requests are those of [`sync_hook_on`], in its order.
pub fn sync_hook_runtime_state<F: FnMut(XposedCommand, &[u8]) -> Result<Vec<u8>, DaemonError>>(
    pending_uids: &[u32],
    network_uids: &[u32],
    request: F,
) -> (r: HookRuntimeSyncOutcome)
    requires
        takes_request(request, XposedCommand::UpdatePending, uid_bytes(pending_uids@)),
        forall|i: int|
            0 <= i < network_uids@.len() ==> takes_request(
                request,
                XposedCommand::BreakNetwork,
                le_bytes(#[trigger] network_uids@[i]),
            ),
    ensures
        exists|first: Result<Seq<u8>, ErrorView>, replies: Seq<Result<Seq<u8>, ErrorView>>|
            #[trigger]
            sync_made(request, pending_uids@, network_uids@, first, replies) && sync_outcome(
                r,
                network_uids@,
                first,
                replies,
            ),
{
    let ghost f = request;
    let mut port = RequestPort::new(request);
    let r = sync_hook_on(pending_uids, network_uids, &mut port);
    proof {
        let t = port.trace();
        let calls = sync_requests(pending_uids@, network_uids@);
        let first = request_reply(t[0]);
        let replies = request_replies(t, 1, network_uids@.len());
        assert(t[0].call == calls[0]);
        assert(request_gives(f, t[0]));
        assert forall|i: int| 0 <= i < network_uids@.len() implies hook_gives(
            f,
            XposedCommand::BreakNetwork,
            le_bytes(#[trigger] network_uids@[i]),
            replies[i],
        ) by {
            assert(t[i + 1].call == calls[i + 1]);
            assert(request_gives(f, t[i + 1]));
        }
        assert(sync_made(f, pending_uids@, network_uids@, first, replies));
    }
    r
}

// ---------------------------------------------------------------------------
// The health of the hook
// ---------------------------------------------------------------------------

/// What is sent to the hook, and for which revision of the configuration.
#[derive(Debug, PartialEq, Eq)]
pub struct HookHealthWork {
    pub needs_config_sync: bool,
    pub xposed_payload: Option<Vec<u8>>,
    pub config_revision: u64,
}

/// What came back from the hook.
#[derive(Debug, PartialEq, Eq)]
pub struct HookHealthResult {
    pub sync_result: Option<Result<bool, DaemonError>>,
    pub health_result: Result<String, DaemonError>,
}

/// The payload for the hook, where there is one.
pub open spec fn current_payload(s: ManagerView) -> Option<Seq<u8>> {
    match hook_payload(s.settings, s.app_config) {
        Ok(b) => Some(b),
        Err(_) => None,
    }
}

/// Optional bytes as a value.
pub open spec fn payload_view(b: Option<Vec<u8>>) -> Option<Seq<u8>> {
    match b {
        Some(v) => Some(v@),
        None => None,
    }
}

fn encode_current_config(state: &ReadOnlyState) -> (r: Option<Vec<u8>>)
    ensures
        payload_view(r) == current_payload(state@),
{
    let wire = encode_app_config(state.app_config.as_slice());
    proof {
        app_config_reads_back(state.app_config@);
    }
    match encode_xposed_config_payload(state.settings.as_slice(), wire.as_slice()) {
        Ok(p) => Some(p),
        Err(_) => None,
    }
}

/// Prepares what is sent to the hook. The configuration is sent every time: a hook that was
/// restarted has lost it.
pub fn prepare_hook_health_work(state: &ReadOnlyState) -> (r: HookHealthWork)
    ensures
        r.needs_config_sync,
        payload_view(r.xposed_payload) == current_payload(state@),
        r.config_revision == state@.config_revision,
{
    HookHealthWork {
        needs_config_sync: true,
        xposed_payload: encode_current_config(state),
        config_revision: state.config_revision,
    }
}

/// The calls that the work needs: the configuration where it is due and could be encoded, then
/// the health.
pub open spec fn health_calls(work: HookHealthWork) -> Seq<HookCall> {
    match work.xposed_payload {
        Some(payload) if work.needs_config_sync => seq![
            HookCall::SetConfig(payload@),
            HookCall::Health,
        ],
        _ => seq![HookCall::Health],
    }
}

/// What comes of the work: what the hook replied, or why the configuration was not sent.
pub open spec fn health_work_done<B: HookBackend>(
    work: HookHealthWork,
    before: B,
    after: B,
    r: HookHealthResult,
) -> bool {
    let n = before.trace().len() as int;
    let t = after.trace();
    &&& made(before, after, health_calls(work))
    &&& HookReply::Health(health_view(r.health_result)) == t.last().reply
    &&& match work.xposed_payload {
        Some(_) if work.needs_config_sync => r.sync_result matches Some(s) && t[n].reply
            == HookReply::SetConfig(outcome(s)),
        None if work.needs_config_sync => sync_view(r.sync_result) == Some(
            Err::<bool, ErrorView>(
                ErrorView::Protocol("failed to encode xposed config payload for sync"@),
            ),
        ),
        _ => r.sync_result is None,
    }
}

/// Sends the configuration to the hook, where that is due, and then asks for its health. A
/// configuration that could not be encoded is not sent.
pub fn hook_health_on<B: HookBackend>(work: &HookHealthWork, hook: &mut B) -> (r: HookHealthResult)
    requires
        work.xposed_payload matches Some(payload) ==> work.needs_config_sync ==> old(hook).may(
            HookCall::SetConfig(payload@),
        ),
        old(hook).may(HookCall::Health),
    ensures
        health_work_done(*work, *old(hook), *final(hook), r),
{
    let sync_result: Option<Result<bool, DaemonError>> = if work.needs_config_sync {
        match &work.xposed_payload {
            Some(payload) => Some(hook.set_config(payload.as_slice())),
            None => Some(
                Err(DaemonError::protocol("failed to encode xposed config payload for sync")),
            ),
        }
    } else {
        None
    };
    let health_result = hook.health();
    HookHealthResult { sync_result, health_result }
}

/// Sends the configuration to the hook and asks for its health. The calls are those of
/// [`hook_health_on`], in its order.
pub fn execute_hook_health_work<F, Q>(
    work: &HookHealthWork,
    set_app_config: F,
    query_hook_health: Q,
) -> (r: HookHealthResult) where
    F: FnOnce(&[u8]) -> Result<bool, DaemonError>,
    Q: FnOnce() -> Result<String, DaemonError>,

    requires
        work.xposed_payload matches Some(payload) ==> work.needs_config_sync ==> takes_payload(
            set_app_config,
            payload@,
        ),
        call_requires(query_hook_health, ()),
    ensures
        query_gives(query_hook_health, health_view(r.health_result)),
        if !work.needs_config_sync {
            r.sync_result is None
        } else {
            match work.xposed_payload {
                None => sync_view(r.sync_result) == Some(
                    Err::<bool, ErrorView>(
                        ErrorView::Protocol("failed to encode xposed config payload for sync"@),
                    ),
                ),
                Some(payload) => sync_view(r.sync_result) is Some && send_gives(
                    set_app_config,
                    payload@,
                    sync_view(r.sync_result)->0,
                ),
            }
        },
{
    let ghost (send, query) = (set_app_config, query_hook_health);
    let mut port = HealthPort::new(set_app_config, query_hook_health);
    let r = hook_health_on(work, &mut port);
    proof {
        let t = port.trace();
        let calls = health_calls(*work);
        assert(t.last() == t[t.len() - 1]);
        assert(health_gives(send, query, t[t.len() - 1]));
        assert(health_gives(send, query, t[0]));
        assert(t[0].call == calls[0]);
    }
    r
}

/// The state with a record in the log, unless one like it stands there.
pub open spec fn told_once(s: ManagerView, record: RecordView) -> ManagerView {
    ManagerView {
        manager_log: if stands_in(s.manager_log, record) {
            s.manager_log
        } else {
            pushed(s.manager_log, record)
        },
        ..s
    }
}

/// The message about a configuration that the hook has.
pub open spec fn synced_message(s: ManagerView) -> Seq<char> {
    "hook config synced: managed_apps="@ + decimal(s.app_config.len()) + " settings="@ + decimal(
        s.settings.len(),
    )
}

/// Writes the message about a configuration that the hook has.
pub fn write_synced_message(state: &ReadOnlyState) -> (r: String)
    ensures
        r@ == synced_message(state@),
{
    let mut out = text("hook config synced: managed_apps=");
    let part = number(state.app_config.len() as u128);
    out.append(part.as_str());
    out.append(" settings=");
    let part = number(state.settings.len() as u128);
    out.append(part.as_str());
    out
}

/// The state after the configuration was sent. The hook counts as in step only if what it
/// accepted is still the current configuration, in the same revision.
pub open spec fn after_sync(
    s: ManagerView,
    revision: u64,
    payload: Option<Seq<u8>>,
    result: Option<Result<bool, ErrorView>>,
    now_ms: u128,
) -> ManagerView {
    match result {
        None => s,
        Some(Err(e)) => told_once(
            ManagerView { hook_config_synced: false, ..s },
            text_record(
                LogLevel::Warn,
                LogCategory::Fault,
                now_ms,
                "hook config sync failed: "@ + error_text(e),
            ),
        ),
        Some(Ok(synced)) => {
            let current = synced && revision == s.config_revision && payload is Some && payload
                == current_payload(s);
            let next = ManagerView { hook_config_synced: current, ..s };
            told_once(
                next,
                if current {
                    text_record(
                        LogLevel::Debug,
                        LogCategory::Diagnostic,
                        now_ms,
                        synced_message(s),
                    )
                } else if synced {
                    text_record(
                        LogLevel::Warn,
                        LogCategory::Fault,
                        now_ms,
                        "discarded stale hook config sync result"@,
                    )
                } else {
                    text_record(
                        LogLevel::Warn,
                        LogCategory::Fault,
                        now_ms,
                        "hook config sync rejected"@,
                    )
                },
            )
        },
    }
}

/// The state after the hook reported its health. A hook that is not ready is not in step.
pub open spec fn after_health(s: ManagerView, health: Result<Seq<char>, ErrorView>) -> ManagerView {
    match health {
        Ok(payload) => {
            let status = bridge_health(payload);
            ManagerView {
                hook_health: bridge_label(status),
                xp_log: payload,
                hook_config_synced: s.hook_config_synced && status == BridgeView::Active,
                ..s
            }
        },
        Err(e) => {
            let label = bridge_label(bridge_error(error_text(e)));
            ManagerView {
                hook_health: label,
                xp_log: "hook bridge "@ + label,
                hook_config_synced: false,
                ..s
            }
        },
    }
}

/// The reports and the permission that a device gives.
pub open spec fn diagnosed(
    s: ManagerView,
    runtime: RuntimeView,
    capabilities: Seq<CapabilityView>,
    policy_ready: bool,
) -> ManagerView {
    let health = evaluated(
        true,
        true,
        runtime.hook_ready,
        runtime.root_ready,
        runtime.freezer_ready,
        policy_ready,
    );
    ManagerView {
        health_report_json: health_text(health),
        self_check_json: check_text(
            health,
            capabilities,
            health.status == HealthStatus::Active && runtime.allows(capabilities),
        ),
        compatibility_report_json: device_report(runtime, capabilities),
        control_allowed: runtime.allows(capabilities),
        ..s
    }
}

/// Puts the reports and the permission that a device gives into the state.
pub fn update_diagnostics(
    state: &mut ReadOnlyState,
    runtime: &RuntimeEnvironment,
    capabilities: &[ControlCapability],
    policy_ready: bool,
)
    ensures
        final(state)@ == diagnosed(
            old(state)@,
            runtime@,
            capability_views(capabilities@),
            policy_ready,
        ),
{
    let health = ModuleHealth::evaluate(
        true,
        true,
        runtime.hook_ready,
        runtime.root_ready,
        runtime.freezer_ready,
        policy_ready,
    );
    state.health_report_json = health_report_json(&health);
    state.self_check_json = self_check_json_for_runtime(&health, capabilities, runtime);
    state.compatibility_report_json = compatibility_report_json(runtime, capabilities);
    state.control_allowed = runtime.allows_control(capabilities);
}

/// The result of sending the configuration as a value.
pub open spec fn sync_view(r: Option<Result<bool, DaemonError>>) -> Option<
    Result<bool, ErrorView>,
> {
    match r {
        None => None,
        Some(Ok(b)) => Some(Ok(b)),
        Some(Err(e)) => Some(Err(e@)),
    }
}

fn tell_once(state: &mut ReadOnlyState, record: LogRecord)
    ensures
        final(state)@ == told_once(old(state)@, record@),
{
    state.manager_log.push_once(record);
}

fn take_sync_result(
    state: &mut ReadOnlyState,
    work: &HookHealthWork,
    result: Option<Result<bool, DaemonError>>,
    now_ms: u128,
)
    ensures
        final(state)@ == after_sync(
            old(state)@,
            work.config_revision,
            payload_view(work.xposed_payload),
            sync_view(result),
            now_ms,
        ),
{
    match result {
        None => {},
        Some(Err(error)) => {
            state.hook_config_synced = false;
            let mut message = text("hook config sync failed: ");
            message.append(error.message());
            tell_once(state, LogRecord::fault(LogLevel::Warn, now_ms, message.as_str()));
        },
        Some(Ok(synced)) => {
            let now = encode_current_config(state);
            let unchanged = match (&work.xposed_payload, &now) {
                (Some(sent), Some(current)) => same_bytes(sent.as_slice(), current.as_slice()),
                _ => false,
            };
            let current = synced && work.config_revision == state.config_revision && unchanged;
            let message = write_synced_message(state);
            state.hook_config_synced = current;
            if current {
                tell_once(state, LogRecord::diagnostic(LogLevel::Debug, now_ms, message.as_str()));
            } else if synced {
                tell_once(
                    state,
                    LogRecord::fault(
                        LogLevel::Warn,
                        now_ms,
                        "discarded stale hook config sync result",
                    ),
                );
            } else {
                tell_once(
                    state,
                    LogRecord::fault(LogLevel::Warn, now_ms, "hook config sync rejected"),
                );
            }
        },
    }
}

fn take_health_result(state: &mut ReadOnlyState, result: Result<String, DaemonError>)
    ensures
        final(state)@ == after_health(old(state)@, health_view(result)),
{
    match result {
        Ok(payload) => {
            let status = classify_hook_health_payload(payload.as_str());
            state.hook_health = text(status.health_label());
            state.xp_log = payload;
            if !status.is_ready_for_control() {
                state.hook_config_synced = false;
            }
        },
        Err(error) => {
            let status = classify_bridge_error(&error);
            state.hook_health = text(status.health_label());
            let mut log = text("hook bridge ");
            log.append(status.health_label());
            state.xp_log = log;
            state.hook_config_synced = false;
        },
    }
}

/// The state after a round with the hook, before the device is looked at again.
pub open spec fn after_hook(
    s: ManagerView,
    revision: u64,
    payload: Option<Seq<u8>>,
    sync: Option<Result<bool, ErrorView>>,
    health: Result<Seq<char>, ErrorView>,
    now_ms: u128,
) -> ManagerView {
    after_health(
        after_sync(
            ManagerView { daemon_health: "active"@, ..s },
            revision,
            payload,
            sync,
            now_ms,
        ),
        health,
    )
}

/// Takes what came back from the hook.
pub fn apply_hook_health_result(
    state: &mut ReadOnlyState,
    work: &HookHealthWork,
    result: HookHealthResult,
    now_ms: u128,
)
    ensures
        final(state)@ == after_hook(
            old(state)@,
            work.config_revision,
            payload_view(work.xposed_payload),
            sync_view(result.sync_result),
            health_view(result.health_result),
            now_ms,
        ),
{
    state.daemon_health = text("active");
    take_sync_result(state, work, result.sync_result, now_ms);
    take_health_result(state, result.health_result);
}

/// After a round the hook counts as in step only if it is active and accepted exactly the current
/// configuration in its current revision, or was in step and was not told anything.
pub proof fn only_the_current_configuration_counts(
    s: ManagerView,
    revision: u64,
    payload: Option<Seq<u8>>,
    sync: Option<Result<bool, ErrorView>>,
    health: Result<Seq<char>, ErrorView>,
    now_ms: u128,
)
    requires
        after_hook(s, revision, payload, sync, health, now_ms).hook_config_synced,
    ensures
        health matches Ok(p) && bridge_health(p) == BridgeView::Active,
        match sync {
            None => s.hook_config_synced,
            Some(result) => result == Ok::<bool, ErrorView>(true) && revision == s.config_revision
                && payload is Some && payload == current_payload(s),
        },
{
    let t = ManagerView { daemon_health: "active"@, ..s };
    assert(current_payload(t) == current_payload(s));
}

/// A pass needs a hook that is active and has the current configuration.
pub proof fn pass_needs_a_synced_hook(s: ManagerView)
    requires
        !s.hook_config_synced || s.hook_health != "active"@ || !s.control_allowed,
    ensures
        !pass_allowed(s),
{
}

} // verus!
