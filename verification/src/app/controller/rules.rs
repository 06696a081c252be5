//! The rules of the controller: what a configured mode asks for, when things are due, and how
//! operations are described.

use vstd::prelude::*;
use vstd::string::*;

use crate::app::controller::state::{ControlView, RuntimeControlState};
use crate::app::controller::transaction::FrozenOwnership;
use crate::app::freezer_backend::{BackendEnvironment, DecisionAction};
use crate::domain::identity::{Ident, RuntimeIdentity};
use crate::domain::operation::{ControlAction, ControlOperation, OperationResult, OperationView};
use crate::domain::policy::{
    strategy_of, AppView, FallbackAction, ForegroundStrategy, FreezeMode, FreezePolicy, ManagedApp,
    PolicyView, ProtectedReason,
};
use crate::domain::runtime::{pids, process_ids, process_views, ProcessView, RuntimeProcess};
use crate::protocol::records::ManagerAppConfigRecord;
use crate::text::{
    before, copy, decimal, is_before, join, join_strings, number, signed_decimal, signed_number,
    text, texts,
};

verus! {

// ---------------------------------------------------------------------------
// Settings and modes
// ---------------------------------------------------------------------------

/// The setting at an index; zero where the block is shorter.
pub open spec fn setting(settings: Seq<u8>, index: int) -> u8 {
    if 0 <= index < settings.len() {
        settings[index]
    } else {
        0
    }
}

/// The setting at an index; zero where the block is shorter.
pub fn setting_at(settings: &[u8], index: usize) -> (r: u8)
    ensures
        r == setting(settings@, index as int),
{
    if index < settings.len() {
        settings[index]
    } else {
        0
    }
}

/// The modes under which an application is controlled.
pub open spec fn controls(mode: i32) -> bool {
    mode == 10 || mode == 20 || mode == 21 || mode == 30 || mode == 31
}

/// Whether an application with this mode is controlled.
pub fn is_control_policy_mode(mode: i32) -> (r: bool)
    ensures
        r == controls(mode),
{
    mode == 10 || mode == 20 || mode == 21 || mode == 30 || mode == 31
}

/// The modes that also restrict the network.
pub open spec fn breaks_network(mode: i32) -> bool {
    mode == 21 || mode == 31
}

/// Whether this mode also restricts the network.
pub fn mode_has_network_restriction(mode: i32) -> (r: bool)
    ensures
        r == breaks_network(mode),
{
    mode == 21 || mode == 31
}

/// The mechanism that a configured mode asks for.
#[derive(Debug, Clone, Copy, PartialEq, Eq, Structural)]
pub enum RequestedControlBackend {
    Terminate,
    Signal,
    Freezer,
}

/// The mechanism that a mode asks for; setting 5 can ask for signals in place of the freezer.
pub open spec fn requested_backend(mode: i32, settings: Seq<u8>) -> RequestedControlBackend {
    if mode == 10 {
        RequestedControlBackend::Terminate
    } else if mode == 20 || mode == 21 {
        RequestedControlBackend::Signal
    } else if (mode == 30 || mode == 31) && setting(settings, 5) == 2 {
        RequestedControlBackend::Signal
    } else {
        RequestedControlBackend::Freezer
    }
}

/// The mechanism that a record asks for.
pub fn requested_control_backend(record: &ManagerAppConfigRecord, settings: &[u8]) -> (r:
    RequestedControlBackend)
    ensures
        r == requested_backend(record.mode, settings@),
{
    match record.mode {
        10 => RequestedControlBackend::Terminate,
        20 | 21 => RequestedControlBackend::Signal,
        30 | 31 => if setting_at(settings, 5) == 2 {
            RequestedControlBackend::Signal
        } else {
            RequestedControlBackend::Freezer
        },
        _ => RequestedControlBackend::Freezer,
    }
}

/// The interval after which a frozen application is woken up, by setting 3.
pub open spec fn wakeup_interval(settings: Seq<u8>) -> Option<u128> {
    let s = setting(settings, 3);
    if s == 1 {
        Some(300_000)
    } else if s == 2 {
        Some(900_000)
    } else if s == 3 {
        Some(1_800_000)
    } else if s == 4 {
        Some(3_600_000)
    } else if s == 5 {
        Some(7_200_000)
    } else {
        None
    }
}

/// The interval after which a frozen application is woken up.
pub fn manager_wakeup_interval_ms(settings: &[u8]) -> (r: Option<u128>)
    ensures
        r == wakeup_interval(settings@),
{
    match setting_at(settings, 3) {
        1 => Some(300_000),
        2 => Some(900_000),
        3 => Some(1_800_000),
        4 => Some(3_600_000),
        5 => Some(7_200_000),
        _ => None,
    }
}

/// How long a woken application runs, by setting 2 in seconds.
pub open spec fn wakeup_duration(settings: Seq<u8>) -> u128 {
    (setting(settings, 2) * 1000) as u128
}

/// How long a woken application runs.
pub fn manager_wakeup_duration_ms(settings: &[u8]) -> (r: u128)
    ensures
        r == wakeup_duration(settings@),
{
    setting_at(settings, 2) as u128 * 1_000
}

/// The sum, at most the largest value.
pub open spec fn saturated(a: u128, b: u128) -> u128 {
    if a + b > u128::MAX {
        u128::MAX
    } else {
        (a + b) as u128
    }
}

/// The sum, at most the largest value.
pub fn add_saturating(a: u128, b: u128) -> (r: u128)
    ensures
        r == saturated(a, b),
{
    if a > u128::MAX - b {
        u128::MAX
    } else {
        a + b
    }
}

/// Whether a frozen identity is to be woken up.
pub open spec fn wakeup_due(s: ControlView, id: Ident, settings: Seq<u8>, at: u128) -> bool {
    match wakeup_interval(settings) {
        Some(interval) => s.since.contains_key(id) && at >= saturated(s.since[id], interval),
        None => false,
    }
}

/// Whether a frozen identity is to be woken up.
pub fn periodic_wakeup_due(
    state: &RuntimeControlState,
    identity: &RuntimeIdentity,
    settings: &[u8],
    timestamp_ms: u128,
) -> (r: bool)
    ensures
        r == wakeup_due(state@, identity@, settings@, timestamp_ms),
{
    match manager_wakeup_interval_ms(settings) {
        Some(interval_ms) => match state.frozen_since_ms.get(identity) {
            Some(since) => timestamp_ms >= add_saturating(*since, interval_ms),
            None => false,
        },
        None => false,
    }
}

/// The delay between leaving the foreground and control: setting 4 for killing, setting 2 for
/// the other modes, in seconds.
pub open spec fn policy_delay(mode: i32, settings: Seq<u8>) -> u64 {
    if mode == 10 {
        (setting(settings, 4) * 1000) as u64
    } else if controls(mode) {
        (setting(settings, 2) * 1000) as u64
    } else {
        0
    }
}

/// The delay between leaving the foreground and control.
pub fn manager_policy_delay_ms(record: &ManagerAppConfigRecord, settings: &[u8]) -> (r: u64)
    ensures
        r == policy_delay(record.mode, settings@),
        r <= 255_000,
{
    let seconds: u8 = match record.mode {
        10 => setting_at(settings, 4),
        20 | 21 | 30 | 31 => setting_at(settings, 2),
        _ => 0,
    };
    seconds as u64 * 1000
}

/// The interval of the audit of frozen applications: every minute in the first quarter of an
/// hour, then by setting 6.
pub open spec fn audit_interval(settings: Seq<u8>, elapsed: int) -> Option<u128> {
    let s = setting(settings, 6);
    if elapsed < 900_000 {
        Some(60_000)
    } else if s == 1 {
        Some(1_800_000)
    } else if s == 2 {
        Some(3_600_000)
    } else if s == 3 {
        Some(7_200_000)
    } else {
        None
    }
}

/// The largest time at which a pass can run: every deadline that it sets, at most two hours later,
/// fits.
pub const LATEST_TIMESTAMP_MS: u128 = 340_282_366_920_938_463_463_374_607_431_761_011_455;

/// The time of the first pass lies in the range that passes can have.
pub open spec fn well_timed(s: ControlView) -> bool {
    s.audit_start matches Some(t) ==> t <= LATEST_TIMESTAMP_MS
}

/// Whether an audit is due at a time, and the state after asking. The first audit is due a
/// minute after the first pass.
pub open spec fn audit(s: ControlView, settings: Seq<u8>, at: u128) -> (ControlView, bool) {
    let started = match s.audit_start {
        Some(t) => t,
        None => at,
    };
    let s1 = ControlView { audit_start: Some(started), ..s };
    match audit_interval(settings, at - started) {
        None => (ControlView { next_audit: None, ..s1 }, false),
        Some(interval) => {
            let next = match s.next_audit {
                Some(t) => t,
                None => (started + 60_000) as u128,
            };
            if at < next {
                (ControlView { next_audit: Some(next), ..s1 }, false)
            } else {
                (ControlView { next_audit: Some((at + interval) as u128), ..s1 }, true)
            }
        },
    }
}

/// Whether an audit is due; notes when the next one is.
pub fn refreeze_audit_due(
    state: &mut RuntimeControlState,
    settings: &[u8],
    timestamp_ms: u128,
) -> (r: bool)
    requires
        well_timed(old(state)@),
        timestamp_ms <= LATEST_TIMESTAMP_MS,
    ensures
        (final(state)@, r) == audit(old(state)@, settings@, timestamp_ms),
{
    let ghost s0 = state@;
    let started_at: u128 = match state.audit_started_at_ms {
        Some(t) => t,
        None => timestamp_ms,
    };
    state.audit_started_at_ms = Some(started_at);
    let early = timestamp_ms < started_at || timestamp_ms - started_at < 900_000;
    let interval_ms: Option<u128> = if early {
        Some(60_000)
    } else {
        match setting_at(settings, 6) {
            1 => Some(1_800_000),
            2 => Some(3_600_000),
            3 => Some(7_200_000),
            _ => None,
        }
    };
    let interval_ms: u128 = match interval_ms {
        Some(interval_ms) => interval_ms,
        None => {
            state.next_refreeze_audit_at_ms = None;
            assert(state@ =~= audit(s0, settings@, timestamp_ms).0);
            return false;
        },
    };
    let next: u128 = match state.next_refreeze_audit_at_ms {
        Some(next) => next,
        None => started_at + 60_000,
    };
    if timestamp_ms < next {
        state.next_refreeze_audit_at_ms = Some(next);
        assert(state@ =~= audit(s0, settings@, timestamp_ms).0);
        return false;
    }
    state.next_refreeze_audit_at_ms = Some(timestamp_ms + interval_ms);
    assert(state@ =~= audit(s0, settings@, timestamp_ms).0);
    true
}

/// Two audits are at least a minute apart.
pub proof fn audits_are_a_minute_apart(s: ControlView, settings: Seq<u8>, at: u128, later: u128)
    requires
        well_timed(s),
        at <= LATEST_TIMESTAMP_MS,
        at <= later < at + 60_000,
        audit(s, settings, at).1,
    ensures
        !audit(audit(s, settings, at).0, settings, later).1,
{
}

/// Once the first quarter of an hour is over and regular audits are off, no audit is due.
pub proof fn no_audit_without_regular_interval(s: ControlView, settings: Seq<u8>, at: u128)
    requires
        s.audit_start matches Some(t) && at >= t + 900_000,
        setting(settings, 6) == 0,
    ensures
        !audit(s, settings, at).1,
{
}

// ---------------------------------------------------------------------------
// Applications and policies
// ---------------------------------------------------------------------------

/// Whether a uid belongs to the system: its number within the user is below the first
/// application number.
pub open spec fn system_uid(uid: u32) -> bool {
    uid % 100_000 < 10_000
}

/// The application of a record; a system uid is protected in any case.
pub open spec fn managed_app(
    package: Seq<char>,
    uid: u32,
    reason: Option<ProtectedReason>,
) -> AppView {
    AppView {
        package_name: package,
        user_id: 0,
        uid,
        label: package,
        is_system_app: system_uid(uid),
        protected_reason: if reason is None && system_uid(uid) {
            Some(ProtectedReason::SystemCritical)
        } else {
            reason
        },
        policy_id: "manager-v1"@,
        last_seen_baseline: "runtime"@,
    }
}

/// Whether a uid belongs to the system.
pub fn is_system_uid(uid: u32) -> (r: bool)
    ensures
        r == system_uid(uid),
{
    uid % 100_000 < 10_000
}

/// The application of a record, with the reason for which its package is protected.
pub fn managed_app_from_record(
    package_name: &str,
    uid: u32,
    protected_reason: Option<ProtectedReason>,
) -> (r: ManagedApp)
    ensures
        r@ == managed_app(package_name@, uid, protected_reason),
{
    let is_system_app = is_system_uid(uid);
    ManagedApp {
        package_name: copy(package_name),
        user_id: 0,
        uid,
        label: copy(package_name),
        is_system_app,
        protected_reason: if protected_reason.is_none() && is_system_app {
            Some(ProtectedReason::SystemCritical)
        } else {
            protected_reason
        },
        policy_id: text("manager-v1"),
        last_seen_baseline: text("runtime"),
    }
}

/// The policy of a record.
pub open spec fn record_policy(record: ManagerAppConfigRecord) -> PolicyView {
    PolicyView {
        mode: if record.mode == 10 {
            FreezeMode::Terminate
        } else if record.mode == 20 || record.mode == 30 {
            FreezeMode::Freeze
        } else if record.mode == 21 || record.mode == 31 {
            FreezeMode::FreezeWithRestrictions
        } else if record.mode == 40 || record.mode == 50 {
            FreezeMode::Protected
        } else {
            FreezeMode::Free
        },
        delay_ms: 0,
        foreground_strategy: strategy_of(record.permissive),
        allow_network_restriction: breaks_network(record.mode),
        allow_wakelock_restriction: false,
        fallback_strategy: seq![FallbackAction::Signal, FallbackAction::Skip],
        updated_at_ms: 0,
    }
}

/// The policy of a record.
pub fn policy_from_record(record: &ManagerAppConfigRecord) -> (r: FreezePolicy)
    ensures
        r@ == record_policy(*record),
{
    let mode = match record.mode {
        10 => FreezeMode::Terminate,
        20 | 30 => FreezeMode::Freeze,
        21 | 31 => FreezeMode::FreezeWithRestrictions,
        40 | 50 => FreezeMode::Protected,
        _ => FreezeMode::Free,
    };
    FreezePolicy::Selected {
        mode,
        delay_ms: 0,
        foreground_strategy: if record.permissive {
            ForegroundStrategy::Permissive
        } else {
            ForegroundStrategy::Strict
        },
        allow_network_restriction: mode_has_network_restriction(record.mode),
        allow_wakelock_restriction: false,
        fallback_strategy: vec![FallbackAction::Signal, FallbackAction::Skip],
        updated_at_ms: 0,
    }
}

/// The least package name among the processes.
pub open spec fn least_package(ps: Seq<ProcessView>) -> Seq<char>
    decreases ps.len(),
{
    if ps.len() <= 1 {
        ps[0].package_name
    } else {
        let rest = least_package(ps.drop_last());
        if before(ps.last().package_name, rest) {
            ps.last().package_name
        } else {
            rest
        }
    }
}

/// The least package name among the processes.
pub fn least_package_name(processes: &[RuntimeProcess]) -> (r: String)
    requires
        processes@.len() > 0,
    ensures
        r@ == least_package(process_views(processes@)),
{
    let ghost ps = process_views(processes@);
    let mut best: usize = 0;
    let mut i: usize = 1;
    assert(ps.take(1)[0] == ps[0]);
    assert(ps[0] == processes@[0]@);
    while i < processes.len()
        invariant
            1 <= i <= processes@.len(),
            best < i,
            ps == process_views(processes@),
            processes@[best as int].package_name@ == least_package(ps.take(i as int)),
        decreases processes@.len() - i,
    {
        assert(ps.take(i + 1).drop_last() =~= ps.take(i as int));
        assert(ps.take(i + 1).last() == processes@[i as int]@);
        if is_before(processes[i].package_name.as_str(), processes[best].package_name.as_str()) {
            best = i;
        }
        i += 1;
    }
    assert(ps.take(i as int) =~= ps);
    copy(processes[best].package_name.as_str())
}

// ---------------------------------------------------------------------------
// Describing operations
// ---------------------------------------------------------------------------

/// Whether there are processes and every one of them has a cgroup freezer.
pub open spec fn all_in_cgroup(ps: Seq<ProcessView>) -> bool {
    ps.len() > 0 && forall|i: int|
        0 <= i < ps.len() ==> (#[trigger] ps[i]).cgroup_freeze_path is Some
}

/// Whether there are processes and every one of them has a cgroup freezer.
pub fn have_cgroup(processes: &[RuntimeProcess]) -> (r: bool)
    ensures
        r == all_in_cgroup(process_views(processes@)),
{
    let ghost ps = process_views(processes@);
    if processes.len() == 0 {
        return false;
    }
    let mut i: usize = 0;
    while i < processes.len()
        invariant
            i <= processes@.len(),
            ps == process_views(processes@),
            forall|j: int| 0 <= j < i ==> (#[trigger] ps[j]).cgroup_freeze_path is Some,
        decreases processes@.len() - i,
    {
        assert(ps[i as int] == processes@[i as int]@);
        if processes[i].cgroup_freeze_path.is_none() {
            return false;
        }
        i += 1;
    }
    true
}

/// The name of the freezer that serves these processes.
pub open spec fn freezer_name(ps: Seq<ProcessView>) -> Seq<char> {
    if all_in_cgroup(ps) {
        "cgroup.freeze"@
    } else {
        "signal-control-pass"@
    }
}

/// The name of the freezer that serves these processes.
pub fn backend_name(processes: &[RuntimeProcess]) -> (r: String)
    ensures
        r@ == freezer_name(process_views(processes@)),
{
    if have_cgroup(processes) {
        text("cgroup.freeze")
    } else {
        text("signal-control-pass")
    }
}

/// The name of the mechanism that thaws an identity.
pub open spec fn thaw_backend(ownership: FrozenOwnership, ps: Seq<ProcessView>) -> Seq<char> {
    if ownership == FrozenOwnership::SignalOnly {
        "signal.cont"@
    } else {
        freezer_name(ps)
    }
}

/// The name of the mechanism that thaws an identity.
pub fn unfreeze_backend(ownership: FrozenOwnership, processes: &[RuntimeProcess]) -> (r: String)
    ensures
        r@ == thaw_backend(ownership, process_views(processes@)),
{
    match ownership {
        FrozenOwnership::SignalOnly => text("signal.cont"),
        _ => backend_name(processes),
    }
}

/// The name of the requested mechanism.
pub open spec fn requested_name(requested: RequestedControlBackend, ps: Seq<ProcessView>) -> Seq<
    char,
> {
    match requested {
        RequestedControlBackend::Terminate => "signal.kill"@,
        RequestedControlBackend::Signal => "signal.stop"@,
        RequestedControlBackend::Freezer => freezer_name(ps),
    }
}

impl RequestedControlBackend {
    /// The name of the requested mechanism.
    pub fn operation_backend(self, processes: &[RuntimeProcess]) -> (r: String)
        ensures
            r@ == requested_name(self, process_views(processes@)),
    {
        match self {
            RequestedControlBackend::Terminate => text("signal.kill"),
            RequestedControlBackend::Signal => text("signal.stop"),
            RequestedControlBackend::Freezer => backend_name(processes),
        }
    }
}

/// What the freezer backend finds for these processes.
pub open spec fn environment(ps: Seq<ProcessView>, binder: bool) -> BackendEnvironment {
    BackendEnvironment {
        cgroup_available: all_in_cgroup(ps),
        binder_available: binder,
        network_available: true,
        wakelock_available: true,
        screen_state_available: true,
        hook_fresh: true,
    }
}

/// What the freezer backend finds for these processes.
pub fn backend_environment(processes: &[RuntimeProcess], binder_available: bool) -> (r:
    BackendEnvironment)
    ensures
        r == environment(process_views(processes@), binder_available),
{
    BackendEnvironment {
        cgroup_available: have_cgroup(processes),
        binder_available,
        network_available: true,
        wakelock_available: true,
        screen_state_available: true,
        hook_fresh: true,
    }
}

/// The idle evidence of the processes that have some.
pub open spec fn evidence(ps: Seq<ProcessView>) -> Seq<Seq<char>>
    decreases ps.len(),
{
    if ps.len() == 0 {
        seq![]
    } else {
        let rest = evidence(ps.drop_last());
        match ps.last().binder_state {
            Some(state) => rest.push(
                "pid"@ + signed_decimal(ps.last().pid as int) + ":"@ + state,
            ),
            None => rest,
        }
    }
}

/// The details of an operation: how many processes, and their idle evidence.
pub open spec fn details(ps: Seq<ProcessView>) -> Seq<char> {
    let count = "process_count="@ + decimal(ps.len());
    if evidence(ps).len() == 0 {
        count
    } else {
        count + " idle_evidence="@ + join(evidence(ps), "|"@)
    }
}

/// The details of an operation.
pub fn operation_details(processes: &[RuntimeProcess]) -> (r: String)
    ensures
        r@ == details(process_views(processes@)),
{
    let ghost ps = process_views(processes@);
    let mut out = text("process_count=");
    let count = number(processes.len() as u128);
    out.append(count.as_str());
    let mut found: Vec<String> = Vec::new();
    let mut i: usize = 0;
    assert(texts(found@) =~= seq![]);
    while i < processes.len()
        invariant
            i <= processes@.len(),
            ps == process_views(processes@),
            texts(found@) == evidence(ps.take(i as int)),
        decreases processes@.len() - i,
    {
        let p = &processes[i];
        assert(ps.take(i + 1).drop_last() =~= ps.take(i as int));
        assert(ps.take(i + 1).last() == p@);
        match &p.binder_state {
            Some(state) => {
                let mut item = text("pid");
                let pid = signed_number(p.pid as i64);
                item.append(pid.as_str());
                item.append(":");
                item.append(state.as_str());
                let ghost done = texts(found@);
                found.push(item);
                assert(texts(found@) =~= done.push(item@));
            },
            None => {},
        }
        i += 1;
    }
    assert(ps.take(i as int) =~= ps);
    assert(texts(found@).len() == found@.len());
    if found.len() > 0 {
        out.append(" idle_evidence=");
        let joined = join_strings(found.as_slice(), "|");
        out.append(joined.as_str());
    }
    out
}

/// An operation on the processes of an identity, before it is numbered.
pub open spec fn operation_on(
    package: Seq<char>,
    uid: u32,
    ps: Seq<ProcessView>,
    action: ControlAction,
    backend: Seq<char>,
    reason: Seq<char>,
    result: OperationResult,
    note: Seq<char>,
) -> OperationView {
    OperationView {
        operation_id: 0,
        timestamp_ms: 0,
        package_name: package,
        uid,
        pid_list: pids(ps),
        action,
        backend,
        reason,
        result,
        details: note,
    }
}

/// An operation on the processes of an identity, before it is numbered.
#[allow(clippy::too_many_arguments)]
pub fn new_operation(
    package_name: &str,
    uid: u32,
    processes: &[RuntimeProcess],
    action: ControlAction,
    backend: String,
    reason: String,
    result: OperationResult,
    note: String,
) -> (r: ControlOperation)
    ensures
        r@ == operation_on(
            package_name@,
            uid,
            process_views(processes@),
            action,
            backend@,
            reason@,
            result,
            note@,
        ),
{
    ControlOperation {
        operation_id: 0,
        timestamp_ms: 0,
        package_name: copy(package_name),
        uid,
        pid_list: process_ids(processes),
        action,
        backend,
        reason,
        result,
        details: note,
    }
}

/// How an operation ended: fully, partly, or not at all.
pub open spec fn thaw_result(applied: nat, failures: nat) -> OperationResult {
    if failures == 0 {
        OperationResult::Success
    } else if applied == 0 {
        OperationResult::Failed
    } else {
        OperationResult::Partial
    }
}

/// How an operation ended: fully, partly, or not at all.
pub fn result_of_thaw(applied: usize, failures: usize) -> (r: OperationResult)
    ensures
        r == thaw_result(applied as nat, failures as nat),
{
    if failures == 0 {
        OperationResult::Success
    } else if applied == 0 {
        OperationResult::Failed
    } else {
        OperationResult::Partial
    }
}

/// How a fallback decision that is not carried out by signal is logged.
pub open spec fn fallback_operation(action: DecisionAction) -> (ControlAction, OperationResult) {
    match action {
        DecisionAction::Freeze => (ControlAction::Freeze, OperationResult::Success),
        DecisionAction::Postpone => (ControlAction::Postpone, OperationResult::Postponed),
        DecisionAction::AlternateFreezer | DecisionAction::Signal => (
            ControlAction::Fallback,
            OperationResult::Skipped,
        ),
        DecisionAction::Terminate => (ControlAction::Terminate, OperationResult::Failed),
        DecisionAction::Skip => (ControlAction::Skip, OperationResult::Skipped),
    }
}

/// How a fallback decision that is not carried out by signal is logged.
pub fn operation_from_fallback(action: DecisionAction) -> (r: (ControlAction, OperationResult))
    ensures
        r == fallback_operation(action),
{
    match action {
        DecisionAction::Freeze => (ControlAction::Freeze, OperationResult::Success),
        DecisionAction::Postpone => (ControlAction::Postpone, OperationResult::Postponed),
        DecisionAction::AlternateFreezer | DecisionAction::Signal => (
            ControlAction::Fallback,
            OperationResult::Skipped,
        ),
        DecisionAction::Terminate => (ControlAction::Terminate, OperationResult::Failed),
        DecisionAction::Skip => (ControlAction::Skip, OperationResult::Skipped),
    }
}

} // verus!
