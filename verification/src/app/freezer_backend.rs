//! Decisions of the freezer backend.

use vstd::prelude::*;
use vstd::string::*;

use crate::app::error::{error_text, DaemonError, ErrorView};
use crate::domain::capability::{
    capability_views, CapabilityName, CapabilityStatus, CapabilityView, ControlCapability,
    RiskLevel,
};
use crate::domain::policy::{
    control_allowed, AppView, FallbackAction, FreezePolicy, ManagedApp, PolicyView,
};
use crate::domain::runtime::{process_views, ProcessView, RuntimeProcess};
use crate::sys::binder::BinderFreezerCapability;
use crate::sys::cgroup::CgroupFreezerCapability;
use crate::text::{copy, same, text};

verus! {

/// For how long probed capabilities are used, in nanoseconds.
pub const CAPABILITY_CACHE_TTL_NS: u128 = 30_000_000_000;

/// Whether capabilities that were probed this many nanoseconds ago still stand.
pub fn capabilities_are_fresh(age_ns: u128) -> (r: bool)
    ensures
        r == (age_ns < 30 * 1_000_000_000),
{
    age_ns < CAPABILITY_CACHE_TTL_NS
}

/// What the backend finds on the device.
#[derive(Debug, Clone, Copy, PartialEq, Eq, Structural, Default)]
pub struct BackendEnvironment {
    pub cgroup_available: bool,
    pub binder_available: bool,
    pub network_available: bool,
    pub wakelock_available: bool,
    pub screen_state_available: bool,
    pub hook_fresh: bool,
}

/// The action that a decision selects.
#[derive(Debug, Clone, Copy, PartialEq, Eq, Structural)]
pub enum DecisionAction {
    Freeze,
    Postpone,
    AlternateFreezer,
    Signal,
    Terminate,
    Skip,
}

/// A decision and the reason for it.
#[derive(Debug, Clone, PartialEq, Eq)]
pub struct FreezeDecision {
    pub action: DecisionAction,
    pub reason: String,
}

/// A decision as a value.
#[verifier::ext_equal]
pub ghost struct DecisionView {
    pub action: DecisionAction,
    pub reason: Seq<char>,
}

impl View for FreezeDecision {
    type V = DecisionView;

    open spec fn view(&self) -> DecisionView {
        DecisionView { action: self.action, reason: self.reason@ }
    }
}

/// The action for a fallback.
pub open spec fn fallback_action(f: FallbackAction) -> DecisionAction {
    match f {
        FallbackAction::Postpone => DecisionAction::Postpone,
        FallbackAction::AlternateFreezer => DecisionAction::AlternateFreezer,
        FallbackAction::Signal => DecisionAction::Signal,
        FallbackAction::Terminate => DecisionAction::Terminate,
        FallbackAction::Skip => DecisionAction::Skip,
    }
}

/// The first fallback of a policy, nothing where it has none.
pub open spec fn first_fallback(policy: PolicyView) -> DecisionAction {
    if policy.fallback_strategy.len() > 0 {
        fallback_action(policy.fallback_strategy[0])
    } else {
        DecisionAction::Skip
    }
}

/// A process with a binder transaction that somebody waits for.
pub open spec fn transacts(p: ProcessView) -> bool {
    p.binder_state == Some("binder_queue active_sync_transaction"@)
}

/// The decision of the backend: nothing without permission, nothing yet while a transaction is
/// active, a freeze where cgroup and binder can freeze, else the fallback of the policy.
pub open spec fn decision(
    app: AppView,
    policy: PolicyView,
    processes: Seq<ProcessView>,
    environment: BackendEnvironment,
) -> DecisionView {
    if !control_allowed(policy, app) {
        DecisionView {
            action: DecisionAction::Skip,
            reason: "policy or protected package blocks control"@,
        }
    } else if exists|i: int| 0 <= i < processes.len() && transacts(#[trigger] processes[i]) {
        DecisionView { action: DecisionAction::Postpone, reason: "binder transaction active"@ }
    } else if environment.cgroup_available && environment.binder_available {
        DecisionView {
            action: DecisionAction::Freeze,
            reason: "cgroup and binder freezers available"@,
        }
    } else {
        DecisionView {
            action: first_fallback(policy),
            reason: "cgroup or binder freezer unavailable"@,
        }
    }
}

/// The decision after a freeze that failed.
pub open spec fn decision_after(policy: PolicyView, error: ErrorView) -> DecisionView {
    DecisionView {
        action: first_fallback(policy),
        reason: "freeze failed: "@ + error_text(error),
    }
}

/// A backend that freezes by cgroup and binder where the device can.
#[derive(Debug, Clone, Copy, PartialEq, Eq, Structural)]
pub struct SystemAwareCgroupBinderBackend {
    pub environment: BackendEnvironment,
}

fn choose_fallback(policy: &FreezePolicy) -> (r: DecisionAction)
    ensures
        r == first_fallback(policy@),
{
    match policy {
        FreezePolicy::Selected { fallback_strategy, .. } => {
            if fallback_strategy.len() == 0 {
                return DecisionAction::Skip;
            }
            match fallback_strategy[0] {
                FallbackAction::Postpone => DecisionAction::Postpone,
                FallbackAction::AlternateFreezer => DecisionAction::AlternateFreezer,
                FallbackAction::Signal => DecisionAction::Signal,
                FallbackAction::Terminate => DecisionAction::Terminate,
                FallbackAction::Skip => DecisionAction::Skip,
            }
        },
    }
}

fn any_transacts(processes: &[RuntimeProcess]) -> (r: bool)
    ensures
        r == exists|i: int|
            0 <= i < process_views(processes@).len() && transacts(
                #[trigger] process_views(processes@)[i],
            ),
{
    let ghost all = process_views(processes@);
    let mut i: usize = 0;
    while i < processes.len()
        invariant
            i <= processes@.len(),
            all == process_views(processes@),
            forall|k: int| 0 <= k < i ==> !transacts(#[trigger] all[k]),
        decreases processes@.len() - i,
    {
        assert(all[i as int] == processes@[i as int]@);
        let active = match &processes[i].binder_state {
            Some(s) => same(s.as_str(), "binder_queue active_sync_transaction"),
            None => false,
        };
        if active {
            assert(transacts(all[i as int]));
            return true;
        }
        i += 1;
    }
    false
}

impl SystemAwareCgroupBinderBackend {
    /// A backend on a device.
    pub fn new(environment: BackendEnvironment) -> (r: Self)
        ensures
            r.environment == environment,
    {
        SystemAwareCgroupBinderBackend { environment }
    }

    /// Decides what to do with the processes of an application.
    pub fn can_freeze(
        &self,
        app: &ManagedApp,
        policy: &FreezePolicy,
        processes: &[RuntimeProcess],
    ) -> (r: FreezeDecision)
        ensures
            r@ == decision(app@, policy@, process_views(processes@), self.environment),
    {
        if !policy.is_control_allowed_for(app) {
            return FreezeDecision {
                action: DecisionAction::Skip,
                reason: text("policy or protected package blocks control"),
            };
        }
        if any_transacts(processes) {
            return FreezeDecision {
                action: DecisionAction::Postpone,
                reason: text("binder transaction active"),
            };
        }
        if self.environment.cgroup_available && self.environment.binder_available {
            FreezeDecision {
                action: DecisionAction::Freeze,
                reason: text("cgroup and binder freezers available"),
            }
        } else {
            FreezeDecision {
                action: choose_fallback(policy),
                reason: text("cgroup or binder freezer unavailable"),
            }
        }
    }

    /// Decides what to do after a freeze that failed.
    pub fn fallback_after_freeze_apply_error(
        &self,
        policy: &FreezePolicy,
        error: &DaemonError,
    ) -> (r: FreezeDecision)
        ensures
            r@ == decision_after(policy@, error@),
    {
        let mut reason = text("freeze failed: ");
        reason.append(error.message());
        FreezeDecision { action: choose_fallback(policy), reason }
    }
}

/// Decides what to do with the processes of an application in an environment.
pub fn decide_in(
    app: &ManagedApp,
    policy: &FreezePolicy,
    processes: &[RuntimeProcess],
    environment: BackendEnvironment,
) -> (r: FreezeDecision)
    ensures
        r@ == decision(app@, policy@, process_views(processes@), environment),
{
    SystemAwareCgroupBinderBackend::new(environment).can_freeze(app, policy, processes)
}

/// Decides what to do after a freeze that failed in an environment.
pub fn decide_after_error_in(
    policy: &FreezePolicy,
    error: &DaemonError,
    environment: BackendEnvironment,
) -> (r: FreezeDecision)
    ensures
        r@ == decision_after(policy@, error@),
{
    SystemAwareCgroupBinderBackend::new(environment).fallback_after_freeze_apply_error(
        policy,
        error,
    )
}

/// A protected application is never frozen, stopped or killed.
pub proof fn protected_apps_are_skipped(
    app: AppView,
    policy: PolicyView,
    processes: Seq<ProcessView>,
    environment: BackendEnvironment,
)
    requires
        app.is_system_app || app.protected_reason is Some,
    ensures
        decision(app, policy, processes, environment).action == DecisionAction::Skip,
{
}

/// While somebody waits for a transaction the application is at most put off.
pub proof fn active_transactions_postpone(
    app: AppView,
    policy: PolicyView,
    processes: Seq<ProcessView>,
    environment: BackendEnvironment,
    i: int,
)
    requires
        0 <= i < processes.len(),
        transacts(processes[i]),
    ensures
        decision(app, policy, processes, environment).action == DecisionAction::Skip || decision(
            app,
            policy,
            processes,
            environment,
        ).action == DecisionAction::Postpone,
{
}

/// A capability as it was probed: one that is not available must not be used.
pub open spec fn probed(
    name: CapabilityName,
    status: CapabilityStatus,
    evidence: Seq<char>,
    checked_at_ms: u128,
) -> CapabilityView {
    CapabilityView {
        name,
        status,
        evidence,
        checked_at_ms,
        risk_level: if status == CapabilityStatus::Available {
            RiskLevel::Normal
        } else {
            RiskLevel::Disabled
        },
    }
}

fn probe_result(
    name: CapabilityName,
    status: CapabilityStatus,
    evidence: &str,
    checked_at_ms: u128,
) -> (r: ControlCapability)
    ensures
        r@ == probed(name, status, evidence@, checked_at_ms),
{
    ControlCapability {
        name,
        status,
        evidence: copy(evidence),
        checked_at_ms,
        risk_level: if status == CapabilityStatus::Available {
            RiskLevel::Normal
        } else {
            RiskLevel::Disabled
        },
    }
}

/// The capabilities for what was found: root, both freezers, and signals, which always work but
/// call for caution.
pub open spec fn found_capabilities(
    root: bool,
    cgroup: Result<CgroupFreezerCapability, DaemonError>,
    binder: BinderFreezerCapability,
    checked_at_ms: u128,
) -> Seq<CapabilityView> {
    seq![
        probed(
            CapabilityName::Root,
            if root {
                CapabilityStatus::Available
            } else {
                CapabilityStatus::Missing
            },
            "effective user id"@,
            checked_at_ms,
        ),
        match cgroup {
            Ok(found) => probed(
                CapabilityName::CgroupV2Freezer,
                found.status,
                found.evidence@,
                checked_at_ms,
            ),
            Err(e) => CapabilityView {
                name: CapabilityName::CgroupV2Freezer,
                status: CapabilityStatus::Missing,
                evidence: error_text(e@),
                checked_at_ms: 0,
                risk_level: RiskLevel::Disabled,
            },
        },
        probed(CapabilityName::BinderFreezer, binder.status, binder.evidence@, checked_at_ms),
        CapabilityView {
            name: CapabilityName::SignalControl,
            status: CapabilityStatus::Available,
            evidence: "kill(2) available"@,
            checked_at_ms,
            risk_level: RiskLevel::Caution,
        },
    ]
}

/// Puts together the capabilities for what was found on the device.
pub fn discover_capabilities(
    root: bool,
    cgroup: &Result<CgroupFreezerCapability, DaemonError>,
    binder: &BinderFreezerCapability,
    checked_at_ms: u128,
) -> (r: Vec<ControlCapability>)
    ensures
        capability_views(r@) == found_capabilities(root, *cgroup, *binder, checked_at_ms),
{
    let root_status = if root {
        CapabilityStatus::Available
    } else {
        CapabilityStatus::Missing
    };
    let mut out: Vec<ControlCapability> = Vec::new();
    out.push(
        probe_result(CapabilityName::Root, root_status, "effective user id", checked_at_ms),
    );
    out.push(
        match cgroup {
            Ok(found) => probe_result(
                CapabilityName::CgroupV2Freezer,
                found.status,
                found.evidence.as_str(),
                checked_at_ms,
            ),
            Err(e) => ControlCapability::missing(CapabilityName::CgroupV2Freezer, e.message()),
        },
    );
    out.push(
        probe_result(
            CapabilityName::BinderFreezer,
            binder.status,
            binder.evidence.as_str(),
            checked_at_ms,
        ),
    );
    out.push(
        ControlCapability {
            name: CapabilityName::SignalControl,
            status: CapabilityStatus::Available,
            evidence: text("kill(2) available"),
            checked_at_ms,
            risk_level: RiskLevel::Caution,
        },
    );
    assert(capability_views(out@) =~= found_capabilities(root, *cgroup, *binder, checked_at_ms));
    out
}

} // verus!
