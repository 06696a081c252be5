//! Freeze policies of managed applications.

use vstd::prelude::*;
use vstd::string::*;

use crate::text::text;

verus! {

/// An application under management.
#[derive(Debug, Clone, PartialEq, Eq)]
pub struct ManagedApp {
    pub package_name: String,
    pub user_id: u32,
    pub uid: u32,
    pub label: String,
    pub is_system_app: bool,
    pub protected_reason: Option<ProtectedReason>,
    pub policy_id: String,
    pub last_seen_baseline: String,
}

/// A managed application as a value.
#[verifier::ext_equal]
pub ghost struct AppView {
    pub package_name: Seq<char>,
    pub user_id: u32,
    pub uid: u32,
    pub label: Seq<char>,
    pub is_system_app: bool,
    pub protected_reason: Option<ProtectedReason>,
    pub policy_id: Seq<char>,
    pub last_seen_baseline: Seq<char>,
}

impl View for ManagedApp {
    type V = AppView;

    open spec fn view(&self) -> AppView {
        AppView {
            package_name: self.package_name@,
            user_id: self.user_id,
            uid: self.uid,
            label: self.label@,
            is_system_app: self.is_system_app,
            protected_reason: self.protected_reason,
            policy_id: self.policy_id@,
            last_seen_baseline: self.last_seen_baseline@,
        }
    }
}

/// What the protected defaults make of an application.
pub open spec fn protected_app(app: AppView) -> AppView {
    if app.protected_reason is Some || app.is_system_app {
        AppView {
            protected_reason: if app.protected_reason is Some {
                app.protected_reason
            } else {
                Some(ProtectedReason::SystemCritical)
            },
            policy_id: "protected:"@ + app.package_name,
            ..app
        }
    } else {
        app
    }
}

/// Applying the protected defaults twice is the same as applying them once.
pub proof fn protected_defaults_are_idempotent(app: AppView)
    ensures
        protected_app(protected_app(app)) == protected_app(app),
{
}

impl ManagedApp {
    /// The key under which a policy is kept: package name and user.
    pub fn policy_identity(&self) -> (r: (&str, u32))
        ensures
            r.0@ == self@.package_name,
            r.1 == self@.user_id,
    {
        (self.package_name.as_str(), self.user_id)
    }

    /// Whether a reason protects the application from control.
    pub fn is_protected(&self) -> (r: bool)
        ensures
            r == (self@.protected_reason is Some),
    {
        self.protected_reason.is_some()
    }

    /// Gives a protected or system application its protected reason and policy id.
    pub fn apply_protected_defaults(&mut self)
        ensures
            final(self)@ == protected_app(old(self)@),
    {
        if self.protected_reason.is_some() || self.is_system_app {
            if self.protected_reason.is_none() {
                self.protected_reason = Some(ProtectedReason::SystemCritical);
            }
            let mut id = text("protected:");
            id.append(self.package_name.as_str());
            self.policy_id = id;
        }
    }
}

/// Why an application is protected.
#[derive(Debug, Clone, Copy, PartialEq, Eq, Structural)]
pub enum ProtectedReason {
    Manager,
    Launcher,
    InputMethod,
    RootManager,
    HookManager,
    SystemCritical,
    UserProtected,
}

/// The mode that a policy selects.
#[derive(Debug, Clone, Copy, PartialEq, Eq, Structural)]
pub enum FreezeMode {
    Protected,
    Free,
    Freeze,
    FreezeWithRestrictions,
    SignalStop,
    Terminate,
}

/// The mechanism by which a policy controls an application.
#[derive(Debug, Clone, Copy, PartialEq, Eq, Structural)]
pub enum ControlMethod {
    CgroupBinderFreeze,
    SignalStop,
    Terminate,
}

/// The restrictions that a policy asks for beside the freeze.
#[derive(Debug, Clone, Copy, PartialEq, Eq, Structural, Default)]
pub struct RestrictionRequests {
    pub network_break: bool,
    pub wakelock_restriction: bool,
}

/// How strictly foreground activity is judged.
#[derive(Debug, Clone, Copy, PartialEq, Eq, Structural)]
pub enum ForegroundStrategy {
    Strict,
    Permissive,
}

/// What to do where a freeze could not be applied.
#[derive(Debug, Clone, Copy, PartialEq, Eq, Structural)]
pub enum FallbackAction {
    Postpone,
    AlternateFreezer,
    Signal,
    Terminate,
    Skip,
}

/// The policy of an application.
#[derive(Debug, Clone, PartialEq, Eq)]
pub enum FreezePolicy {
    Selected {
        mode: FreezeMode,
        delay_ms: u64,
        foreground_strategy: ForegroundStrategy,
        allow_network_restriction: bool,
        allow_wakelock_restriction: bool,
        fallback_strategy: Vec<FallbackAction>,
        updated_at_ms: u128,
    },
}

/// A policy as a value.
#[verifier::ext_equal]
pub ghost struct PolicyView {
    pub mode: FreezeMode,
    pub delay_ms: u64,
    pub foreground_strategy: ForegroundStrategy,
    pub allow_network_restriction: bool,
    pub allow_wakelock_restriction: bool,
    pub fallback_strategy: Seq<FallbackAction>,
    pub updated_at_ms: u128,
}

impl View for FreezePolicy {
    type V = PolicyView;

    open spec fn view(&self) -> PolicyView {
        match self {
            FreezePolicy::Selected {
                mode,
                delay_ms,
                foreground_strategy,
                allow_network_restriction,
                allow_wakelock_restriction,
                fallback_strategy,
                updated_at_ms,
            } => PolicyView {
                mode: *mode,
                delay_ms: *delay_ms,
                foreground_strategy: *foreground_strategy,
                allow_network_restriction: *allow_network_restriction,
                allow_wakelock_restriction: *allow_wakelock_restriction,
                fallback_strategy: fallback_strategy@,
                updated_at_ms: *updated_at_ms,
            },
        }
    }
}

/// The foreground strategy that the permissive flag stands for.
pub open spec fn strategy_of(permissive: bool) -> ForegroundStrategy {
    if permissive {
        ForegroundStrategy::Permissive
    } else {
        ForegroundStrategy::Strict
    }
}

/// The freeze mode of a numeric mode of the configuration file.
pub open spec fn legacy_freeze_mode(mode: i32) -> FreezeMode {
    if mode == 10 {
        FreezeMode::Terminate
    } else if mode == 20 || mode == 21 {
        FreezeMode::SignalStop
    } else if mode == 30 || mode == 31 {
        FreezeMode::Freeze
    } else if mode == 40 || mode == 50 {
        FreezeMode::Protected
    } else {
        FreezeMode::Free
    }
}

/// The fallbacks of a numeric mode of the configuration file.
pub open spec fn legacy_fallbacks(mode: i32) -> Seq<FallbackAction> {
    if mode == 10 || mode == 20 || mode == 21 {
        seq![FallbackAction::Postpone, FallbackAction::Skip]
    } else if mode == 30 || mode == 31 {
        seq![FallbackAction::Signal, FallbackAction::Skip]
    } else {
        seq![FallbackAction::Skip]
    }
}

/// The policy that a numeric mode of the configuration file stands for.
pub open spec fn legacy_policy(mode: i32, permissive: bool) -> PolicyView {
    PolicyView {
        mode: legacy_freeze_mode(mode),
        delay_ms: 0,
        foreground_strategy: strategy_of(permissive),
        allow_network_restriction: mode == 21 || mode == 31,
        allow_wakelock_restriction: false,
        fallback_strategy: legacy_fallbacks(mode),
        updated_at_ms: 0,
    }
}

/// The mechanism of a freeze mode.
pub open spec fn method_of(mode: FreezeMode) -> Option<ControlMethod> {
    match mode {
        FreezeMode::Freeze | FreezeMode::FreezeWithRestrictions => Some(
            ControlMethod::CgroupBinderFreeze,
        ),
        FreezeMode::SignalStop => Some(ControlMethod::SignalStop),
        FreezeMode::Terminate => Some(ControlMethod::Terminate),
        FreezeMode::Protected | FreezeMode::Free => None,
    }
}

/// Whether a policy may control an application: never a system or protected one.
pub open spec fn control_allowed(policy: PolicyView, app: AppView) -> bool {
    !app.is_system_app && app.protected_reason is None && method_of(policy.mode) is Some
}

/// No policy ever controls an application to which the protected defaults apply.
pub proof fn protected_apps_are_never_controlled(policy: PolicyView, app: AppView)
    requires
        app.is_system_app || app.protected_reason is Some,
    ensures
        !control_allowed(policy, app),
        !control_allowed(policy, protected_app(app)),
{
}

impl FreezePolicy {
    /// The policy that a numeric mode of the configuration file stands for.
    pub fn from_legacy_mode(mode: i32, permissive: bool) -> (r: Self)
        ensures
            r@ == legacy_policy(mode, permissive),
    {
        let (mode, allow_network_restriction, fallback_strategy) = match mode {
            10 => (
                FreezeMode::Terminate,
                false,
                vec![FallbackAction::Postpone, FallbackAction::Skip],
            ),
            20 => (
                FreezeMode::SignalStop,
                false,
                vec![FallbackAction::Postpone, FallbackAction::Skip],
            ),
            21 => (
                FreezeMode::SignalStop,
                true,
                vec![FallbackAction::Postpone, FallbackAction::Skip],
            ),
            30 => (FreezeMode::Freeze, false, vec![FallbackAction::Signal, FallbackAction::Skip]),
            31 => (FreezeMode::Freeze, true, vec![FallbackAction::Signal, FallbackAction::Skip]),
            40 | 50 => (FreezeMode::Protected, false, vec![FallbackAction::Skip]),
            _ => (FreezeMode::Free, false, vec![FallbackAction::Skip]),
        };
        FreezePolicy::Selected {
            mode,
            delay_ms: 0,
            foreground_strategy: if permissive {
                ForegroundStrategy::Permissive
            } else {
                ForegroundStrategy::Strict
            },
            allow_network_restriction,
            allow_wakelock_restriction: false,
            fallback_strategy,
            updated_at_ms: 0,
        }
    }

    /// The policy of a protected application: no control, skip.
    pub fn protected_default() -> (r: Self)
        ensures
            r@ == legacy_policy(40, false),
    {
        FreezePolicy::Selected {
            mode: FreezeMode::Protected,
            delay_ms: 0,
            foreground_strategy: ForegroundStrategy::Strict,
            allow_network_restriction: false,
            allow_wakelock_restriction: false,
            fallback_strategy: vec![FallbackAction::Skip],
            updated_at_ms: 0,
        }
    }

    /// Whether this policy may control the application.
    pub fn is_control_allowed_for(&self, app: &ManagedApp) -> (r: bool)
        ensures
            r == control_allowed(self@, app@),
    {
        if app.is_system_app || app.is_protected() {
            return false;
        }
        self.control_method().is_some()
    }

    /// The mechanism by which this policy controls an application.
    pub fn control_method(&self) -> (r: Option<ControlMethod>)
        ensures
            r == method_of(self@.mode),
    {
        match self {
            FreezePolicy::Selected { mode, .. } => match mode {
                FreezeMode::Freeze | FreezeMode::FreezeWithRestrictions => Some(
                    ControlMethod::CgroupBinderFreeze,
                ),
                FreezeMode::SignalStop => Some(ControlMethod::SignalStop),
                FreezeMode::Terminate => Some(ControlMethod::Terminate),
                FreezeMode::Protected | FreezeMode::Free => None,
            },
        }
    }

    /// The restrictions that this policy asks for.
    pub fn requested_restrictions(&self) -> (r: RestrictionRequests)
        ensures
            r.network_break == self@.allow_network_restriction,
            r.wakelock_restriction == self@.allow_wakelock_restriction,
    {
        match self {
            FreezePolicy::Selected {
                allow_network_restriction,
                allow_wakelock_restriction,
                ..
            } => RestrictionRequests {
                network_break: *allow_network_restriction,
                wakelock_restriction: *allow_wakelock_restriction,
            },
        }
    }
}

} // verus!
