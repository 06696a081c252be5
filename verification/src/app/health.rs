//! The health of the module as a whole.

use vstd::prelude::*;

use crate::text::{copy, same, texts};

verus! {

/// How healthy the module is.
#[derive(Debug, Clone, Copy, PartialEq, Eq, Structural)]
pub enum HealthStatus {
    Active,
    Degraded,
    Inactive,
}

/// The health of the module, with what keeps it from being active.
#[derive(Debug, PartialEq, Eq)]
pub struct ModuleHealth {
    pub manager_ready: bool,
    pub daemon_ready: bool,
    pub hook_ready: bool,
    pub root_ready: bool,
    pub freezer_ready: bool,
    pub policy_ready: bool,
    pub status: HealthStatus,
    pub degraded_reasons: Vec<String>,
}

/// The health of the module as a value.
#[verifier::ext_equal]
pub ghost struct HealthView {
    pub manager_ready: bool,
    pub daemon_ready: bool,
    pub hook_ready: bool,
    pub root_ready: bool,
    pub freezer_ready: bool,
    pub policy_ready: bool,
    pub status: HealthStatus,
    pub degraded_reasons: Seq<Seq<char>>,
}

impl View for ModuleHealth {
    type V = HealthView;

    open spec fn view(&self) -> HealthView {
        HealthView {
            manager_ready: self.manager_ready,
            daemon_ready: self.daemon_ready,
            hook_ready: self.hook_ready,
            root_ready: self.root_ready,
            freezer_ready: self.freezer_ready,
            policy_ready: self.policy_ready,
            status: self.status,
            degraded_reasons: texts(self.degraded_reasons@),
        }
    }
}

/// The reasons with one more, unless all is well.
pub open spec fn unless(reasons: Seq<Seq<char>>, well: bool, reason: Seq<char>) -> Seq<Seq<char>> {
    if well {
        reasons
    } else {
        reasons.push(reason)
    }
}

fn add_unless(reasons: &mut Vec<String>, well: bool, reason: &str)
    ensures
        texts(final(reasons)@) == unless(texts(old(reasons)@), well, reason@),
{
    if !well {
        let ghost before = texts(reasons@);
        let reason = copy(reason);
        reasons.push(reason);
        assert(texts(reasons@) =~= before.push(reason@));
    }
}

/// The health that readiness gives: active with everything ready, inactive without manager and
/// daemon.
pub open spec fn evaluated(
    manager_ready: bool,
    daemon_ready: bool,
    hook_ready: bool,
    root_ready: bool,
    freezer_ready: bool,
    policy_ready: bool,
) -> HealthView {
    let none: Seq<Seq<char>> = seq![];
    let a = unless(none, daemon_ready, "daemon not initialized"@);
    let b = unless(a, hook_ready, "hook bridge unavailable"@);
    let c = unless(b, root_ready, "root capability unavailable"@);
    let d = unless(c, freezer_ready, "freezer capability unavailable"@);
    HealthView {
        manager_ready,
        daemon_ready,
        hook_ready,
        root_ready,
        freezer_ready,
        policy_ready,
        status: if manager_ready && daemon_ready && hook_ready && root_ready && freezer_ready
            && policy_ready {
            HealthStatus::Active
        } else if manager_ready || daemon_ready {
            HealthStatus::Degraded
        } else {
            HealthStatus::Inactive
        },
        degraded_reasons: unless(d, policy_ready, "policy unavailable"@),
    }
}

/// Health that is not active any more.
pub open spec fn downgraded(h: HealthView, well: bool) -> HealthView {
    HealthView {
        status: if !well && h.status == HealthStatus::Active {
            HealthStatus::Degraded
        } else {
            h.status
        },
        ..h
    }
}

/// Health with one more reason, unless all is well.
pub open spec fn with_reason(h: HealthView, well: bool, reason: Seq<char>) -> HealthView {
    HealthView { degraded_reasons: unless(h.degraded_reasons, well, reason), ..h }
}

/// The health that readiness and further capabilities give. Control is unsafe without the
/// packages and the screen state; network and wake locks are only told of.
pub open spec fn with_failures(
    h: HealthView,
    inventory: bool,
    network: bool,
    wakelock: bool,
    screen: bool,
) -> HealthView {
    let a = with_reason(downgraded(h, inventory), inventory, "package inventory unavailable"@);
    let b = with_reason(a, network, "network control unavailable"@);
    let c = with_reason(b, wakelock, "wake-lock control unavailable"@);
    with_reason(downgraded(c, screen), screen, "screen-state detection unavailable"@)
}

fn lists_reason(reasons: &[String], reason: &str) -> (r: bool)
    ensures
        r == texts(reasons@).contains(reason@),
{
    let ghost all = texts(reasons@);
    let mut i: usize = 0;
    while i < reasons.len()
        invariant
            i <= reasons@.len(),
            all == texts(reasons@),
            forall|k: int| 0 <= k < i ==> all[k] != reason@,
        decreases reasons@.len() - i,
    {
        assert(all[i as int] == reasons@[i as int]@);
        if same(reasons[i].as_str(), reason) {
            return true;
        }
        i += 1;
    }
    false
}

impl ModuleHealth {
    /// A module that does not run, and why.
    pub fn inactive(reason: &str) -> (r: Self)
        ensures
            r@ == (HealthView {
                manager_ready: false,
                daemon_ready: false,
                hook_ready: false,
                root_ready: false,
                freezer_ready: false,
                policy_ready: false,
                status: HealthStatus::Inactive,
                degraded_reasons: seq![reason@],
            }),
    {
        let mut degraded_reasons: Vec<String> = Vec::new();
        degraded_reasons.push(copy(reason));
        assert(texts(degraded_reasons@) =~= seq![reason@]);
        ModuleHealth {
            manager_ready: false,
            daemon_ready: false,
            hook_ready: false,
            root_ready: false,
            freezer_ready: false,
            policy_ready: false,
            status: HealthStatus::Inactive,
            degraded_reasons,
        }
    }

    /// The health that readiness gives.
    pub fn evaluate(
        manager_ready: bool,
        daemon_ready: bool,
        hook_ready: bool,
        root_ready: bool,
        freezer_ready: bool,
        policy_ready: bool,
    ) -> (r: Self)
        ensures
            r@ == evaluated(
                manager_ready,
                daemon_ready,
                hook_ready,
                root_ready,
                freezer_ready,
                policy_ready,
            ),
    {
        let mut degraded_reasons: Vec<String> = Vec::new();
        assert(texts(degraded_reasons@) =~= seq![]);
        add_unless(&mut degraded_reasons, daemon_ready, "daemon not initialized");
        add_unless(&mut degraded_reasons, hook_ready, "hook bridge unavailable");
        add_unless(&mut degraded_reasons, root_ready, "root capability unavailable");
        add_unless(&mut degraded_reasons, freezer_ready, "freezer capability unavailable");
        add_unless(&mut degraded_reasons, policy_ready, "policy unavailable");
        let status = if manager_ready && daemon_ready && hook_ready && root_ready && freezer_ready
            && policy_ready {
            HealthStatus::Active
        } else if manager_ready || daemon_ready {
            HealthStatus::Degraded
        } else {
            HealthStatus::Inactive
        };
        ModuleHealth {
            manager_ready,
            daemon_ready,
            hook_ready,
            root_ready,
            freezer_ready,
            policy_ready,
            status,
            degraded_reasons,
        }
    }

    /// Whether processes may be controlled.
    pub fn is_safe_for_control(&self) -> (r: bool)
        ensures
            r == (self@.status == HealthStatus::Active),
    {
        self.status == HealthStatus::Active
    }

    /// The health that readiness gives, with what the hook says unless it is known already.
    pub fn with_hook_bridge(
        manager_ready: bool,
        daemon_ready: bool,
        root_ready: bool,
        freezer_ready: bool,
        policy_ready: bool,
        hook_ready_for_control: bool,
        hook_reason: Option<&str>,
    ) -> (r: Self)
        ensures
            ({
                let base = evaluated(
                    manager_ready,
                    daemon_ready,
                    hook_ready_for_control,
                    root_ready,
                    freezer_ready,
                    policy_ready,
                );
                r@ == match hook_reason {
                    Some(reason) => with_reason(
                        base,
                        base.degraded_reasons.contains(reason@),
                        reason@,
                    ),
                    None => base,
                }
            }),
    {
        let mut health = ModuleHealth::evaluate(
            manager_ready,
            daemon_ready,
            hook_ready_for_control,
            root_ready,
            freezer_ready,
            policy_ready,
        );
        match hook_reason {
            Some(reason) => {
                let known = lists_reason(health.degraded_reasons.as_slice(), reason);
                add_unless(&mut health.degraded_reasons, known, reason);
            },
            None => {},
        }
        health
    }

    /// The health that readiness and further capabilities give.
    #[allow(clippy::too_many_arguments)]
    pub fn with_capability_failures(
        manager_ready: bool,
        daemon_ready: bool,
        hook_ready: bool,
        root_ready: bool,
        package_inventory_ready: bool,
        freezer_ready: bool,
        network_ready: bool,
        wakelock_ready: bool,
        screen_state_ready: bool,
    ) -> (r: Self)
        ensures
            r@ == with_failures(
                evaluated(
                    manager_ready,
                    daemon_ready,
                    hook_ready,
                    root_ready,
                    freezer_ready,
                    true,
                ),
                package_inventory_ready,
                network_ready,
                wakelock_ready,
                screen_state_ready,
            ),
    {
        let mut health = ModuleHealth::evaluate(
            manager_ready,
            daemon_ready,
            hook_ready,
            root_ready,
            freezer_ready,
            true,
        );
        downgrade_active_health(&mut health, package_inventory_ready);
        add_unless(
            &mut health.degraded_reasons,
            package_inventory_ready,
            "package inventory unavailable",
        );
        add_unless(&mut health.degraded_reasons, network_ready, "network control unavailable");
        add_unless(&mut health.degraded_reasons, wakelock_ready, "wake-lock control unavailable");
        downgrade_active_health(&mut health, screen_state_ready);
        add_unless(
            &mut health.degraded_reasons,
            screen_state_ready,
            "screen-state detection unavailable",
        );
        health
    }
}

fn downgrade_active_health(health: &mut ModuleHealth, well: bool)
    ensures
        final(health)@ == downgraded(old(health)@, well),
{
    if !well && health.status == HealthStatus::Active {
        health.status = HealthStatus::Degraded;
    }
}

/// Control is safe only with everything ready, and then nothing is complained of.
pub proof fn safe_health_is_complete(
    manager_ready: bool,
    daemon_ready: bool,
    hook_ready: bool,
    root_ready: bool,
    freezer_ready: bool,
    policy_ready: bool,
)
    ensures
        ({
            let h = evaluated(
                manager_ready,
                daemon_ready,
                hook_ready,
                root_ready,
                freezer_ready,
                policy_ready,
            );
            h.status == HealthStatus::Active <==> manager_ready && h.degraded_reasons.len() == 0
        }),
{
}

/// Without the packages or the screen state control is not safe.
pub proof fn missing_evidence_is_unsafe(
    h: HealthView,
    inventory: bool,
    network: bool,
    wakelock: bool,
    screen: bool,
)
    requires
        !inventory || !screen,
    ensures
        with_failures(h, inventory, network, wakelock, screen).status != HealthStatus::Active,
        with_failures(h, inventory, network, wakelock, screen).policy_ready == h.policy_ready,
{
}

} // verus!
