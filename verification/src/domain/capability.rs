//! What the device can do for the daemon.

use vstd::prelude::*;

use crate::text::copy;

verus! {

/// The capabilities that are probed.
#[derive(Debug, Clone, Copy, PartialEq, Eq, Structural)]
pub enum CapabilityName {
    Root,
    PackageInventory,
    LsposedSystemServer,
    CgroupV2Freezer,
    BinderFreezer,
    SignalControl,
    NetworkBreak,
    WakelockControl,
}

/// The outcome of probing a capability.
#[derive(Debug, Clone, Copy, PartialEq, Eq, Structural)]
pub enum CapabilityStatus {
    Available,
    Missing,
    Degraded,
    Untested,
}

/// How risky the use of a capability is.
#[derive(Debug, Clone, Copy, PartialEq, Eq, Structural)]
pub enum RiskLevel {
    Normal,
    Caution,
    Disabled,
}

/// A probed capability with its evidence.
#[derive(Debug, Clone, PartialEq, Eq)]
pub struct ControlCapability {
    pub name: CapabilityName,
    pub status: CapabilityStatus,
    pub evidence: String,
    pub checked_at_ms: u128,
    pub risk_level: RiskLevel,
}

/// A capability as a value.
pub ghost struct CapabilityView {
    pub name: CapabilityName,
    pub status: CapabilityStatus,
    pub evidence: Seq<char>,
    pub checked_at_ms: u128,
    pub risk_level: RiskLevel,
}

impl View for ControlCapability {
    type V = CapabilityView;

    open spec fn view(&self) -> CapabilityView {
        CapabilityView {
            name: self.name,
            status: self.status,
            evidence: self.evidence@,
            checked_at_ms: self.checked_at_ms,
            risk_level: self.risk_level,
        }
    }
}

impl ControlCapability {
    /// A capability that was not found: it is missing and must not be used.
    pub fn missing(name: CapabilityName, evidence: &str) -> (r: Self)
        ensures
            r@ == (CapabilityView {
                name,
                status: CapabilityStatus::Missing,
                evidence: evidence@,
                checked_at_ms: 0,
                risk_level: RiskLevel::Disabled,
            }),
    {
        ControlCapability {
            name,
            status: CapabilityStatus::Missing,
            evidence: copy(evidence),
            checked_at_ms: 0,
            risk_level: RiskLevel::Disabled,
        }
    }
}

/// The views of a list of capabilities.
pub open spec fn capability_views(s: Seq<ControlCapability>) -> Seq<CapabilityView> {
    s.map_values(|c: ControlCapability| c@)
}

} // verus!
