//! The second version of the manager protocol: reports in JSON.

use vstd::prelude::*;
use vstd::string::*;

use crate::app::compatibility::{
    capabilities_json, device_report, strings_json, truth, write_capabilities, write_strings,
    write_truth, RuntimeEnvironment,
};
use crate::app::health::{HealthStatus, HealthView, ModuleHealth};
use crate::app::operation_log::{operations_json, OperationLog};
use crate::domain::capability::{capability_views, CapabilityView, ControlCapability};
use crate::text::text;

verus! {

/// A request for a report.
#[derive(Debug, Clone, Copy, PartialEq, Eq, Structural)]
pub enum ManagerV2Command {
    GetHealthReport,
    GetCapabilityReport,
    GetCompatibilityBaseline,
    GetOperationLogJson,
    RunSelfCheck,
}

/// The name of a health status.
pub open spec fn health_key(status: HealthStatus) -> Seq<char> {
    match status {
        HealthStatus::Active => "active"@,
        HealthStatus::Degraded => "degraded"@,
        HealthStatus::Inactive => "inactive"@,
    }
}

fn health_status_name(status: HealthStatus) -> (r: &'static str)
    ensures
        r@ == health_key(status),
{
    match status {
        HealthStatus::Active => "active",
        HealthStatus::Degraded => "degraded",
        HealthStatus::Inactive => "inactive",
    }
}

/// The report on the health of the module.
pub open spec fn health_text(h: HealthView) -> Seq<char> {
    "{\"status\":\""@ + health_key(h.status) + "\",\"managerReady\":"@ + truth(h.manager_ready)
        + ",\"daemonReady\":"@ + truth(h.daemon_ready) + ",\"hookReady\":"@ + truth(h.hook_ready)
        + ",\"rootReady\":"@ + truth(h.root_ready) + ",\"freezerReady\":"@ + truth(
        h.freezer_ready,
    ) + ",\"policyReady\":"@ + truth(h.policy_ready) + ",\"degradedReasons\":["@ + strings_json(
        h.degraded_reasons,
        true,
    ) + "]}"@
}

/// Writes the report on the health of the module.
pub fn health_report_json(health: &ModuleHealth) -> (r: String)
    ensures
        r@ == health_text(health@),
{
    let reasons = write_strings(health.degraded_reasons.as_slice(), true);
    let mut out = text("{\"status\":\"");
    out.append(health_status_name(health.status));
    out.append("\",\"managerReady\":");
    out.append(write_truth(health.manager_ready));
    out.append(",\"daemonReady\":");
    out.append(write_truth(health.daemon_ready));
    out.append(",\"hookReady\":");
    out.append(write_truth(health.hook_ready));
    out.append(",\"rootReady\":");
    out.append(write_truth(health.root_ready));
    out.append(",\"freezerReady\":");
    out.append(write_truth(health.freezer_ready));
    out.append(",\"policyReady\":");
    out.append(write_truth(health.policy_ready));
    out.append(",\"degradedReasons\":[");
    out.append(reasons.as_str());
    out.append("]}");
    out
}

/// The report on the capabilities of the device.
pub open spec fn capability_text(capabilities: Seq<CapabilityView>) -> Seq<char> {
    "{\"capabilities\":["@ + capabilities_json(capabilities, "reason"@, true) + "]}"@
}

/// Writes the report on the capabilities of the device.
pub fn capability_report_json(capabilities: &[ControlCapability]) -> (r: String)
    ensures
        r@ == capability_text(capability_views(capabilities@)),
{
    let mut out = text("{\"capabilities\":[");
    let inner = write_capabilities(capabilities, "reason", true);
    out.append(inner.as_str());
    out.append("]}");
    out
}

/// Writes the report on the operations.
pub fn operation_log_json(log: &OperationLog) -> (r: String)
    ensures
        r@ == operations_json(log@.records),
{
    log.to_json()
}

/// The report of a self check.
pub open spec fn check_text(
    h: HealthView,
    capabilities: Seq<CapabilityView>,
    allowed: bool,
) -> Seq<char> {
    "{\"controlAllowed\":"@ + truth(allowed) + ",\"health\":"@ + health_text(h)
        + ",\"capabilities\":"@ + capability_text(capabilities) + "}"@
}

fn self_check_json_with_control_allowed(
    health: &ModuleHealth,
    capabilities: &[ControlCapability],
    control_allowed: bool,
) -> (r: String)
    ensures
        r@ == check_text(health@, capability_views(capabilities@), control_allowed),
{
    let mut out = text("{\"controlAllowed\":");
    out.append(write_truth(control_allowed));
    out.append(",\"health\":");
    let part = health_report_json(health);
    out.append(part.as_str());
    out.append(",\"capabilities\":");
    let part = capability_report_json(capabilities);
    out.append(part.as_str());
    out.append("}");
    out
}

/// Writes the report of a self check. Nothing is known of the device here, so control is never
/// allowed.
pub fn self_check_json(health: &ModuleHealth, capabilities: &[ControlCapability]) -> (r: String)
    ensures
        r@ == check_text(health@, capability_views(capabilities@), false),
{
    self_check_json_with_control_allowed(health, capabilities, false)
}

/// Writes the report of a self check on a device.
pub fn self_check_json_for_runtime(
    health: &ModuleHealth,
    capabilities: &[ControlCapability],
    environment: &RuntimeEnvironment,
) -> (r: String)
    ensures
        r@ == check_text(
            health@,
            capability_views(capabilities@),
            health@.status == HealthStatus::Active && environment@.allows(
                capability_views(capabilities@),
            ),
        ),
{
    let control_allowed = health.is_safe_for_control() && environment.allows_control(capabilities);
    self_check_json_with_control_allowed(health, capabilities, control_allowed)
}

/// Writes the report on the device.
pub fn compatibility_report_json(
    environment: &RuntimeEnvironment,
    capabilities: &[ControlCapability],
) -> (r: String)
    ensures
        r@ == device_report(environment@, capability_views(capabilities@)),
{
    environment.compatibility_json(capabilities)
}

} // verus!
