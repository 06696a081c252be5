//! Whether the device is one on which processes may be controlled.

use vstd::prelude::*;
use vstd::string::*;

use crate::domain::capability::{
    capability_views, CapabilityName, CapabilityStatus, CapabilityView, ControlCapability,
    RiskLevel,
};
use crate::domain::identity::{identities, ordered, Ident, IdentityMap, RuntimeIdentity};
use crate::domain::json_text::{escape_json, escaped, quote, quoted};
use crate::text::{
    chars_of, copy, decimal, join, join_strings, lines, lower, number, parse_u32, parse_unsigned,
    same, split_at_char, split_lines, split_once, split_words, strip_prefix, text, texts,
    to_lower_char, trim, trimmed, words, after_prefix,
};

verus! {

/// A device and system version on which the module was verified.
#[derive(Debug, Clone, PartialEq, Eq, PartialOrd, Ord)]
pub struct VerifiedTarget {
    pub device_model: String,
    pub sdk: u32,
}

impl View for VerifiedTarget {
    type V = Ident;

    open spec fn view(&self) -> Ident {
        (self.device_model@, self.sdk)
    }
}

/// Targets as values.
pub open spec fn targets_of(v: Seq<VerifiedTarget>) -> Seq<Ident> {
    v.map_values(|t: VerifiedTarget| t@)
}

impl VerifiedTarget {
    /// A target.
    pub fn new(device_model: &str, sdk: u32) -> (r: Self)
        ensures
            r@ == (device_model@, sdk),
    {
        VerifiedTarget { device_model: copy(device_model), sdk }
    }
}

/// The device on which the daemon runs.
#[derive(Debug, Clone, PartialEq, Eq)]
pub struct RuntimeEnvironment {
    pub device_model: String,
    pub android_version: String,
    pub sdk: u32,
    pub fingerprint: String,
    pub kernel: String,
    pub root_ready: bool,
    pub hook_ready: bool,
    pub freezer_ready: bool,
    pub verified_targets: Vec<VerifiedTarget>,
}

/// The device on which the daemon runs, as a value.
#[verifier::ext_equal]
pub ghost struct RuntimeView {
    pub device_model: Seq<char>,
    pub android_version: Seq<char>,
    pub sdk: u32,
    pub fingerprint: Seq<char>,
    pub kernel: Seq<char>,
    pub root_ready: bool,
    pub hook_ready: bool,
    pub freezer_ready: bool,
    pub verified_targets: Seq<Ident>,
}

impl View for RuntimeEnvironment {
    type V = RuntimeView;

    open spec fn view(&self) -> RuntimeView {
        RuntimeView {
            device_model: self.device_model@,
            android_version: self.android_version@,
            sdk: self.sdk,
            fingerprint: self.fingerprint@,
            kernel: self.kernel@,
            root_ready: self.root_ready,
            hook_ready: self.hook_ready,
            freezer_ready: self.freezer_ready,
            verified_targets: targets_of(self.verified_targets@),
        }
    }
}

/// A target for a device; the case of letters in the model does not matter.
pub open spec fn is_target_for(t: Ident, model: Seq<char>, sdk: u32) -> bool {
    lower(t.0) == lower(model) && t.1 == sdk
}

impl RuntimeView {
    /// The device is among the verified targets.
    pub open spec fn verified(self) -> bool {
        exists|i: int|
            0 <= i < self.verified_targets.len() && is_target_for(
                #[trigger] self.verified_targets[i],
                self.device_model,
                self.sdk,
            )
    }

    /// The system is recent enough and its kernel is known.
    pub open spec fn compatible(self) -> bool {
        self.sdk >= 31 && trim(self.kernel).len() > 0
    }

    /// Processes may be controlled: on a verified and compatible device with everything ready.
    pub open spec fn allows(self, capabilities: Seq<CapabilityView>) -> bool {
        &&& self.verified()
        &&& self.compatible()
        &&& self.root_ready
        &&& self.hook_ready
        &&& self.freezer_ready
        &&& forall|i: int|
            0 <= i < capabilities.len() && (#[trigger] capabilities[i]).name
                == CapabilityName::CgroupV2Freezer ==> capabilities[i].status
                == CapabilityStatus::Available && capabilities[i].risk_level
                != RiskLevel::Disabled
    }
}

/// Control is allowed on a verified device only, and never with a freezer that is not available.
pub proof fn control_needs_evidence(r: RuntimeView, capabilities: Seq<CapabilityView>, i: int)
    requires
        r.allows(capabilities),
    ensures
        r.verified(),
        r.compatible(),
        r.root_ready && r.hook_ready && r.freezer_ready,
        0 <= i < capabilities.len() && capabilities[i].name == CapabilityName::CgroupV2Freezer
            ==> capabilities[i].status == CapabilityStatus::Available,
{
}

fn same_ignoring_case(a: &str, b: &str) -> (r: bool)
    ensures
        r == (lower(a@) == lower(b@)),
{
    let x = chars_of(a);
    let y = chars_of(b);
    if x.len() != y.len() {
        assert(lower(a@).len() != lower(b@).len());
        return false;
    }
    let mut i: usize = 0;
    while i < x.len()
        invariant
            i <= x@.len(),
            x@ == a@,
            y@ == b@,
            x@.len() == y@.len(),
            forall|k: int| 0 <= k < i ==> lower(a@)[k] == lower(b@)[k],
        decreases x@.len() - i,
    {
        if to_lower_char(x[i]) != to_lower_char(y[i]) {
            assert(lower(a@)[i as int] != lower(b@)[i as int]);
            return false;
        }
        i += 1;
    }
    assert(lower(a@) =~= lower(b@));
    true
}

/// The name of a capability in reports.
pub open spec fn capability_key(name: CapabilityName) -> Seq<char> {
    match name {
        CapabilityName::Root => "root"@,
        CapabilityName::PackageInventory => "package_inventory"@,
        CapabilityName::LsposedSystemServer => "lsposed_system_server"@,
        CapabilityName::CgroupV2Freezer => "cgroup_v2_freezer"@,
        CapabilityName::BinderFreezer => "binder_freezer"@,
        CapabilityName::SignalControl => "signal_control"@,
        CapabilityName::NetworkBreak => "network_break"@,
        CapabilityName::WakelockControl => "wakelock_control"@,
    }
}

/// The name of a capability in reports.
pub fn capability_name(name: CapabilityName) -> (r: &'static str)
    ensures
        r@ == capability_key(name),
{
    match name {
        CapabilityName::Root => "root",
        CapabilityName::PackageInventory => "package_inventory",
        CapabilityName::LsposedSystemServer => "lsposed_system_server",
        CapabilityName::CgroupV2Freezer => "cgroup_v2_freezer",
        CapabilityName::BinderFreezer => "binder_freezer",
        CapabilityName::SignalControl => "signal_control",
        CapabilityName::NetworkBreak => "network_break",
        CapabilityName::WakelockControl => "wakelock_control",
    }
}

/// The status of a capability in reports.
pub open spec fn status_key(status: CapabilityStatus) -> Seq<char> {
    match status {
        CapabilityStatus::Available => "available"@,
        CapabilityStatus::Missing => "missing"@,
        CapabilityStatus::Degraded => "degraded"@,
        CapabilityStatus::Untested => "untested"@,
    }
}

/// The status of a capability in reports.
pub fn capability_status(status: CapabilityStatus) -> (r: &'static str)
    ensures
        r@ == status_key(status),
{
    match status {
        CapabilityStatus::Available => "available",
        CapabilityStatus::Missing => "missing",
        CapabilityStatus::Degraded => "degraded",
        CapabilityStatus::Untested => "untested",
    }
}

/// A capability as a JSON object, with its evidence under a key.
pub open spec fn capability_json(c: CapabilityView, key: Seq<char>, full: bool) -> Seq<char> {
    "{\"name\":\""@ + capability_key(c.name) + "\",\"status\":\""@ + status_key(c.status)
        + "\",\""@ + key + "\":\""@ + escaped(c.evidence, full) + "\"}"@
}

/// Capabilities as JSON objects, separated by commas.
pub open spec fn capabilities_json(
    capabilities: Seq<CapabilityView>,
    key: Seq<char>,
    full: bool,
) -> Seq<char> {
    join(capabilities.map_values(|c: CapabilityView| capability_json(c, key, full)), ","@)
}

/// Writes capabilities as JSON objects, separated by commas.
pub fn write_capabilities(capabilities: &[ControlCapability], key: &str, full: bool) -> (r: String)
    ensures
        r@ == capabilities_json(capability_views(capabilities@), key@, full),
{
    let ghost all = capability_views(capabilities@).map_values(
        |c: CapabilityView| capability_json(c, key@, full),
    );
    let mut parts: Vec<String> = Vec::new();
    let mut i: usize = 0;
    while i < capabilities.len()
        invariant
            i <= capabilities@.len(),
            all == capability_views(capabilities@).map_values(
                |c: CapabilityView| capability_json(c, key@, full),
            ),
            texts(parts@) == all.take(i as int),
        decreases capabilities@.len() - i,
    {
        let c = &capabilities[i];
        let mut part = text("{\"name\":\"");
        part.append(capability_name(c.name));
        part.append("\",\"status\":\"");
        part.append(capability_status(c.status));
        part.append("\",\"");
        part.append(key);
        part.append("\":\"");
        let evidence = escape_json(c.evidence.as_str(), full);
        part.append(evidence.as_str());
        part.append("\"}");
        assert(part@ == all[i as int]);
        let ghost done = texts(parts@);
        parts.push(part);
        assert(texts(parts@) =~= done.push(part@));
        assert(all.take(i + 1) =~= all.take(i as int).push(all[i as int]));
        i += 1;
    }
    assert(all.take(i as int) =~= all);
    join_strings(parts.as_slice(), ",")
}

/// Texts as JSON strings, separated by commas.
pub open spec fn strings_json(items: Seq<Seq<char>>, full: bool) -> Seq<char> {
    join(items.map_values(|s: Seq<char>| quoted(s, full)), ","@)
}

/// Writes texts as JSON strings, separated by commas.
pub fn write_strings(items: &[String], full: bool) -> (r: String)
    ensures
        r@ == strings_json(texts(items@), full),
{
    let ghost all = texts(items@).map_values(|s: Seq<char>| quoted(s, full));
    let mut parts: Vec<String> = Vec::new();
    let mut i: usize = 0;
    while i < items.len()
        invariant
            i <= items@.len(),
            all == texts(items@).map_values(|s: Seq<char>| quoted(s, full)),
            texts(parts@) == all.take(i as int),
        decreases items@.len() - i,
    {
        let part = quote(items[i].as_str(), full);
        assert(texts(items@)[i as int] == items@[i as int]@);
        assert(part@ == all[i as int]);
        let ghost done = texts(parts@);
        parts.push(part);
        assert(texts(parts@) =~= done.push(part@));
        assert(all.take(i + 1) =~= all.take(i as int).push(all[i as int]));
        i += 1;
    }
    assert(all.take(i as int) =~= all);
    join_strings(parts.as_slice(), ",")
}

/// A truth value in JSON.
pub open spec fn truth(b: bool) -> Seq<char> {
    if b {
        "true"@
    } else {
        "false"@
    }
}

/// Writes a truth value in JSON.
pub fn write_truth(b: bool) -> (r: &'static str)
    ensures
        r@ == truth(b),
{
    if b {
        "true"
    } else {
        "false"
    }
}

/// The evidence of capabilities that are not available.
pub open spec fn lacking(capabilities: Seq<CapabilityView>) -> Seq<Seq<char>>
    decreases capabilities.len(),
{
    if capabilities.len() == 0 {
        seq![]
    } else {
        let rest = lacking(capabilities.drop_last());
        if capabilities.last().status != CapabilityStatus::Available {
            rest.push(capabilities.last().evidence)
        } else {
            rest
        }
    }
}

/// The list with a text, unless all is well.
pub open spec fn listed_unless(list: Seq<Seq<char>>, well: bool, item: Seq<char>) -> Seq<Seq<char>> {
    if well {
        list
    } else {
        list.push(item)
    }
}

/// What stands against control of processes.
pub open spec fn limits(r: RuntimeView, capabilities: Seq<CapabilityView>) -> Seq<Seq<char>> {
    let none: Seq<Seq<char>> = seq![];
    let a = listed_unless(
        none,
        r.verified(),
        "runtime is not present in the module verified target list"@,
    );
    let b = listed_unless(
        a,
        r.compatible(),
        "runtime requires Android API 31+ and a detected kernel"@,
    );
    let c = listed_unless(b, r.root_ready, "root capability unavailable"@);
    let d = listed_unless(c, r.hook_ready, "hook bridge unavailable"@);
    let e = listed_unless(d, r.freezer_ready, "freezer capability unavailable"@);
    e + lacking(capabilities)
}

fn list_unless(list: &mut Vec<String>, well: bool, item: &str)
    ensures
        texts(final(list)@) == listed_unless(texts(old(list)@), well, item@),
{
    if !well {
        let ghost before = texts(list@);
        let item = copy(item);
        list.push(item);
        assert(texts(list@) =~= before.push(item@));
    }
}

/// The report on the device.
pub open spec fn device_report(r: RuntimeView, capabilities: Seq<CapabilityView>) -> Seq<char> {
    "{\"schema\":2,\"deviceModel\":\""@ + escaped(r.device_model, false)
        + "\",\"androidVersion\":\""@ + escaped(r.android_version, false) + "\",\"sdk\":"@
        + decimal(r.sdk as nat) + ",\"fingerprint\":\""@ + escaped(r.fingerprint, false)
        + "\",\"kernel\":\""@ + escaped(r.kernel, false) + "\",\"rootReady\":"@ + truth(
        r.root_ready,
    ) + ",\"hookReady\":"@ + truth(r.hook_ready) + ",\"freezerReady\":"@ + truth(r.freezer_ready)
        + ",\"verifiedTarget\":"@ + truth(r.verified()) + ",\"runtimeCompatible\":"@ + truth(
        r.compatible(),
    ) + ",\"controlAllowed\":"@ + truth(r.allows(capabilities)) + ",\"limitations\":["@
        + strings_json(limits(r, capabilities), false) + "],\"capabilities\":["@
        + capabilities_json(capabilities, "evidence"@, false) + "]}"@
}

impl RuntimeEnvironment {
    /// A device without verified targets.
    #[allow(clippy::too_many_arguments)]
    pub fn new(
        device_model: &str,
        android_version: &str,
        sdk: u32,
        fingerprint: &str,
        kernel: &str,
        root_ready: bool,
        hook_ready: bool,
        freezer_ready: bool,
    ) -> (r: Self)
        ensures
            r@ == (RuntimeView {
                device_model: device_model@,
                android_version: android_version@,
                sdk,
                fingerprint: fingerprint@,
                kernel: kernel@,
                root_ready,
                hook_ready,
                freezer_ready,
                verified_targets: seq![],
            }),
    {
        let r = RuntimeEnvironment {
            device_model: copy(device_model),
            android_version: copy(android_version),
            sdk,
            fingerprint: copy(fingerprint),
            kernel: copy(kernel),
            root_ready,
            hook_ready,
            freezer_ready,
            verified_targets: Vec::new(),
        };
        assert(targets_of(r.verified_targets@) =~= seq![]);
        r
    }

    /// The device with verified targets.
    pub fn with_verified_targets(self, verified_targets: Vec<VerifiedTarget>) -> (r: Self)
        ensures
            r@ == (RuntimeView { verified_targets: targets_of(verified_targets@), ..self@ }),
    {
        RuntimeEnvironment {
            device_model: self.device_model,
            android_version: self.android_version,
            sdk: self.sdk,
            fingerprint: self.fingerprint,
            kernel: self.kernel,
            root_ready: self.root_ready,
            hook_ready: self.hook_ready,
            freezer_ready: self.freezer_ready,
            verified_targets,
        }
    }

    /// Whether the device is among the verified targets.
    pub fn verified_target(&self) -> (r: bool)
        ensures
            r == self@.verified(),
    {
        let ghost all = targets_of(self.verified_targets@);
        let mut i: usize = 0;
        while i < self.verified_targets.len()
            invariant
                i <= self.verified_targets@.len(),
                all == targets_of(self.verified_targets@),
                forall|k: int|
                    0 <= k < i ==> !is_target_for(
                        #[trigger] all[k],
                        self.device_model@,
                        self.sdk,
                    ),
            decreases self.verified_targets@.len() - i,
        {
            let target = &self.verified_targets[i];
            assert(all[i as int] == target@);
            if same_ignoring_case(target.device_model.as_str(), self.device_model.as_str())
                && target.sdk == self.sdk {
                assert(is_target_for(self@.verified_targets[i as int], self.device_model@, self.sdk));
                return true;
            }
            i += 1;
        }
        false
    }

    /// Whether the system is recent enough and its kernel is known.
    pub fn runtime_compatible(&self) -> (r: bool)
        ensures
            r == self@.compatible(),
    {
        let kernel = trimmed(self.kernel.as_str());
        self.sdk >= 31 && !kernel.as_str().is_empty()
    }

    /// Whether processes may be controlled.
    pub fn allows_control(&self, capabilities: &[ControlCapability]) -> (r: bool)
        ensures
            r == self@.allows(capability_views(capabilities@)),
    {
        if !(self.verified_target() && self.runtime_compatible() && self.root_ready
            && self.hook_ready && self.freezer_ready) {
            return false;
        }
        let ghost all = capability_views(capabilities@);
        let mut i: usize = 0;
        while i < capabilities.len()
            invariant
                i <= capabilities@.len(),
                all == capability_views(capabilities@),
                forall|k: int|
                    0 <= k < i && (#[trigger] all[k]).name == CapabilityName::CgroupV2Freezer
                        ==> all[k].status == CapabilityStatus::Available && all[k].risk_level
                        != RiskLevel::Disabled,
            decreases capabilities@.len() - i,
        {
            let c = &capabilities[i];
            assert(all[i as int] == c@);
            if c.name == CapabilityName::CgroupV2Freezer && (c.status
                != CapabilityStatus::Available || c.risk_level == RiskLevel::Disabled) {
                return false;
            }
            i += 1;
        }
        true
    }

    /// What stands against control of processes.
    pub fn limitations(&self, capabilities: &[ControlCapability]) -> (r: Vec<String>)
        ensures
            texts(r@) == limits(self@, capability_views(capabilities@)),
    {
        let mut list: Vec<String> = Vec::new();
        assert(texts(list@) =~= seq![]);
        list_unless(
            &mut list,
            self.verified_target(),
            "runtime is not present in the module verified target list",
        );
        list_unless(
            &mut list,
            self.runtime_compatible(),
            "runtime requires Android API 31+ and a detected kernel",
        );
        list_unless(&mut list, self.root_ready, "root capability unavailable");
        list_unless(&mut list, self.hook_ready, "hook bridge unavailable");
        list_unless(&mut list, self.freezer_ready, "freezer capability unavailable");
        let ghost head = texts(list@);
        let ghost all = capability_views(capabilities@);
        let mut i: usize = 0;
        assert(texts(list@) =~= head + lacking(all.take(0)));
        while i < capabilities.len()
            invariant
                i <= capabilities@.len(),
                all == capability_views(capabilities@),
                texts(list@) == head + lacking(all.take(i as int)),
            decreases capabilities@.len() - i,
        {
            let c = &capabilities[i];
            assert(all.take(i + 1).drop_last() =~= all.take(i as int));
            assert(all.take(i + 1).last() == c@);
            if c.status != CapabilityStatus::Available {
                let ghost done = texts(list@);
                let item = copy(c.evidence.as_str());
                list.push(item);
                assert(texts(list@) =~= done.push(item@));
            }
            assert(texts(list@) =~= head + lacking(all.take(i + 1)));
            i += 1;
        }
        assert(all.take(i as int) =~= all);
        list
    }

    /// Writes the report on the device.
    pub fn compatibility_json(&self, capabilities: &[ControlCapability]) -> (r: String)
        ensures
            r@ == device_report(self@, capability_views(capabilities@)),
    {
        let capabilities_text = write_capabilities(capabilities, "evidence", false);
        let limitations = self.limitations(capabilities);
        let limitations_text = write_strings(limitations.as_slice(), false);
        let mut out = text("{\"schema\":2,\"deviceModel\":\"");
        let part = escape_json(self.device_model.as_str(), false);
        out.append(part.as_str());
        out.append("\",\"androidVersion\":\"");
        let part = escape_json(self.android_version.as_str(), false);
        out.append(part.as_str());
        out.append("\",\"sdk\":");
        let part = number(self.sdk as u128);
        out.append(part.as_str());
        out.append(",\"fingerprint\":\"");
        let part = escape_json(self.fingerprint.as_str(), false);
        out.append(part.as_str());
        out.append("\",\"kernel\":\"");
        let part = escape_json(self.kernel.as_str(), false);
        out.append(part.as_str());
        out.append("\",\"rootReady\":");
        out.append(write_truth(self.root_ready));
        out.append(",\"hookReady\":");
        out.append(write_truth(self.hook_ready));
        out.append(",\"freezerReady\":");
        out.append(write_truth(self.freezer_ready));
        out.append(",\"verifiedTarget\":");
        out.append(write_truth(self.verified_target()));
        out.append(",\"runtimeCompatible\":");
        out.append(write_truth(self.runtime_compatible()));
        out.append(",\"controlAllowed\":");
        out.append(write_truth(self.allows_control(capabilities)));
        out.append(",\"limitations\":[");
        out.append(limitations_text.as_str());
        out.append("],\"capabilities\":[");
        out.append(capabilities_text.as_str());
        out.append("]}");
        out
    }
}

// ---------------------------------------------------------------------------
// Verified targets in files
// ---------------------------------------------------------------------------

/// The value of the first property with one of some keys.
pub open spec fn property_of(rows: Seq<Seq<char>>, keys: Seq<Seq<char>>) -> Option<Seq<char>>
    decreases rows.len(),
{
    if rows.len() == 0 {
        None
    } else {
        match split_once(rows[0], '=') {
            Some((key, value)) => if keys.contains(trim(key)) {
                Some(trim(value))
            } else {
                property_of(rows.skip(1), keys)
            },
            None => property_of(rows.skip(1), keys),
        }
    }
}

fn lists_key(keys: &[&str], key: &str) -> (r: bool)
    ensures
        r == keys@.map_values(|k: &str| k@).contains(key@),
{
    let ghost all = keys@.map_values(|k: &str| k@);
    let mut i: usize = 0;
    while i < keys.len()
        invariant
            i <= keys@.len(),
            all == keys@.map_values(|k: &str| k@),
            forall|j: int| 0 <= j < i ==> all[j] != key@,
        decreases keys@.len() - i,
    {
        assert(all[i as int] == keys@[i as int]@);
        if same(keys[i], key) {
            return true;
        }
        i += 1;
    }
    false
}

fn property(rows: &[String], keys: &[&str]) -> (r: Option<String>)
    ensures
        match r {
            Some(s) => property_of(texts(rows@), keys@.map_values(|k: &str| k@)) == Some(s@),
            None => property_of(texts(rows@), keys@.map_values(|k: &str| k@)) is None,
        },
{
    let ghost all = texts(rows@);
    let ghost names = keys@.map_values(|k: &str| k@);
    let mut i: usize = 0;
    assert(all.skip(0) =~= all);
    while i < rows.len()
        invariant
            i <= rows@.len(),
            all == texts(rows@),
            names == keys@.map_values(|k: &str| k@),
            property_of(all, names) == property_of(all.skip(i as int), names),
        decreases rows@.len() - i,
    {
        assert(all.skip(i as int)[0] == rows@[i as int]@);
        assert(all.skip(i as int).skip(1) =~= all.skip(i + 1));
        match split_at_char(rows[i].as_str(), '=') {
            Some((key, value)) => {
                let key = trimmed(key.as_str());
                if lists_key(keys, key.as_str()) {
                    return Some(trimmed(value.as_str()));
                }
            },
            None => {},
        }
        i += 1;
    }
    None
}

/// The system level of an Android version.
pub open spec fn version_level(version: Seq<char>) -> Option<u32> {
    let v = trim(version);
    if v == "12"@ {
        Some(31)
    } else if v == "12.1"@ {
        Some(32)
    } else if v == "13"@ {
        Some(33)
    } else if v == "14"@ {
        Some(34)
    } else if v == "15"@ {
        Some(35)
    } else if v == "16"@ {
        Some(36)
    } else {
        None
    }
}

/// The system level of an Android version.
pub fn android_version_sdk(version: &str) -> (r: Option<u32>)
    ensures
        r == version_level(version@),
{
    let v = trimmed(version);
    if same(v.as_str(), "12") {
        Some(31)
    } else if same(v.as_str(), "12.1") {
        Some(32)
    } else if same(v.as_str(), "13") {
        Some(33)
    } else if same(v.as_str(), "14") {
        Some(34)
    } else if same(v.as_str(), "15") {
        Some(35)
    } else if same(v.as_str(), "16") {
        Some(36)
    } else {
        None
    }
}

/// The keys of a device model.
pub open spec fn model_keys() -> Seq<Seq<char>> {
    seq!["rom.product"@, "ro.product.model"@, "ro.product.device"@]
}

/// The keys of a system level.
pub open spec fn level_keys() -> Seq<Seq<char>> {
    seq!["rom.sdk"@, "ro.build.version.sdk"@]
}

/// The system level in a baseline: a number, else the one for its Android version.
pub open spec fn baseline_level(rows: Seq<Seq<char>>) -> Option<u32> {
    let direct = match property_of(rows, level_keys()) {
        Some(v) => parse_unsigned(v, u32::MAX as nat),
        None => None,
    };
    match direct {
        Some(level) => Some(level as u32),
        None => match property_of(rows, seq!["rom.android.version"@]) {
            Some(version) => version_level(version),
            None => None,
        },
    }
}

/// The target that a baseline describes.
pub open spec fn baseline_target(text: Seq<char>) -> Option<Ident> {
    match (property_of(lines(text), model_keys()), baseline_level(lines(text))) {
        (Some(model), Some(sdk)) => Some((model, sdk)),
        _ => None,
    }
}

fn read_baseline(s: &str) -> (r: Option<VerifiedTarget>)
    ensures
        match r {
            Some(t) => baseline_target(s@) == Some(t@),
            None => baseline_target(s@) is None,
        },
{
    let rows = split_lines(s);
    let model_names: [&str; 3] = ["rom.product", "ro.product.model", "ro.product.device"];
    let level_names: [&str; 2] = ["rom.sdk", "ro.build.version.sdk"];
    let version_names: [&str; 1] = ["rom.android.version"];
    assert(model_names@.map_values(|k: &str| k@) =~= model_keys());
    assert(level_names@.map_values(|k: &str| k@) =~= level_keys());
    assert(version_names@.map_values(|k: &str| k@) =~= seq!["rom.android.version"@]);
    let model = property(rows.as_slice(), model_names.as_slice());
    let mut sdk: Option<u32> = match property(rows.as_slice(), level_names.as_slice()) {
        Some(v) => parse_u32(v.as_str()),
        None => None,
    };
    if sdk.is_none() {
        sdk = match property(rows.as_slice(), version_names.as_slice()) {
            Some(version) => android_version_sdk(version.as_str()),
            None => None,
        };
    }
    match (model, sdk) {
        (Some(model), Some(sdk)) => Some(VerifiedTarget { device_model: model, sdk }),
        _ => None,
    }
}

/// The first system level among fields, with or without its key.
pub open spec fn field_level(fields: Seq<Seq<char>>) -> Option<u32>
    decreases fields.len(),
{
    if fields.len() == 0 {
        None
    } else {
        let f = match strip_prefix(fields[0], "sdk="@) {
            Some(rest) => rest,
            None => fields[0],
        };
        match parse_unsigned(f, u32::MAX as nat) {
            Some(level) => Some(level as u32),
            None => field_level(fields.skip(1)),
        }
    }
}

/// A text without its comment.
pub open spec fn uncommented(line: Seq<char>) -> Seq<char> {
    match split_once(line, '#') {
        Some((head, _)) => head,
        None => line,
    }
}

/// A text with spaces in the place of commas.
pub open spec fn spaced(s: Seq<char>) -> Seq<char> {
    s.map_values(
        |c: char|
            if c == ',' {
                ' '
            } else {
                c
            },
    )
}

/// The target on a line of the list.
pub open spec fn listed_target(line: Seq<char>) -> Option<Ident> {
    let fields = words(spaced(trim(uncommented(line))));
    if fields.len() == 0 {
        None
    } else {
        match field_level(fields.skip(1)) {
            Some(sdk) => Some((fields[0], sdk)),
            None => None,
        }
    }
}

fn replace_commas(s: &str) -> (r: String)
    ensures
        r@ == spaced(s@),
{
    let x = chars_of(s);
    let mut out = String::new();
    let mut i: usize = 0;
    assert(out@ =~= spaced(s@).take(0));
    while i < x.len()
        invariant
            i <= x@.len(),
            x@ == s@,
            out@ == spaced(s@).take(i as int),
        decreases x@.len() - i,
    {
        let c = x[i];
        out.push(
            if c == ',' {
                ' '
            } else {
                c
            },
        );
        assert(out@ =~= spaced(s@).take(i + 1));
        i += 1;
    }
    assert(out@ =~= spaced(s@));
    out
}

fn read_field_level(fields: &[String]) -> (r: Option<u32>)
    requires
        fields@.len() > 0,
    ensures
        r == field_level(texts(fields@).skip(1)),
{
    let ghost all = texts(fields@);
    let mut i: usize = 1;
    while i < fields.len()
        invariant
            1 <= i <= fields@.len(),
            all == texts(fields@),
            field_level(all.skip(1)) == field_level(all.skip(i as int)),
        decreases fields@.len() - i,
    {
        assert(all.skip(i as int)[0] == fields@[i as int]@);
        assert(all.skip(i as int).skip(1) =~= all.skip(i + 1));
        let level = match after_prefix(fields[i].as_str(), "sdk=") {
            Some(rest) => parse_u32(rest.as_str()),
            None => parse_u32(fields[i].as_str()),
        };
        if level.is_some() {
            return level;
        }
        i += 1;
    }
    None
}

fn read_listed_target(line: &str) -> (r: Option<RuntimeIdentity>)
    ensures
        match r {
            Some(t) => listed_target(line@) == Some(t@),
            None => listed_target(line@) is None,
        },
{
    let head = match split_at_char(line, '#') {
        Some((head, _)) => head,
        None => copy(line),
    };
    let trimmed_head = trimmed(head.as_str());
    let normalized = replace_commas(trimmed_head.as_str());
    let fields = split_words(normalized.as_str());
    assert(texts(fields@).len() == fields@.len());
    if fields.len() == 0 {
        return None;
    }
    assert(texts(fields@)[0] == fields@[0]@);
    match read_field_level(fields.as_slice()) {
        Some(sdk) => Some((copy(fields[0].as_str()), sdk)),
        None => None,
    }
}

/// The targets on lines of the list.
pub open spec fn listed_targets(rows: Seq<Seq<char>>) -> Set<Ident>
    decreases rows.len(),
{
    if rows.len() == 0 {
        Set::empty()
    } else {
        match listed_target(rows.last()) {
            Some(t) => listed_targets(rows.drop_last()).insert(t),
            None => listed_targets(rows.drop_last()),
        }
    }
}

/// All targets in the baseline and the list; either may be missing.
pub open spec fn all_targets(baseline: Option<&str>, allowlist: Option<&str>) -> Set<Ident> {
    let listed = match allowlist {
        Some(s) => listed_targets(lines(s@)),
        None => Set::empty(),
    };
    match baseline {
        Some(s) => match baseline_target(s@) {
            Some(t) => listed.insert(t),
            None => listed,
        },
        None => listed,
    }
}

/// Reads the verified targets from the baseline and the list, in order and each once.
pub fn load_verified_targets(baseline: Option<&str>, allowlist: Option<&str>) -> (r: Vec<
    VerifiedTarget,
>)
    ensures
        targets_of(r@) == ordered(all_targets(baseline, allowlist)),
        targets_of(r@).to_set() == all_targets(baseline, allowlist),
{
    let mut found: IdentityMap<()> = IdentityMap::new();
    assert(found@.dom() =~= Set::empty());
    match allowlist {
        Some(s) => {
            let rows = split_lines(s);
            let ghost all = texts(rows@);
            let mut i: usize = 0;
            assert(found@.dom() =~= listed_targets(all.take(0)));
            while i < rows.len()
                invariant
                    i <= rows@.len(),
                    all == texts(rows@),
                    found@.dom() == listed_targets(all.take(i as int)),
                decreases rows@.len() - i,
            {
                assert(all.take(i + 1).drop_last() =~= all.take(i as int));
                assert(all.take(i + 1).last() == rows@[i as int]@);
                match read_listed_target(rows[i].as_str()) {
                    Some(t) => {
                        let ghost done = found@.dom();
                        let ghost key = t@;
                        found.insert(t, ());
                        assert(found@.dom() =~= done.insert(key));
                    },
                    None => {},
                }
                i += 1;
            }
            assert(all.take(i as int) =~= all);
        },
        None => {},
    }
    match baseline {
        Some(s) => match read_baseline(s) {
            Some(t) => {
                let ghost done = found@.dom();
                let ghost key = t@;
                found.insert((t.device_model, t.sdk), ());
                assert(found@.dom() =~= done.insert(key));
            },
            None => {},
        },
        None => {},
    }
    let keys = found.keys();
    let ghost ids = identities(keys@);
    let mut out: Vec<VerifiedTarget> = Vec::new();
    let mut i: usize = 0;
    while i < keys.len()
        invariant
            i <= keys@.len(),
            ids == identities(keys@),
            targets_of(out@) == ids.take(i as int),
        decreases keys@.len() - i,
    {
        let ghost done = targets_of(out@);
        let t = VerifiedTarget { device_model: copy(keys[i].0.as_str()), sdk: keys[i].1 };
        out.push(t);
        assert(targets_of(out@) =~= done.push(t@));
        assert(ids.take(i + 1) =~= done.push(ids[i as int]));
        i += 1;
    }
    assert(ids.take(i as int) =~= ids);
    out
}

} // verus!
