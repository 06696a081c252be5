//! What configuration files, package lists and reports say.

use vstd::prelude::*;

use crate::app::command_runner::{
    after_stream, next_step, RunStepView, RunView, Stream, StreamEvent,
};
use crate::app::compatibility::{version_level, RuntimeView};
use crate::app::controller::rules::{managed_app, record_policy};
use crate::app::controller::startup::{
    available, core_names, kept_lines, loaded_records, mentions_rom, started, with_property,
    StartupFacts,
};
use crate::app::health::{evaluated, HealthStatus};
use crate::app::package_inventory::{first_uid, last_uid, package_line, packages_of};
use crate::config::loader::DaemonPaths;
use crate::config::migration::{
    label_line, migrated_labels, migrated_policies, policy_line, policy_target, PolicyLine,
    TargetView,
};
use crate::domain::capability::{
    capability_views, CapabilityName, CapabilityStatus, CapabilityView, RiskLevel,
};
use crate::domain::policy::{
    control_allowed, legacy_policy, FallbackAction, ForegroundStrategy, FreezeMode,
};
use crate::protocol::manager_v1::state::ManagerView;
use crate::protocol::records::ManagerAppConfigRecord;
use crate::text::{
    decimal, lines, lower, signed_decimal, signed_reads_back, split_once, starts_with, trim,
    unsigned_reads_back, words,
};

verus! {

// ---------------------------------------------------------------------------
// Lines of the configuration
// ---------------------------------------------------------------------------

/// A line of the configuration names an application, its mode and whether it is treated
/// leniently: so it is unless the third word is a zero. A line that is blank or a comment, or
/// without a mode, names nothing.
pub proof fn lines_name_application_mode_and_leniency(line: Seq<char>, mode: i32)
    ensures
        ({
            let t = trim(line);
            let parts = words(t);
            &&& t.len() == 0 || t[0] == '#' || parts.len() < 2 ==> policy_line(line) is None
            &&& t.len() > 0 && t[0] != '#' && parts.len() >= 2 && parts[1] == signed_decimal(
                mode as int,
            ) ==> {
                &&& policy_line(line) matches Some(p) && p.package_or_uid == parts[0] && p.mode
                    == mode && (p.permissive <==> !(parts.len() >= 3 && parts[2] == "0"@))
            }
        }),
{
    reveal_strlit("#");
    signed_reads_back(mode as int, i32::MIN as int, i32::MAX as int);
    let t = trim(line);
    if t.len() > 0 {
        let head = t.subrange(0, 1);
        assert(head[0] == t[0]);
        if t[0] == '#' {
            assert(head =~= "#"@);
        } else {
            assert("#"@[0] == '#');
        }
    }
}

/// A token of digits alone is a uid.
pub proof fn digits_are_uids(uid: u32)
    ensures
        policy_target(decimal(uid as nat)) == Some(TargetView::Uid(uid)),
{
    unsigned_reads_back(uid as nat, u32::MAX as nat);
    crate::text::decimal_reads_back(uid as nat);
    let d = decimal(uid as nat);
    assert(d.len() > 0) by {
        reveal_with_fuel(decimal, 2);
    }
    crate::text::digits_are_a_word(d);
    crate::text::trimmed_text_stays(d);
}

/// The configuration is read line by line, in order.
pub proof fn policies_are_read_line_by_line(a: Seq<Seq<char>>, b: Seq<Seq<char>>, row: Seq<char>)
    ensures
        migrated_policies(a + b) == migrated_policies(a) + migrated_policies(b),
        migrated_labels(a + b) == migrated_labels(a) + migrated_labels(b),
        policy_line(row) matches Some(p) ==> policy_target(p.package_or_uid) is Some
            ==> migrated_policies(seq![row]) == seq![(p, legacy_policy(p.mode, p.permissive))],
        policy_line(row) matches Some(p) ==> policy_target(p.package_or_uid) is None
            ==> migrated_policies(seq![row]).len() == 0,
        policy_line(row) is None ==> migrated_policies(seq![row]).len() == 0,
        label_line(row) matches Some(l) ==> migrated_labels(seq![row]) == seq![l],
        label_line(row) is None ==> migrated_labels(seq![row]).len() == 0,
    decreases b.len(),
{
    assert(seq![row].drop_last() =~= seq![]);
    assert(migrated_policies(seq![]) =~= seq![]);
    assert(migrated_labels(seq![]) =~= seq![]);
    if let Some(p) = policy_line(row) {
        let one = (p, legacy_policy(p.mode, p.permissive));
        assert(Seq::empty().push(one) =~= seq![one]);
    }
    if let Some(l) = label_line(row) {
        assert(Seq::empty().push(l) =~= seq![l]);
    }
    if b.len() == 0 {
        assert(a + b =~= a);
        assert(migrated_policies(a) + migrated_policies(b) =~= migrated_policies(a));
        assert(migrated_labels(a) + migrated_labels(b) =~= migrated_labels(a));
    } else {
        assert((a + b).drop_last() =~= a + b.drop_last());
        policies_are_read_line_by_line(a, b.drop_last(), row);
        assert(migrated_policies(a + b) =~= migrated_policies(a) + migrated_policies(b));
        assert(migrated_labels(a + b) =~= migrated_labels(a) + migrated_labels(b));
    }
}

/// The modes ask for these policies.
pub proof fn modes_ask_for_their_policy(mode: i32, permissive: bool)
    ensures
        ({
            let p = legacy_policy(mode, permissive);
            &&& p.mode == FreezeMode::Terminate <==> mode == 10
            &&& p.mode == FreezeMode::SignalStop <==> mode == 20 || mode == 21
            &&& p.mode == FreezeMode::Freeze <==> mode == 30 || mode == 31
            &&& p.mode == FreezeMode::Protected <==> mode == 40 || mode == 50
            &&& p.allow_network_restriction <==> mode == 21 || mode == 31
            &&& p.foreground_strategy == ForegroundStrategy::Permissive <==> permissive
            &&& mode == 30 || mode == 31 ==> p.fallback_strategy.len() == 2
                && p.fallback_strategy[0] == FallbackAction::Signal && p.fallback_strategy[1]
                == FallbackAction::Skip
        }),
{
}

/// An application is controlled exactly where its record has one of the modes that ask for it, and
/// it is neither protected nor part of the system: uids below ten thousand, for every user.
pub proof fn only_ordinary_applications_are_controlled(
    record: ManagerAppConfigRecord,
    package: Seq<char>,
)
    ensures
        control_allowed(record_policy(record), managed_app(package, record.uid, None)) <==> {
            &&& record.mode == 10 || record.mode == 20 || record.mode == 21 || record.mode == 30
                || record.mode == 31
            &&& record.uid % 100_000 >= 10_000
        },
        forall|reason: crate::domain::policy::ProtectedReason|
            !control_allowed(
                record_policy(record),
                #[trigger] managed_app(package, record.uid, Some(reason)),
            ),
{
}

// ---------------------------------------------------------------------------
// Packages
// ---------------------------------------------------------------------------

/// A line of the package list names a package and its uid.
pub proof fn package_lines_name_package_and_uid(line: Seq<char>, name: Seq<char>, uid: u32)
    requires
        words(line).len() >= 2,
        words(line)[0] == "package:"@ + name,
        words(line)[1] == "uid:"@ + decimal(uid as nat),
        name.len() > 0,
    ensures
        package_line(line) == Some((name, uid)),
{
    reveal_strlit("package:");
    reveal_strlit("uid:");
    let a = "package:"@ + name;
    let d = decimal(uid as nat);
    let b = "uid:"@ + d;
    assert(a.subrange(0, 8) =~= "package:"@);
    assert(a.skip(8) =~= name);
    assert(b.subrange(0, 4) =~= "uid:"@);
    assert(b.skip(4) =~= d);
    crate::text::decimal_reads_back(uid as nat);
    assert forall|k: int| 0 <= k < d.len() implies d[k] != ',' by {
        assert(crate::text::is_digit(d[k]));
    }
    crate::text::index_is_none(d, ',', 0);
    unsigned_reads_back(uid as nat, u32::MAX as nat);
}

/// Packages are read line by line, in order.
pub proof fn packages_are_read_line_by_line(a: Seq<Seq<char>>, b: Seq<Seq<char>>, row: Seq<char>)
    ensures
        packages_of(a + b) == packages_of(a) + packages_of(b),
        package_line(row) matches Some(p) ==> packages_of(seq![row]) == seq![p],
        package_line(row) is None ==> packages_of(seq![row]).len() == 0,
    decreases b.len(),
{
    assert(seq![row].drop_last() =~= seq![]);
    assert(packages_of(seq![]) =~= seq![]);
    if let Some(p) = package_line(row) {
        assert(Seq::empty().push(p) =~= seq![p]);
    }
    if b.len() == 0 {
        assert(a + b =~= a);
        assert(packages_of(a) + packages_of(b) =~= packages_of(a));
    } else {
        assert((a + b).drop_last() =~= a + b.drop_last());
        packages_are_read_line_by_line(a, b.drop_last(), row);
        assert(packages_of(a + b) =~= packages_of(a) + packages_of(b));
    }
}

/// The uid found for a package is one that the list gives it, and one is found where the list
/// gives any.
pub proof fn packages_have_a_listed_uid(packages: Seq<(Seq<char>, u32)>, name: Seq<char>)
    ensures
        last_uid(packages, name) is Some <==> exists|k: int|
            0 <= k < packages.len() && (#[trigger] packages[k]).0 == name,
        last_uid(packages, name) matches Some(uid) ==> exists|k: int|
            {
                &&& 0 <= k < packages.len()
                &&& #[trigger] packages[k] == (name, uid)
                &&& forall|m: int| k < m < packages.len() ==> (#[trigger] packages[m]).0 != name
            },
        first_uid(packages, name) is Some <==> last_uid(packages, name) is Some,
        first_uid(packages, name) matches Some(uid) ==> exists|k: int|
            {
                &&& 0 <= k < packages.len()
                &&& #[trigger] packages[k] == (name, uid)
                &&& forall|m: int| 0 <= m < k ==> (#[trigger] packages[m]).0 != name
            },
{
    last_is_listed(packages, name);
    first_is_listed(packages, name);
}

proof fn last_is_listed(packages: Seq<(Seq<char>, u32)>, name: Seq<char>)
    ensures
        last_uid(packages, name) is Some <==> exists|k: int|
            0 <= k < packages.len() && (#[trigger] packages[k]).0 == name,
        last_uid(packages, name) matches Some(uid) ==> exists|k: int|
            {
                &&& 0 <= k < packages.len()
                &&& #[trigger] packages[k] == (name, uid)
                &&& forall|m: int| k < m < packages.len() ==> (#[trigger] packages[m]).0 != name
            },
    decreases packages.len(),
{
    if packages.len() > 0 {
        let rest = packages.drop_last();
        let n = rest.len() as int;
        last_is_listed(rest, name);
        if packages.last().0 == name {
            assert(packages[n] == (name, packages.last().1));
        } else {
            if let Some(uid) = last_uid(rest, name) {
                let k = choose|k: int|
                    {
                        &&& 0 <= k < rest.len()
                        &&& #[trigger] rest[k] == (name, uid)
                        &&& forall|m: int| k < m < rest.len() ==> (#[trigger] rest[m]).0 != name
                    };
                assert(packages[k] == (name, uid));
                assert forall|m: int| k < m < packages.len() implies (#[trigger] packages[m]).0
                    != name by {
                    if m < n {
                        assert(rest[m] == packages[m]);
                    }
                }
            }
            if exists|k: int| 0 <= k < packages.len() && (#[trigger] packages[k]).0 == name {
                let k = choose|k: int| 0 <= k < packages.len() && (#[trigger] packages[k]).0 == name;
                assert(rest[k] == packages[k]);
            }
        }
    }
}

proof fn first_is_listed(packages: Seq<(Seq<char>, u32)>, name: Seq<char>)
    ensures
        first_uid(packages, name) is Some <==> exists|k: int|
            0 <= k < packages.len() && (#[trigger] packages[k]).0 == name,
        first_uid(packages, name) matches Some(uid) ==> exists|k: int|
            {
                &&& 0 <= k < packages.len()
                &&& #[trigger] packages[k] == (name, uid)
                &&& forall|m: int| 0 <= m < k ==> (#[trigger] packages[m]).0 != name
            },
    decreases packages.len(),
{
    if packages.len() > 0 {
        let rest = packages.skip(1);
        first_is_listed(rest, name);
        if packages[0].0 == name {
            assert(packages[0] == (name, packages[0].1));
        } else {
            if let Some(uid) = first_uid(rest, name) {
                let k = choose|k: int|
                    {
                        &&& 0 <= k < rest.len()
                        &&& #[trigger] rest[k] == (name, uid)
                        &&& forall|m: int| 0 <= m < k ==> (#[trigger] rest[m]).0 != name
                    };
                assert(packages[k + 1] == (name, uid));
                assert forall|m: int| 0 <= m < k + 1 implies (#[trigger] packages[m]).0 != name by {
                    if m > 0 {
                        assert(rest[m - 1] == packages[m]);
                    }
                }
            }
            if exists|k: int| 0 <= k < packages.len() && (#[trigger] packages[k]).0 == name {
                let k = choose|k: int| 0 <= k < packages.len() && (#[trigger] packages[k]).0 == name;
                assert(rest[k - 1] == packages[k]);
            }
        }
    }
}

/// A line of the configuration is loaded for the uid of the package that it names, or for the uid
/// that it is; its mode and leniency are kept. Lines are loaded in order.
pub proof fn lines_are_loaded_for_their_uid(
    a: Seq<PolicyLine>,
    b: Seq<PolicyLine>,
    p: PolicyLine,
    packages: Seq<(Seq<char>, u32)>,
    uid: u32,
)
    ensures
        loaded_records(a + b, packages) == loaded_records(a, packages) + loaded_records(
            b,
            packages,
        ),
        last_uid(packages, p.package_or_uid) == Some(uid) ==> loaded_records(seq![p], packages)
            == seq![ManagerAppConfigRecord { uid, mode: p.mode, permissive: p.permissive }],
        last_uid(packages, p.package_or_uid) is None && p.package_or_uid == decimal(uid as nat)
            ==> loaded_records(seq![p], packages) == seq![
            ManagerAppConfigRecord { uid, mode: p.mode, permissive: p.permissive },
        ],
    decreases b.len(),
{
    assert(seq![p].drop_last() =~= seq![]);
    assert(loaded_records(seq![], packages) =~= seq![]);
    digits_are_uids(uid);
    let r = ManagerAppConfigRecord { uid, mode: p.mode, permissive: p.permissive };
    assert(Seq::empty().push(r) =~= seq![r]);
    if b.len() == 0 {
        assert(a + b =~= a);
        assert(loaded_records(a, packages) + loaded_records(b, packages) =~= loaded_records(
            a,
            packages,
        ));
    } else {
        assert((a + b).drop_last() =~= a + b.drop_last());
        lines_are_loaded_for_their_uid(a, b.drop_last(), p, packages, uid);
        assert(loaded_records(a + b, packages) =~= loaded_records(a, packages) + loaded_records(
            b,
            packages,
        ));
    }
}

// ---------------------------------------------------------------------------
// Health
// ---------------------------------------------------------------------------

/// The daemon is active exactly where everything is ready, and inactive exactly where neither it
/// nor the manager is; and each thing that is not ready is named.
pub proof fn health_names_what_is_missing(
    manager: bool,
    daemon: bool,
    hook: bool,
    root: bool,
    freezer: bool,
    policy: bool,
)
    ensures
        ({
            let h = evaluated(manager, daemon, hook, root, freezer, policy);
            &&& h.status == HealthStatus::Active <==> manager && daemon && hook && root && freezer
                && policy
            &&& h.status == HealthStatus::Inactive <==> !manager && !daemon
            &&& h.degraded_reasons.contains("daemon not initialized"@) <==> !daemon
            &&& h.degraded_reasons.contains("hook bridge unavailable"@) <==> !hook
            &&& h.degraded_reasons.contains("root capability unavailable"@) <==> !root
            &&& h.degraded_reasons.contains("freezer capability unavailable"@) <==> !freezer
            &&& h.degraded_reasons.contains("policy unavailable"@) <==> !policy
        }),
{
    reveal_strlit("daemon not initialized");
    reveal_strlit("hook bridge unavailable");
    reveal_strlit("root capability unavailable");
    reveal_strlit("freezer capability unavailable");
    reveal_strlit("policy unavailable");
    let h = evaluated(manager, daemon, hook, root, freezer, policy);
    let r = h.degraded_reasons;
    let (a, b, c, d, e) = (
        "daemon not initialized"@,
        "hook bridge unavailable"@,
        "root capability unavailable"@,
        "freezer capability unavailable"@,
        "policy unavailable"@,
    );
    assert(a.len() == 22 && b.len() == 23 && c.len() == 27 && d.len() == 30 && e.len() == 18);
    let n0: int = 0;
    let n1 = n0 + (if daemon { 0int } else { 1int });
    let n2 = n1 + (if hook { 0int } else { 1int });
    let n3 = n2 + (if root { 0int } else { 1int });
    let n4 = n3 + (if freezer { 0int } else { 1int });
    let n5 = n4 + (if policy { 0int } else { 1int });
    assert(r.len() == n5);
    if !daemon {
        assert(r[n0] == a);
    }
    if !hook {
        assert(r[n1] == b);
    }
    if !root {
        assert(r[n2] == c);
    }
    if !freezer {
        assert(r[n3] == d);
    }
    if !policy {
        assert(r[n4] == e);
    }
}

/// The device is one on which control was verified: model, in any case of letters, and level.
pub open spec fn is_verified(r: RuntimeView) -> bool {
    exists|k: int|
        0 <= k < r.verified_targets.len() && lower((#[trigger] r.verified_targets[k]).0) == lower(
            r.device_model,
        ) && r.verified_targets[k].1 == r.sdk
}

/// Control is allowed exactly where the device was verified, its level is thirty-one or more, its
/// kernel is known, root, hook and freezer are ready, and no cgroup freezer is out of order.
pub proof fn control_needs_a_verified_device(r: RuntimeView, capabilities: Seq<CapabilityView>)
    ensures
        r.allows(capabilities) <==> {
            &&& is_verified(r)
            &&& r.sdk >= 31
            &&& trim(r.kernel).len() > 0
            &&& r.root_ready
            &&& r.hook_ready
            &&& r.freezer_ready
            &&& !exists|k: int|
                {
                    &&& 0 <= k < capabilities.len()
                    &&& (#[trigger] capabilities[k]).name == CapabilityName::CgroupV2Freezer
                    &&& capabilities[k].status != CapabilityStatus::Available
                        || capabilities[k].risk_level == RiskLevel::Disabled
                }
        },
{
    assert(r.verified() == is_verified(r)) by {
        if r.verified() {
            let k = choose|k: int|
                0 <= k < r.verified_targets.len() && crate::app::compatibility::is_target_for(
                    #[trigger] r.verified_targets[k],
                    r.device_model,
                    r.sdk,
                );
            assert(lower(r.verified_targets[k].0) == lower(r.device_model));
        }
        if is_verified(r) {
            let k = choose|k: int|
                0 <= k < r.verified_targets.len() && lower((#[trigger] r.verified_targets[k]).0)
                    == lower(r.device_model) && r.verified_targets[k].1 == r.sdk;
            assert(crate::app::compatibility::is_target_for(
                r.verified_targets[k],
                r.device_model,
                r.sdk,
            ));
        }
    }
    let out_of_order = exists|k: int|
        {
            &&& 0 <= k < capabilities.len()
            &&& (#[trigger] capabilities[k]).name == CapabilityName::CgroupV2Freezer
            &&& capabilities[k].status != CapabilityStatus::Available || capabilities[k].risk_level
                == RiskLevel::Disabled
        };
    if out_of_order {
        let k = choose|k: int|
            {
                &&& 0 <= k < capabilities.len()
                &&& (#[trigger] capabilities[k]).name == CapabilityName::CgroupV2Freezer
                &&& capabilities[k].status != CapabilityStatus::Available
                    || capabilities[k].risk_level == RiskLevel::Disabled
            };
        assert(!r.allows(capabilities));
    }
}

/// When the daemon has started, control is allowed exactly where the device allows it with the hook
/// active and the cgroup freezer available.
pub proof fn starting_allows_control_where_the_device_does(paths: DaemonPaths, facts: StartupFacts)
    ensures
        ({
            let s = started(paths, facts);
            let c = capability_views(facts.capabilities@);
            let r = RuntimeView {
                hook_ready: s.hook_health == "active"@,
                freezer_ready: exists|k: int|
                    0 <= k < c.len() && (#[trigger] c[k]).name == CapabilityName::CgroupV2Freezer
                        && c[k].status == CapabilityStatus::Available,
                ..facts.runtime@
            };
            &&& s.control_allowed == r.allows(c)
            &&& s.settings_path == Some(paths.settings_db@)
            &&& s.app_config_path == Some(paths.app_config@)
            &&& s.app_label_path == Some(paths.app_label@)
            &&& s.settings.len() == 256
            &&& !s.hook_config_synced
            &&& s.freeze_status.len() == 0
        }),
{
    let bare = crate::app::controller::startup::bare_state(paths);
    if let Some(p) = facts.module_prop {
        properties_keep_the_rest(bare, lines(p@));
    }
    let s = started(paths, facts);
    let c = capability_views(facts.capabilities@);
    assert(available(c, CapabilityName::CgroupV2Freezer) == exists|k: int|
        0 <= k < c.len() && (#[trigger] c[k]).name == CapabilityName::CgroupV2Freezer
            && c[k].status == CapabilityStatus::Available);
}

proof fn properties_keep_the_rest(s: ManagerView, rows: Seq<Seq<char>>)
    ensures
        ({
            let after = crate::app::controller::startup::with_properties(s, rows);
            after == (ManagerView {
                module_id: after.module_id,
                module_name: after.module_name,
                version: after.version,
                version_code: after.version_code,
                author: after.author,
                ..s
            })
        }),
    decreases rows.len(),
{
    if rows.len() > 0 {
        properties_keep_the_rest(s, rows.drop_last());
    }
}

/// The level of a version of Android.
pub proof fn versions_have_their_level(version: Seq<char>)
    ensures
        trim(version) == "12"@ ==> version_level(version) == Some(31u32),
        trim(version) == "12.1"@ ==> version_level(version) == Some(32u32),
        trim(version) == "13"@ ==> version_level(version) == Some(33u32),
        trim(version) == "14"@ ==> version_level(version) == Some(34u32),
        trim(version) == "15"@ ==> version_level(version) == Some(35u32),
        trim(version) == "16"@ ==> version_level(version) == Some(36u32),
        version_level(version) matches Some(level) ==> 31 <= level <= 36,
{
    reveal_strlit("12");
    reveal_strlit("12.1");
    reveal_strlit("13");
    reveal_strlit("14");
    reveal_strlit("15");
    reveal_strlit("16");
    assert("12"@[1] == '2' && "13"@[1] == '3' && "14"@[1] == '4' && "15"@[1] == '5' && "16"@[1]
        == '6');
    assert("12.1"@.len() == 4 && "12"@.len() == 2);
}

/// A property of the module is taken from the line that gives it; another line changes nothing.
pub proof fn properties_are_taken_from_their_line(s: ManagerView, line: Seq<char>, code: u32)
    ensures
        split_once(line, '=') is None ==> with_property(s, line) == s,
        split_once(line, '=') matches Some((k, v)) ==> {
            &&& trim(k) == "id"@ ==> with_property(s, line) == (ManagerView {
                module_id: trim(v),
                ..s
            })
            &&& trim(k) == "name"@ ==> with_property(s, line) == (ManagerView {
                module_name: trim(v),
                ..s
            })
            &&& trim(k) == "version"@ ==> with_property(s, line) == (ManagerView {
                version: trim(v),
                ..s
            })
            &&& trim(k) == "author"@ ==> with_property(s, line) == (ManagerView {
                author: trim(v),
                ..s
            })
            &&& trim(k) == "versionCode"@ && trim(v) == decimal(code as nat) ==> with_property(
                s,
                line,
            ) == (ManagerView { version_code: code, ..s })
        },
{
    reveal_strlit("id");
    reveal_strlit("name");
    reveal_strlit("version");
    reveal_strlit("versionCode");
    reveal_strlit("author");
    assert("id"@.len() == 2 && "name"@.len() == 4 && "version"@.len() == 7 && "versionCode"@.len()
        == 11 && "author"@.len() == 6);
    unsigned_reads_back(code as nat, u32::MAX as nat);
}

/// A log without the warning about the device is kept line by line.
pub proof fn logs_without_the_warning_are_kept(a: Seq<Seq<char>>, row: Seq<char>)
    requires
        forall|k: int| 0 <= k < a.len() ==> !mentions_rom(#[trigger] a[k]),
        !mentions_rom(row),
    ensures
        kept_lines(a.push(row)).0 == kept_lines(a).0 + row + seq!['\n'],
        !kept_lines(a).1,
        kept_lines(Seq::<Seq<char>>::empty()).0.len() == 0,
    decreases a.len(),
{
    assert(a.push(row).drop_last() =~= a);
    if a.len() > 0 {
        let rest = a.drop_last();
        assert forall|k: int| 0 <= k < rest.len() implies !mentions_rom(#[trigger] rest[k]) by {
            assert(rest[k] == a[k]);
        }
        assert(!mentions_rom(a[a.len() - 1]));
        logs_without_the_warning_are_kept(rest, a.last());
    }
}

/// The warning itself is never kept.
pub proof fn warnings_are_left_out(a: Seq<Seq<char>>, row: Seq<char>)
    requires
        mentions_rom(row),
    ensures
        kept_lines(a.push(row)).0 == kept_lines(a).0,
{
    assert(a.push(row).drop_last() =~= a);
}

// ---------------------------------------------------------------------------
// Commands
// ---------------------------------------------------------------------------

/// A command is done when it has ended and both of its streams are closed; it is stopped when its
/// time is over; until then it is waited for, never longer than fifty milliseconds nor, but for
/// the last one, than the time that is left.
pub proof fn commands_end_in_time(
    run: RunView,
    program: Seq<char>,
    timeout_ms: u64,
    remaining_ns: u128,
)
    ensures
        ({
            let step = next_step(run, program, timeout_ms, remaining_ns);
            let done = run.status is Some && !run.stdout_open && !run.stderr_open;
            &&& step is Finished <==> done
            &&& step is Stop <==> !done && remaining_ns == 0
            &&& step matches RunStepView::Poll(ms) ==> 1 <= ms <= 50 && (ms == 1 || ms * 1_000_000
                <= remaining_ns)
        }),
{
}

/// What a command writes is collected, each stream for itself, up to the limit of both together.
pub proof fn output_is_collected_up_to_the_limit(
    run: RunView,
    program: Seq<char>,
    limit: usize,
    stream: Stream,
    event: StreamEvent,
)
    requires
        run.stdout.len() + run.stderr.len() <= limit,
    ensures
        event matches StreamEvent::Data(bytes) ==> {
            &&& run.stdout.len() + run.stderr.len() + bytes@.len() <= limit ==> (after_stream(
                run,
                program,
                limit,
                stream,
                event,
            ) matches Ok(after) && after.status == run.status && (stream == Stream::Stdout
                ==> after.stdout == run.stdout + bytes@ && after.stderr == run.stderr) && (stream
                == Stream::Stderr ==> after.stderr == run.stderr + bytes@ && after.stdout
                == run.stdout))
            &&& run.stdout.len() + run.stderr.len() + bytes@.len() > limit ==> after_stream(
                run,
                program,
                limit,
                stream,
                event,
            ) is Err
        },
        event is End ==> (after_stream(run, program, limit, stream, event) matches Ok(after)
            && after.stdout == run.stdout && after.stderr == run.stderr && (after.stdout_open
            == (run.stdout_open && stream != Stream::Stdout)) && (after.stderr_open == (
        run.stderr_open && stream != Stream::Stderr))),
{
}

/// A file in the directory of the processors stands for one exactly where its name is `cpu` and
/// digits; and each such name counts.
pub proof fn processors_are_counted(a: Seq<Seq<char>>, b: Seq<Seq<char>>, n: u32, name: Seq<char>)
    ensures
        core_names(a + b) == core_names(a) + core_names(b),
        core_names(seq!["cpu"@ + decimal(n as nat)]) == 1,
        !starts_with(name, "cpu"@) ==> core_names(seq![name]) == 0,
    decreases b.len(),
{
    reveal_strlit("cpu");
    let one = "cpu"@ + decimal(n as nat);
    assert(seq![one].drop_last() =~= seq![]);
    assert(seq![name].drop_last() =~= seq![]);
    assert(core_names(seq![]) == 0);
    assert(one.subrange(0, 3) =~= "cpu"@);
    assert(one.skip(3) =~= decimal(n as nat));
    crate::text::decimal_reads_back(n as nat);
    assert(decimal(n as nat).len() > 0) by {
        reveal_with_fuel(decimal, 2);
    }
    if b.len() == 0 {
        assert(a + b =~= a);
    } else {
        assert((a + b).drop_last() =~= a + b.drop_last());
        processors_are_counted(a, b.drop_last(), n, name);
    }
}

} // verus!
