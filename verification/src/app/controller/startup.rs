//! The state with which the daemon starts.

use std::collections::BTreeMap;
use vstd::prelude::*;
use vstd::string::*;

use crate::app::command_runner::CommandOutput;
use crate::app::compatibility::{
    device_report, targets_of, RuntimeEnvironment, RuntimeView, VerifiedTarget,
};
use crate::app::error::{DaemonError, ErrorView};
use crate::app::freezer_backend::{
    decision, BackendEnvironment, FreezeDecision, SystemAwareCgroupBinderBackend,
};
use crate::app::health::{HealthView, ModuleHealth};
use crate::app::logging::{
    operation_record, pushed, text_record, verified_line, LogCategory, LogLevel, LogRecord,
    ManagerLogView, PayloadView, RecordView,
};
use crate::app::operation_log::{operations_json, OperationLog};
use crate::app::package_inventory::{
    find_first_uid, find_last_uid, first_uid, last_uid, mismatch, package_views, reconcile_uid,
    PackageRecord,
};
use crate::config::loader::{DaemonPaths, LoadedPolicyFiles, DEFAULT_MODULE_DIR};
use crate::config::migration::PolicyLine;
use crate::domain::capability::{
    capability_views, CapabilityName, CapabilityStatus, CapabilityView, ControlCapability,
};
use crate::domain::operation::{operation_views, OperationView};
use crate::domain::policy::{FreezePolicy, ManagedApp};
use crate::domain::runtime::{optional_text, process_views, RuntimeProcess};
use crate::protocol::manager_v1::app_config::{
    app_config_reads_back, encode_app_config, encode_xposed_config_payload, hook_payload,
};
use crate::protocol::manager_v1::frame::ManagerCommand;
use crate::protocol::manager_v1::handle::{bytes_view, handle_read_only_command, plain_answer};
use crate::protocol::manager_v1::persistence::{
    file_rows, policy_views, read_policy_rows, replies_of, resolve_token, resolved_uid, resolves,
    source_tokens_from_legacy_config, token_views, tokens_of,
};
use crate::protocol::manager_v1::state::{
    empty_log, normal_settings, normalize_settings, target_views, unknown_state, ManagerView,
    ReadOnlyState,
};
use crate::protocol::manager_v2::{
    capability_report_json, capability_text, check_text, compatibility_report_json,
    health_report_json, health_text, operation_log_json, self_check_json,
};
use crate::protocol::records::ManagerAppConfigRecord;
use crate::protocol::xposed::{
    bridge_error, bridge_health, bridge_label, classify_bridge_error,
    classify_hook_health_payload,
};
use crate::sys::hook::{health_view, send_gives, takes_payload};
use crate::sys::socket::{
    diagnosed, synced_message, told_once, update_diagnostics, write_synced_message,
};
use crate::text::{
    begins, char_is_space, chars_of, contains, copy, decimal, has, is_space, lines, lossy,
    lossy_text, number, only_digits, parse_u32, parse_unsigned, same, split_at_char, split_lines,
    split_once, split_words, starts_with, text, texts, trim, trimmed, words,
};

verus! {

// ---------------------------------------------------------------------------
// The log of earlier runs
// ---------------------------------------------------------------------------

/// A line about a changed system image.
pub open spec fn mentions_rom(line: Seq<char>) -> bool {
    contains(line, "WARNING ROM fingerprint mismatch"@)
}

/// A line that goes on from the one about a changed system image.
pub open spec fn goes_on(line: Seq<char>) -> bool {
    (line.len() > 0 && is_space(line[0])) || starts_with(line, "baseline="@) || starts_with(
        line,
        "device="@,
    )
}

/// The lines that are kept, and whether the last one was about a changed system image.
pub open spec fn kept_lines(rows: Seq<Seq<char>>) -> (Seq<char>, bool)
    decreases rows.len(),
{
    if rows.len() == 0 {
        (seq![], false)
    } else {
        let (done, skipping) = kept_lines(rows.drop_last());
        let line = rows.last();
        if mentions_rom(line) {
            (done, true)
        } else if skipping && goes_on(line) {
            (done, true)
        } else {
            (done + line + seq!['\n'], false)
        }
    }
}

fn continues(line: &str) -> (r: bool)
    ensures
        r == goes_on(line@),
{
    let x = chars_of(line);
    (x.len() > 0 && char_is_space(x[0])) || begins(line, "baseline=") || begins(line, "device=")
}

/// Removes what the log says about a changed system image.
pub fn sanitize_startup_log(log: &str) -> (r: String)
    ensures
        r@ == kept_lines(lines(log@)).0,
{
    let rows = split_lines(log);
    let ghost all = texts(rows@);
    let mut out = String::new();
    let mut skipping = false;
    let mut i: usize = 0;
    assert(out@ =~= kept_lines(all.take(0)).0);
    while i < rows.len()
        invariant
            i <= rows@.len(),
            all == texts(rows@),
            out@ == kept_lines(all.take(i as int)).0,
            skipping == kept_lines(all.take(i as int)).1,
        decreases rows@.len() - i,
    {
        assert(all.take(i + 1).drop_last() =~= all.take(i as int));
        assert(all.take(i + 1).last() == rows@[i as int]@);
        let line = rows[i].as_str();
        if has(line, "WARNING ROM fingerprint mismatch") {
            skipping = true;
        } else if !(skipping && continues(line)) {
            skipping = false;
            let ghost done = out@;
            out.append(line);
            out.push('\n');
            assert(out@ =~= done + line@ + seq!['\n']);
        }
        i += 1;
    }
    assert(all.take(i as int) =~= all);
    out
}

/// The record for a line of an earlier log: as it is where its form is known.
pub open spec fn imported(line: Seq<char>, now_ms: u128) -> RecordView {
    if verified_line(line) {
        RecordView {
            level: LogLevel::Info,
            category: LogCategory::LegacyOperation,
            timestamp_ms: 0,
            payload: PayloadView::VerifiedLegacyLine(line),
        }
    } else {
        text_record(LogLevel::Debug, LogCategory::Diagnostic, now_ms, line)
    }
}

/// The log with the lines of an earlier one that are not blank.
pub open spec fn with_lines(log: ManagerLogView, rows: Seq<Seq<char>>, now_ms: u128) ->
    ManagerLogView
    decreases rows.len(),
{
    if rows.len() == 0 {
        log
    } else {
        let rest = with_lines(log, rows.drop_last(), now_ms);
        if trim(rows.last()).len() == 0 {
            rest
        } else {
            pushed(rest, imported(rows.last(), now_ms))
        }
    }
}

/// Takes the lines of an earlier log into the log.
pub fn import_startup_log(state: &mut ReadOnlyState, log: &str, now_ms: u128)
    ensures
        final(state)@ == (ManagerView {
            manager_log: with_lines(old(state)@.manager_log, lines(log@), now_ms),
            ..old(state)@
        }),
{
    let rows = split_lines(log);
    let ghost all = texts(rows@);
    let ghost start = state@;
    let mut i: usize = 0;
    assert(all.take(0).len() == 0);
    while i < rows.len()
        invariant
            i <= rows@.len(),
            all == texts(rows@),
            state@ == (ManagerView {
                manager_log: with_lines(start.manager_log, all.take(i as int), now_ms),
                ..start
            }),
        decreases rows@.len() - i,
    {
        assert(all.take(i + 1).drop_last() =~= all.take(i as int));
        assert(all.take(i + 1).last() == rows@[i as int]@);
        let line = rows[i].as_str();
        let t = trimmed(line);
        if !t.as_str().is_empty() {
            match LogRecord::verified_legacy_line(line) {
                Some(record) => {
                    state.manager_log.push(record);
                },
                None => {
                    state.manager_log.push(LogRecord::diagnostic(LogLevel::Debug, now_ms, line));
                },
            }
        }
        i += 1;
    }
    assert(all.take(i as int) =~= all);
}

// ---------------------------------------------------------------------------
// Properties
// ---------------------------------------------------------------------------

/// The state after a line of the module's properties.
pub open spec fn with_property(s: ManagerView, line: Seq<char>) -> ManagerView {
    match split_once(line, '=') {
        None => s,
        Some((k, v)) => {
            let key = trim(k);
            let value = trim(v);
            if key == "id"@ {
                ManagerView { module_id: value, ..s }
            } else if key == "name"@ {
                ManagerView { module_name: value, ..s }
            } else if key == "version"@ {
                ManagerView { version: value, ..s }
            } else if key == "versionCode"@ {
                match parse_unsigned(value, u32::MAX as nat) {
                    Some(code) => ManagerView { version_code: code as u32, ..s },
                    None => s,
                }
            } else if key == "author"@ {
                ManagerView { author: value, ..s }
            } else {
                s
            }
        },
    }
}

/// The state after the module's properties.
pub open spec fn with_properties(s: ManagerView, rows: Seq<Seq<char>>) -> ManagerView
    decreases rows.len(),
{
    if rows.len() == 0 {
        s
    } else {
        with_property(with_properties(s, rows.drop_last()), rows.last())
    }
}

/// Takes the module's properties into the state.
pub fn apply_module_prop(state: &mut ReadOnlyState, properties: &str)
    ensures
        final(state)@ == with_properties(old(state)@, lines(properties@)),
{
    let rows = split_lines(properties);
    let ghost all = texts(rows@);
    let ghost start = state@;
    let mut i: usize = 0;
    assert(all.take(0).len() == 0);
    while i < rows.len()
        invariant
            i <= rows@.len(),
            all == texts(rows@),
            state@ == with_properties(start, all.take(i as int)),
        decreases rows@.len() - i,
    {
        assert(all.take(i + 1).drop_last() =~= all.take(i as int));
        assert(all.take(i + 1).last() == rows@[i as int]@);
        match split_at_char(rows[i].as_str(), '=') {
            Some((key, value)) => {
                let key = trimmed(key.as_str());
                let value = trimmed(value.as_str());
                let k = key.as_str();
                if same(k, "id") {
                    state.module_id = value;
                } else if same(k, "name") {
                    state.module_name = value;
                } else if same(k, "version") {
                    state.version = value;
                } else if same(k, "versionCode") {
                    match parse_u32(value.as_str()) {
                        Some(code) => {
                            state.version_code = code;
                        },
                        None => {},
                    }
                } else if same(k, "author") {
                    state.author = value;
                }
            },
            None => {},
        }
        i += 1;
    }
    assert(all.take(i as int) =~= all);
}

// ---------------------------------------------------------------------------
// Records
// ---------------------------------------------------------------------------

/// The record on a line: the application is the installed package with that name, else the uid
/// that the token is.
pub open spec fn loaded_record(p: PolicyLine, packages: Seq<(Seq<char>, u32)>) -> Option<
    ManagerAppConfigRecord,
> {
    match resolved_uid(p.package_or_uid, last_uid(packages, p.package_or_uid)) {
        Some(uid) => Some(
            ManagerAppConfigRecord { uid, mode: p.mode, permissive: p.permissive },
        ),
        None => None,
    }
}

/// The records on lines.
pub open spec fn loaded_records(rows: Seq<PolicyLine>, packages: Seq<(Seq<char>, u32)>) -> Seq<
    ManagerAppConfigRecord,
>
    decreases rows.len(),
{
    if rows.len() == 0 {
        seq![]
    } else {
        let rest = loaded_records(rows.drop_last(), packages);
        match loaded_record(rows.last(), packages) {
            Some(r) => rest.push(r),
            None => rest,
        }
    }
}

/// Reads the records of the configuration file.
pub fn load_manager_app_config_records(
    app_config: Option<&str>,
    package_records: &[PackageRecord],
) -> (r: Vec<ManagerAppConfigRecord>)
    ensures
        r@ == loaded_records(file_rows(app_config), package_views(package_records@)),
{
    let ghost packages = package_views(package_records@);
    let mut out: Vec<ManagerAppConfigRecord> = Vec::new();
    match app_config {
        None => {},
        Some(s) => {
            let rows = read_policy_rows(s);
            let ghost all = policy_views(rows@);
            let mut i: usize = 0;
            assert(out@ =~= loaded_records(all.take(0), packages));
            while i < rows.len()
                invariant
                    i <= rows@.len(),
                    all == policy_views(rows@),
                    packages == package_views(package_records@),
                    out@ == loaded_records(all.take(i as int), packages),
                decreases rows@.len() - i,
            {
                assert(all.take(i + 1).drop_last() =~= all.take(i as int));
                assert(all.take(i + 1).last() == rows@[i as int]@);
                let token = rows[i].package_or_uid.as_str();
                match resolve_token(token, find_last_uid(package_records, token)) {
                    Some(uid) => {
                        out.push(
                            ManagerAppConfigRecord {
                                uid,
                                mode: rows[i].mode,
                                permissive: rows[i].permissive,
                            },
                        );
                    },
                    None => {},
                }
                i += 1;
            }
            assert(all.take(i as int) =~= all);
        },
    }
    assert(app_config is None ==> out@ =~= loaded_records(file_rows(app_config), packages));
    out
}

/// What the installed packages say of the tokens on lines.
pub open spec fn package_replies(rows: Seq<PolicyLine>, packages: Seq<(Seq<char>, u32)>) -> Seq<
    Option<u32>,
> {
    rows.map_values(|p: PolicyLine| first_uid(packages, p.package_or_uid))
}

/// Notes the token of each application in the configuration file.
pub fn source_tokens_of_packages(
    app_config: Option<&str>,
    package_records: &[PackageRecord],
) -> (r: BTreeMap<u32, String>)
    ensures
        token_views(r@) == tokens_of(
            file_rows(app_config),
            package_replies(file_rows(app_config), package_views(package_records@)),
        ),
{
    let ghost packages = package_views(package_records@);
    let ghost rows = file_rows(app_config);
    let resolve = |name: &str| -> (r: Option<u32>)
        ensures
            r == first_uid(package_views(package_records@), name@),
        { find_first_uid(package_records, name) };
    let ghost f = resolve;
    let out = source_tokens_from_legacy_config(app_config, resolve);
    proof {
        let replies = choose|replies: Seq<Option<u32>>| #[trigger]
            replies_of(f, rows, replies) && token_views(out@) == tokens_of(rows, replies);
        assert forall|i: int| 0 <= i < rows.len() implies replies[i] == package_replies(
            rows,
            packages,
        )[i] by {
            assert(resolves(f, rows[i].package_or_uid, replies[i]));
        }
        assert(replies =~= package_replies(rows, packages));
    }
    out
}

// ---------------------------------------------------------------------------
// The device
// ---------------------------------------------------------------------------

/// The names of processors among file names.
pub open spec fn core_names(names: Seq<Seq<char>>) -> nat
    decreases names.len(),
{
    if names.len() == 0 {
        0
    } else {
        let rest = core_names(names.drop_last());
        if is_core_name(names.last()) {
            rest + 1
        } else {
            rest
        }
    }
}

/// The name of a processor: `cpu` and a number.
pub open spec fn is_core_name(name: Seq<char>) -> bool {
    match crate::text::strip_prefix(name, "cpu"@) {
        Some(rest) => rest.len() > 0 && crate::text::all_digits(rest),
        None => false,
    }
}

fn names_core(name: &str) -> (r: bool)
    ensures
        r == is_core_name(name@),
{
    proof {
        reveal_strlit("");
        assert(forall|t: Seq<char>| #![trigger t.len()] t.len() == 0 ==> t =~= ""@);
    }
    match crate::text::after_prefix(name, "cpu") {
        None => false,
        Some(rest) => !same(rest.as_str(), "") && only_digits(rest.as_str()),
    }
}

/// The number of processors, at least one, from the names of their files.
pub fn cpu_core_count(names: &[String]) -> (r: u32)
    requires
        names@.len() <= u32::MAX,
    ensures
        r == if core_names(texts(names@)) == 0 {
            1
        } else {
            core_names(texts(names@))
        },
{
    let ghost all = texts(names@);
    let mut count: u32 = 0;
    let mut i: usize = 0;
    while i < names.len()
        invariant
            i <= names@.len(),
            names@.len() <= u32::MAX,
            all == texts(names@),
            count == core_names(all.take(i as int)),
            count <= i,
        decreases names@.len() - i,
    {
        assert(all.take(i + 1).drop_last() =~= all.take(i as int));
        assert(all.take(i + 1).last() == names@[i as int]@);
        if names_core(names[i].as_str()) {
            count += 1;
        }
        i += 1;
    }
    assert(all.take(i as int) =~= all);
    if count == 0 {
        1
    } else {
        count
    }
}

/// The size of the swap in mebibytes, from the first line that tells it.
pub open spec fn swap_mib(rows: Seq<Seq<char>>) -> u32
    decreases rows.len(),
{
    if rows.len() == 0 {
        0
    } else {
        let parts = words(rows[0]);
        if parts.len() >= 2 && parts[0] == "SwapTotal:"@ {
            match parse_unsigned(parts[1], u32::MAX as nat) {
                Some(kib) => (kib / 1024) as u32,
                None => swap_mib(rows.skip(1)),
            }
        } else {
            swap_mib(rows.skip(1))
        }
    }
}

/// Reads the size of the swap in mebibytes.
pub fn ext_memory_mib(meminfo: &str) -> (r: u32)
    ensures
        r == swap_mib(lines(meminfo@)),
{
    let rows = split_lines(meminfo);
    let ghost all = texts(rows@);
    let mut i: usize = 0;
    assert(all.skip(0) =~= all);
    while i < rows.len()
        invariant
            i <= rows@.len(),
            all == texts(rows@),
            all == lines(meminfo@),
            swap_mib(all) == swap_mib(all.skip(i as int)),
        decreases rows@.len() - i,
    {
        assert(all.skip(i as int)[0] == rows@[i as int]@);
        assert(all.skip(i as int).skip(1) =~= all.skip(i + 1));
        let parts = split_words(rows[i].as_str());
        assert(texts(parts@).len() == parts@.len());
        if parts.len() >= 2 {
            assert(texts(parts@)[0] == parts@[0]@);
            assert(texts(parts@)[1] == parts@[1]@);
            if same(parts[0].as_str(), "SwapTotal:") {
                match parse_u32(parts[1].as_str()) {
                    Some(kib) => {
                        return kib / 1024;
                    },
                    None => {},
                }
            }
        }
        i += 1;
    }
    0
}

/// The kernel release in the kernel's version text: its third word.
pub fn kernel_release(version: &str) -> (r: Option<String>)
    ensures
        optional_text(r) == if words(version@).len() > 2 {
            Some(words(version@)[2])
        } else {
            None
        },
{
    let parts = split_words(version);
    assert(texts(parts@).len() == parts@.len());
    if parts.len() > 2 {
        assert(texts(parts@)[2] == parts@[2]@);
        Some(copy(parts[2].as_str()))
    } else {
        None
    }
}

/// Whether a capability is available.
pub open spec fn available(capabilities: Seq<CapabilityView>, name: CapabilityName) -> bool {
    exists|i: int|
        0 <= i < capabilities.len() && (#[trigger] capabilities[i]).name == name
            && capabilities[i].status == CapabilityStatus::Available
}

/// Whether a capability is available.
pub fn has_capability(capabilities: &[ControlCapability], name: CapabilityName) -> (r: bool)
    ensures
        r == available(capability_views(capabilities@), name),
{
    let ghost all = capability_views(capabilities@);
    let mut i: usize = 0;
    while i < capabilities.len()
        invariant
            i <= capabilities@.len(),
            all == capability_views(capabilities@),
            forall|k: int|
                0 <= k < i ==> !((#[trigger] all[k]).name == name && all[k].status
                    == CapabilityStatus::Available),
        decreases capabilities@.len() - i,
    {
        let c = &capabilities[i];
        assert(all[i as int] == c@);
        if c.name == name && c.status == CapabilityStatus::Available {
            return true;
        }
        i += 1;
    }
    false
}

/// The trimmed output of a command that succeeded.
pub open spec fn output_text(output: Option<CommandOutput>) -> Option<Seq<char>> {
    match output {
        Some(o) => if o.status.success {
            Some(trim(lossy_text(o.stdout@)))
        } else {
            None
        },
        None => None,
    }
}

/// The trimmed output of a command that succeeded.
pub fn command_output(output: &Option<CommandOutput>) -> (r: Option<String>)
    ensures
        optional_text(r) == output_text(*output),
{
    match output {
        Some(o) => if o.status.success {
            let stdout = lossy(o.stdout.as_slice());
            Some(trimmed(stdout.as_str()))
        } else {
            None
        },
        None => None,
    }
}

/// The outputs of the commands that describe the device; none where a command did not run.
#[derive(Debug)]
pub struct DeviceOutputs {
    pub model: Option<CommandOutput>,
    pub android_version: Option<CommandOutput>,
    pub sdk: Option<CommandOutput>,
    pub fingerprint: Option<CommandOutput>,
    pub kernel: Option<CommandOutput>,
}

/// A text, unless there is none or it is empty.
pub open spec fn unless_empty(s: Option<Seq<char>>, other: Seq<char>) -> Seq<char> {
    match s {
        Some(t) => if t.len() > 0 {
            t
        } else {
            other
        },
        None => other,
    }
}

fn or_other(s: Option<String>, other: &str) -> (r: String)
    ensures
        r@ == unless_empty(optional_text(s), other@),
{
    match s {
        Some(t) => if t.as_str().is_empty() {
            copy(other)
        } else {
            t
        },
        None => copy(other),
    }
}

/// The kernel release: as the command tells it, else as the version text does, else the machine.
pub open spec fn kernel_text(
    output: Option<Seq<char>>,
    version: Option<Seq<char>>,
    machine: Seq<char>,
) -> Seq<char> {
    let release = match version {
        Some(v) => if words(v).len() > 2 {
            words(v)[2]
        } else {
            machine
        },
        None => machine,
    };
    unless_empty(output, release)
}

/// Decides the kernel release.
pub fn detect_kernel_version(output: Option<String>, version: &Option<String>, machine: &str) -> (r:
    String)
    ensures
        r@ == kernel_text(optional_text(output), optional_text(*version), machine@),
{
    let release = match version {
        Some(v) => match kernel_release(v.as_str()) {
            Some(release) => release,
            None => copy(machine),
        },
        None => copy(machine),
    };
    or_other(output, release.as_str())
}

/// What is known of the device from its commands.
pub open spec fn detected(
    outputs: DeviceOutputs,
    version: Option<Seq<char>>,
    system: Seq<char>,
    machine: Seq<char>,
    root: bool,
) -> RuntimeView {
    RuntimeView {
        device_model: match output_text(outputs.model) {
            Some(m) => m,
            None => "unknown"@,
        },
        android_version: unless_empty(output_text(outputs.android_version), system),
        sdk: match output_text(outputs.sdk) {
            Some(s) => match parse_unsigned(s, u32::MAX as nat) {
                Some(n) => n as u32,
                None => 0,
            },
            None => 0,
        },
        fingerprint: match output_text(outputs.fingerprint) {
            Some(f) => f,
            None => seq![],
        },
        kernel: kernel_text(output_text(outputs.kernel), version, machine),
        root_ready: root,
        hook_ready: false,
        freezer_ready: false,
        verified_targets: seq![],
    }
}

/// Decides what is known of the device from its commands.
pub fn detect_runtime_environment(
    outputs: &DeviceOutputs,
    kernel_version: &Option<String>,
    system: &str,
    machine: &str,
    root: bool,
) -> (r: RuntimeEnvironment)
    ensures
        r@ == detected(*outputs, optional_text(*kernel_version), system@, machine@, root),
{
    let model = match command_output(&outputs.model) {
        Some(m) => m,
        None => text("unknown"),
    };
    let android_version = or_other(command_output(&outputs.android_version), system);
    let sdk: u32 = match command_output(&outputs.sdk) {
        Some(s) => match parse_u32(s.as_str()) {
            Some(n) => n,
            None => 0,
        },
        None => 0,
    };
    let fingerprint = match command_output(&outputs.fingerprint) {
        Some(f) => f,
        None => String::new(),
    };
    let kernel = detect_kernel_version(command_output(&outputs.kernel), kernel_version, machine);
    let r = RuntimeEnvironment::new(
        model.as_str(),
        android_version.as_str(),
        sdk,
        fingerprint.as_str(),
        kernel.as_str(),
        root,
        false,
        false,
    );
    assert(r@ =~= detected(*outputs, optional_text(*kernel_version), system@, machine@, root));
    r
}

// ---------------------------------------------------------------------------
// The state
// ---------------------------------------------------------------------------

/// What was read of the device and its files at the start.
#[derive(Debug)]
pub struct StartupFacts {
    pub module_prop: Option<String>,
    pub changelog: Option<String>,
    pub log: Option<String>,
    pub policy: LoadedPolicyFiles,
    pub packages: Vec<PackageRecord>,
    pub runtime: RuntimeEnvironment,
    pub cluster_num: u32,
    pub ext_memory_mib: u32,
    pub capabilities: Vec<ControlCapability>,
    pub hook_health: Result<String, DaemonError>,
    pub now_ms: u128,
}

/// The message that the daemon runs.
pub open spec fn running_message(s: ManagerView) -> Seq<char> {
    "daemon active: apps="@ + decimal(s.app_config.len()) + " settings="@ + decimal(
        s.settings.len(),
    ) + " android="@ + s.android_version + " kernel="@ + s.kernel_version
}

/// Notes in the log that the daemon runs.
pub fn append_daemon_status_log(state: &mut ReadOnlyState, now_ms: u128)
    ensures
        final(state)@ == told_once(
            old(state)@,
            text_record(
                LogLevel::Debug,
                LogCategory::Diagnostic,
                now_ms,
                running_message(old(state)@),
            ),
        ),
{
    let mut message = text("daemon active: apps=");
    let part = number(state.app_config.len() as u128);
    message.append(part.as_str());
    message.append(" settings=");
    let part = number(state.settings.len() as u128);
    message.append(part.as_str());
    message.append(" android=");
    message.append(state.android_version.as_str());
    message.append(" kernel=");
    message.append(state.kernel_version.as_str());
    state.manager_log.push_once(
        LogRecord::diagnostic(LogLevel::Debug, now_ms, message.as_str()),
    );
}

/// The state before anything is read, with the paths of its files.
pub open spec fn bare_state(paths: DaemonPaths) -> ManagerView {
    ManagerView {
        settings_path: Some(paths.settings_db@),
        app_config_path: Some(paths.app_config@),
        app_label_path: Some(paths.app_label@),
        ..unknown_state(empty_log())
    }
}

/// The state with what the module's files say.
pub open spec fn with_files(s: ManagerView, facts: StartupFacts) -> ManagerView {
    let a = match facts.module_prop {
        Some(p) => with_properties(s, lines(p@)),
        None => s,
    };
    let b = ManagerView {
        changelog: match facts.changelog {
            Some(c) => c@,
            None => seq![],
        },
        ..a
    };
    match facts.log {
        Some(log) => ManagerView {
            manager_log: with_lines(
                b.manager_log,
                lines(kept_lines(lines(log@)).0),
                facts.now_ms,
            ),
            ..b
        },
        None => b,
    }
}

/// An optional text as a borrowed one.
pub open spec fn borrowed(s: Option<String>) -> Seq<PolicyLine> {
    match s {
        Some(t) => crate::protocol::manager_v1::persistence::policy_rows(lines(t@)),
        None => seq![],
    }
}

/// The state with the policy.
pub open spec fn with_policy(s: ManagerView, facts: StartupFacts) -> ManagerView {
    let packages = package_views(facts.packages@);
    let rows = borrowed(facts.policy.app_config);
    ManagerView {
        settings: normal_settings(
            match facts.policy.settings {
                Some(v) => Some(v@),
                None => None,
            },
        ),
        app_config: loaded_records(rows, packages),
        tokens: tokens_of(rows, package_replies(rows, packages)),
        ..s
    }
}

/// The state with what is known of the device.
pub open spec fn with_device(s: ManagerView, facts: StartupFacts) -> ManagerView {
    let b = ManagerView {
        verified_targets: facts.runtime@.verified_targets,
        android_version: facts.runtime@.android_version,
        kernel_version: facts.runtime@.kernel,
        cluster_num: facts.cluster_num,
        ext_memory_mib: facts.ext_memory_mib,
        work_mode: "FreezerV2 / Rust daemon"@,
        daemon_health: "active"@,
        ..s
    };
    told_once(
        b,
        text_record(
            LogLevel::Debug,
            LogCategory::Diagnostic,
            facts.now_ms,
            running_message(b),
        ),
    )
}

/// The state with what the hook reports.
pub open spec fn with_hook(s: ManagerView, health: Result<Seq<char>, ErrorView>) -> ManagerView {
    match health {
        Ok(payload) => ManagerView {
            hook_health: bridge_label(bridge_health(payload)),
            xp_log: payload,
            ..s
        },
        Err(e) => {
            let label = bridge_label(bridge_error(crate::app::error::error_text(e)));
            ManagerView { hook_health: label, xp_log: "hook bridge "@ + label, ..s }
        },
    }
}

/// The device with what the capabilities and the hook show.
pub open spec fn ready_runtime(s: ManagerView, facts: StartupFacts) -> RuntimeView {
    RuntimeView {
        freezer_ready: available(
            capability_views(facts.capabilities@),
            CapabilityName::CgroupV2Freezer,
        ),
        hook_ready: s.hook_health == "active"@,
        ..facts.runtime@
    }
}

/// The state with which the daemon starts.
pub open spec fn started(paths: DaemonPaths, facts: StartupFacts) -> ManagerView {
    let s = with_hook(
        ManagerView {
            capability_report_json: capability_text(capability_views(facts.capabilities@)),
            ..with_device(with_policy(with_files(bare_state(paths), facts), facts), facts)
        },
        health_view(facts.hook_health),
    );
    diagnosed(
        s,
        ready_runtime(s, facts),
        capability_views(facts.capabilities@),
        facts.policy.app_config is Some || facts.policy.app_label is Some
            || facts.policy.settings is Some,
    )
}

fn targets_for_state(runtime: &RuntimeEnvironment) -> (r: Vec<(String, u32)>)
    ensures
        target_views(r@) == runtime@.verified_targets,
{
    let ghost all = runtime@.verified_targets;
    let mut out: Vec<(String, u32)> = Vec::new();
    let mut i: usize = 0;
    while i < runtime.verified_targets.len()
        invariant
            i <= runtime.verified_targets@.len(),
            all == runtime@.verified_targets,
            target_views(out@) == all.take(i as int),
        decreases runtime.verified_targets@.len() - i,
    {
        let t = &runtime.verified_targets[i];
        let ghost before = target_views(out@);
        let pair = (copy(t.device_model.as_str()), t.sdk);
        out.push(pair);
        assert(target_views(out@) =~= before.push((pair.0@, pair.1)));
        assert(all[i as int] == t@);
        assert(all.take(i + 1) =~= all.take(i as int).push(all[i as int]));
        i += 1;
    }
    assert(all.take(i as int) =~= all);
    out
}

/// The state with which the daemon starts, from what was read of the device and its files.
pub fn startup_read_only_state_from_paths(paths: &DaemonPaths, facts: StartupFacts) -> (r:
    ReadOnlyState)
    ensures
        r@ == started(*paths, facts),
{
    let ghost given = facts;
    let mut state = ReadOnlyState::default();
    state.settings_path = Some(copy(paths.settings_db.as_str()));
    state.app_config_path = Some(copy(paths.app_config.as_str()));
    state.app_label_path = Some(copy(paths.app_label.as_str()));
    assert(state@ =~= bare_state(*paths));
    match &facts.module_prop {
        Some(properties) => {
            apply_module_prop(&mut state, properties.as_str());
        },
        None => {},
    }
    state.changelog = match facts.changelog {
        Some(changelog) => changelog,
        None => String::new(),
    };
    match &facts.log {
        Some(log) => {
            let kept = sanitize_startup_log(log.as_str());
            import_startup_log(&mut state, kept.as_str(), facts.now_ms);
        },
        None => {},
    }
    assert(state@ =~= with_files(bare_state(*paths), given));
    let policy_ready = facts.policy.is_available();
    let policy = facts.policy;
    state.settings = normalize_settings(policy.settings);
    let app_config: Option<&str> = match &policy.app_config {
        Some(s) => Some(s.as_str()),
        None => None,
    };
    assert(file_rows(app_config) == borrowed(given.policy.app_config));
    state.app_config = load_manager_app_config_records(app_config, facts.packages.as_slice());
    state.app_config_source_tokens =
    source_tokens_of_packages(app_config, facts.packages.as_slice());
    assert(state@ =~= with_policy(with_files(bare_state(*paths), given), given));
    let mut runtime = facts.runtime;
    state.verified_targets = targets_for_state(&runtime);
    state.android_version = copy(runtime.android_version.as_str());
    state.kernel_version = copy(runtime.kernel.as_str());
    state.cluster_num = facts.cluster_num;
    state.ext_memory_mib = facts.ext_memory_mib;
    state.work_mode = text("FreezerV2 / Rust daemon");
    state.daemon_health = text("active");
    append_daemon_status_log(&mut state, facts.now_ms);
    assert(state@ =~= with_device(
        with_policy(with_files(bare_state(*paths), given), given),
        given,
    ));
    runtime.freezer_ready =
    has_capability(facts.capabilities.as_slice(), CapabilityName::CgroupV2Freezer);
    state.capability_report_json = capability_report_json(facts.capabilities.as_slice());
    match facts.hook_health {
        Ok(payload) => {
            let status = classify_hook_health_payload(payload.as_str());
            state.hook_health = text(status.health_label());
            state.xp_log = payload;
        },
        Err(error) => {
            let status = classify_bridge_error(&error);
            state.hook_health = text(status.health_label());
            let mut log = text("hook bridge ");
            log.append(status.health_label());
            state.xp_log = log;
        },
    }
    runtime.hook_ready = same(state.hook_health.as_str(), "active");
    assert(runtime@ =~= ready_runtime(state@, given));
    update_diagnostics(&mut state, &runtime, facts.capabilities.as_slice(), policy_ready);
    state
}

/// The state with which the daemon starts in the default directory.
pub fn startup_read_only_state(facts: StartupFacts) -> (r: ReadOnlyState)
    ensures
        exists|paths: DaemonPaths|
            #![trigger started(paths, facts)]
            paths.settings_db@ == DEFAULT_MODULE_DIR@ + "/settings.db"@ && paths.app_config@
                == DEFAULT_MODULE_DIR@ + "/appcfg.txt"@ && paths.app_label@ == DEFAULT_MODULE_DIR@
                + "/applabel.txt"@ && r@ == started(paths, facts),
{
    let paths = DaemonPaths::from_module_dir(DEFAULT_MODULE_DIR);
    let ghost given = facts;
    let r = startup_read_only_state_from_paths(&paths, facts);
    assert(r@ == started(paths, given));
    r
}

/// The device with the targets and the hook that the state knows.
pub open spec fn known_runtime(
    s: ManagerView,
    runtime: RuntimeView,
    capabilities: Seq<CapabilityView>,
) -> RuntimeView {
    RuntimeView {
        verified_targets: s.verified_targets,
        hook_ready: s.hook_health == "active"@,
        freezer_ready: available(capabilities, CapabilityName::CgroupV2Freezer),
        ..runtime
    }
}

/// Looks at the device again: the reports and the permission follow what it shows now.
pub fn refresh_runtime_diagnostics(
    state: &mut ReadOnlyState,
    runtime: RuntimeEnvironment,
    capabilities: &[ControlCapability],
    policy_ready: bool,
)
    ensures
        final(state)@ == diagnosed(
            ManagerView {
                capability_report_json: capability_text(capability_views(capabilities@)),
                ..old(state)@
            },
            known_runtime(old(state)@, runtime@, capability_views(capabilities@)),
            capability_views(capabilities@),
            policy_ready,
        ),
{
    let ghost all = state@.verified_targets;
    let ghost given = runtime@;
    let mut targets: Vec<VerifiedTarget> = Vec::new();
    let mut i: usize = 0;
    while i < state.verified_targets.len()
        invariant
            i <= state.verified_targets@.len(),
            all == target_views(state.verified_targets@),
            targets_of(targets@) == all.take(i as int),
        decreases state.verified_targets@.len() - i,
    {
        let pair = &state.verified_targets[i];
        let target = VerifiedTarget::new(pair.0.as_str(), pair.1);
        let ghost before = targets_of(targets@);
        targets.push(target);
        assert(targets_of(targets@) =~= before.push(target@));
        assert(all[i as int] == (pair.0@, pair.1));
        assert(all.take(i + 1) =~= all.take(i as int).push(all[i as int]));
        i += 1;
    }
    assert(all.take(i as int) =~= all);
    let mut runtime = runtime.with_verified_targets(targets);
    runtime.hook_ready = same(state.hook_health.as_str(), "active");
    runtime.freezer_ready = has_capability(capabilities, CapabilityName::CgroupV2Freezer);
    assert(runtime@ =~= known_runtime(state@, given, capability_views(capabilities@)));
    state.capability_report_json = capability_report_json(capabilities);
    update_diagnostics(state, &runtime, capabilities, policy_ready);
}

/// The state after the configuration was sent at the start.
pub open spec fn after_first_sync(s: ManagerView, synced: bool, now_ms: u128) -> ManagerView {
    told_once(
        ManagerView { hook_config_synced: synced, ..s },
        if synced {
            text_record(LogLevel::Debug, LogCategory::Diagnostic, now_ms, synced_message(s))
        } else {
            text_record(
                LogLevel::Warn,
                LogCategory::Fault,
                now_ms,
                "hook config sync rejected"@,
            )
        },
    )
}

/// Sends the configuration to the hook, once, where it can be encoded. Nothing else is sent.
pub fn sync_loaded_config_to_hook<F: FnOnce(&[u8]) -> Result<bool, DaemonError>>(
    state: &mut ReadOnlyState,
    set_app_config: F,
    now_ms: u128,
) -> (r: Result<bool, DaemonError>)
    requires
        hook_payload(old(state)@.settings, old(state)@.app_config) matches Ok(payload)
            ==> takes_payload(set_app_config, payload),
    ensures
        match hook_payload(old(state)@.settings, old(state)@.app_config) {
            Err(error) => r matches Err(e) && e@ == error && final(state)@ == old(state)@,
            Ok(payload) => {
                &&& send_gives(set_app_config, payload, crate::app::error::outcome(r))
                &&& match r {
                    Ok(synced) => final(state)@ == after_first_sync(old(state)@, synced, now_ms),
                    Err(_) => final(state)@ == old(state)@,
                }
            },
        },
{
    let wire = encode_app_config(state.app_config.as_slice());
    proof {
        app_config_reads_back(state.app_config@);
    }
    let payload = match encode_xposed_config_payload(state.settings.as_slice(), wire.as_slice()) {
        Ok(p) => p,
        Err(e) => {
            return Err(e);
        },
    };
    let ghost send = set_app_config;
    let reply = set_app_config(payload.as_slice());
    assert(send_gives(send, payload@, crate::app::error::outcome(reply)));
    match reply {
        Err(e) => Err(e),
        Ok(synced) => {
            let message = write_synced_message(state);
            state.hook_config_synced = synced;
            if synced {
                state.manager_log.push_once(
                    LogRecord::diagnostic(LogLevel::Debug, now_ms, message.as_str()),
                );
            } else {
                state.manager_log.push_once(
                    LogRecord::fault(LogLevel::Warn, now_ms, "hook config sync rejected"),
                );
            }
            Ok(synced)
        },
    }
}

/// Answers a command that changes nothing.
pub fn handle_manager_read_only(command: ManagerCommand, state: &ReadOnlyState) -> (r: Result<
    Vec<u8>,
    DaemonError,
>)
    ensures
        bytes_view(r) == plain_answer(command, state@),
{
    handle_read_only_command(command, state)
}

/// What is known of the daemon for reports.
#[derive(Debug)]
pub struct DiagnosticState {
    pub health: ModuleHealth,
    pub capabilities: Vec<ControlCapability>,
    pub operation_log: OperationLog,
}

/// The log with operations.
pub open spec fn with_operations(log: ManagerLogView, operations: Seq<OperationView>) ->
    ManagerLogView
    decreases operations.len(),
{
    if operations.len() == 0 {
        log
    } else {
        pushed(
            with_operations(log, operations.drop_last()),
            operation_record(operations.last()),
        )
    }
}

/// Puts operations into the log.
pub fn push_operations(
    state: &mut ReadOnlyState,
    operations: &[crate::domain::operation::ControlOperation],
)
    ensures
        final(state)@ == (ManagerView {
            manager_log: with_operations(old(state)@.manager_log, operation_views(operations@)),
            ..old(state)@
        }),
{
    let ghost start = state@;
    let ghost all = operation_views(operations@);
    let mut i: usize = 0;
    assert(all.take(0).len() == 0);
    while i < operations.len()
        invariant
            i <= operations@.len(),
            all == operation_views(operations@),
            state@ == (ManagerView {
                manager_log: with_operations(start.manager_log, all.take(i as int)),
                ..start
            }),
        decreases operations@.len() - i,
    {
        assert(all.take(i + 1).drop_last() =~= all.take(i as int));
        assert(all.take(i + 1).last() == operations@[i as int]@);
        state.manager_log.push(LogRecord::operation(operations[i].clone()));
        i += 1;
    }
    assert(all.take(i as int) =~= all);
}

/// A device of which nothing is known.
pub open spec fn unknown_runtime() -> RuntimeView {
    RuntimeView {
        device_model: "unknown"@,
        android_version: "unknown"@,
        sdk: 0,
        fingerprint: ""@,
        kernel: "unknown"@,
        root_ready: false,
        hook_ready: false,
        freezer_ready: false,
        verified_targets: seq![],
    }
}

/// The state that shows reports. Without a device control is never allowed.
pub open spec fn reporting_state(
    health: HealthView,
    capabilities: Seq<CapabilityView>,
    operations: Seq<OperationView>,
) -> ManagerView {
    ManagerView {
        health_report_json: health_text(health),
        capability_report_json: capability_text(capabilities),
        compatibility_report_json: device_report(unknown_runtime(), capabilities),
        operation_log_json: operations_json(operations),
        manager_log: with_operations(empty_log(), operations),
        self_check_json: check_text(health, capabilities, false),
        ..unknown_state(empty_log())
    }
}

/// The state that shows reports.
pub fn read_only_state_with_diagnostics(diagnostics: &DiagnosticState) -> (r: ReadOnlyState)
    ensures
        r@ == reporting_state(
            diagnostics.health@,
            capability_views(diagnostics.capabilities@),
            diagnostics.operation_log@.records,
        ),
{
    let mut state = ReadOnlyState::default();
    let capabilities = diagnostics.capabilities.as_slice();
    let runtime = RuntimeEnvironment::new(
        "unknown",
        "unknown",
        0,
        "",
        "unknown",
        false,
        false,
        false,
    );
    assert(runtime@ =~= unknown_runtime());
    state.health_report_json = health_report_json(&diagnostics.health);
    state.capability_report_json = capability_report_json(capabilities);
    state.compatibility_report_json = compatibility_report_json(&runtime, capabilities);
    state.operation_log_json = operation_log_json(&diagnostics.operation_log);
    push_operations(&mut state, diagnostics.operation_log.records());
    state.self_check_json = self_check_json(&diagnostics.health, capabilities);
    state
}

/// Decides what to do with the processes of an application on a device that offers nothing.
pub fn decide_freeze(app: &ManagedApp, policy: &FreezePolicy, processes: &[RuntimeProcess]) -> (r:
    FreezeDecision)
    ensures
        r@ == decision(
            app@,
            policy@,
            process_views(processes@),
            (BackendEnvironment {
                cgroup_available: false,
                binder_available: false,
                network_available: false,
                wakelock_available: false,
                screen_state_available: false,
                hook_fresh: false,
            }),
        ),
{
    let environment = BackendEnvironment {
        cgroup_available: false,
        binder_available: false,
        network_available: false,
        wakelock_available: false,
        screen_state_available: false,
        hook_fresh: false,
    };
    SystemAwareCgroupBinderBackend::new(environment).can_freeze(app, policy, processes)
}

/// Decides what to do with the processes of an application, if it still is the installed package.
pub fn decide_freeze_after_reconciliation(
    app: &ManagedApp,
    current_package: &PackageRecord,
    policy: &FreezePolicy,
    processes: &[RuntimeProcess],
) -> (r: Result<FreezeDecision, DaemonError>)
    ensures
        match mismatch(app@, current_package@) {
            Some(why) => r matches Err(e) && e@ == ErrorView::System(why),
            None => r matches Ok(d) && d@ == decision(
                app@,
                policy@,
                process_views(processes@),
                (BackendEnvironment {
                    cgroup_available: false,
                    binder_available: false,
                    network_available: false,
                    wakelock_available: false,
                    screen_state_available: false,
                    hook_fresh: false,
                }),
            ),
        },
{
    match reconcile_uid(app, current_package) {
        Err(why) => Err(DaemonError::system(why.as_str())),
        Ok(()) => Ok(decide_freeze(app, policy, processes)),
    }
}

// ---------------------------------------------------------------------------
// Reading the policy again
// ---------------------------------------------------------------------------

/// Any of the policy files exists.
pub open spec fn any_file(f: LoadedPolicyFiles) -> bool {
    f.app_config is Some || f.app_label is Some || f.settings is Some
}

/// At least one attempt.
pub open spec fn at_least_one(attempts: usize) -> int {
    if attempts == 0 {
        1
    } else {
        attempts as int
    }
}

/// Readings of the policy: a failure ends them, and so does one with a file; else the last one
/// counts.
pub open spec fn reading_ends(
    readings: Seq<Result<LoadedPolicyFiles, DaemonError>>,
    attempts: int,
) -> bool {
    &&& 1 <= readings.len() <= attempts
    &&& forall|i: int|
        0 <= i < readings.len() - 1 ==> ((#[trigger] readings[i]) matches Ok(f) && !any_file(f))
    &&& readings.len() < attempts ==> (readings.last() is Err || (readings.last() matches Ok(f)
        && any_file(f)))
}

/// Reads the policy until a file exists, at most some times, at least once.
pub fn load_policy_with_retries<F: FnMut() -> Result<LoadedPolicyFiles, DaemonError>>(
    load: F,
    attempts: usize,
) -> (r: Result<LoadedPolicyFiles, DaemonError>)
    requires
        call_requires(load, ()),
    ensures
        exists|readings: Seq<Result<LoadedPolicyFiles, DaemonError>>| #[trigger]
            reading_ends(readings, at_least_one(attempts)) && readings.last() == r && forall|i: int|
                0 <= i < readings.len() ==> call_ensures(load, (), #[trigger] readings[i]),
{
    let ghost f = load;
    let mut again = load;
    let limit: usize = if attempts == 0 { 1 } else { attempts };
    let ghost mut readings: Seq<Result<LoadedPolicyFiles, DaemonError>> = seq![];
    let mut left: usize = limit;
    loop
        invariant
            1 <= left <= limit,
            limit == at_least_one(attempts),
            again == f,
            f == load,
            call_requires(again, ()),
            readings.len() == limit - left,
            forall|i: int|
                0 <= i < readings.len() ==> ((#[trigger] readings[i]) matches Ok(f) && !any_file(
                    f,
                )),
            forall|i: int| 0 <= i < readings.len() ==> call_ensures(f, (), #[trigger] readings[i]),
        decreases left,
    {
        let loaded = again();
        proof {
            readings = readings.push(loaded);
        }
        left -= 1;
        let settled = match &loaded {
            Err(_) => true,
            Ok(files) => files.is_available(),
        };
        if settled || left == 0 {
            assert(reading_ends(readings, limit as int));
            assert(readings.last() == loaded);
            return loaded;
        }
    }
}

} // verus!
