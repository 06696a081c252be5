//! What the daemon shows to the manager, and its settings.

use std::collections::BTreeMap;
use vstd::prelude::*;

use crate::app::logging::{
    pushed, text_record, LogCategory, LogLevel, LogRecord, ManagerLog, ManagerLogView,
};
use crate::domain::identity::Ident;
use crate::domain::runtime::optional_text;
use crate::protocol::manager_v1::app_config::same_records;
use crate::protocol::manager_v1::persistence::token_views;
use crate::protocol::records::{ManagerAppConfigRecord, ManagerFreezeStatusRecord};
use crate::text::text;

verus! {

broadcast use {vstd::std_specs::btree::group_btree_axioms, vstd::laws_cmp::group_laws_cmp};

/// What the daemon shows to the manager.
#[derive(Debug, Clone, PartialEq, Eq)]
pub struct ReadOnlyState {
    pub module_id: String,
    pub module_name: String,
    pub version: String,
    pub version_code: u32,
    pub author: String,
    pub cluster_num: u32,
    pub manager_log: ManagerLog,
    pub changelog: String,
    pub settings: Vec<u8>,
    pub xp_log: String,
    pub app_config: Vec<ManagerAppConfigRecord>,
    /// A number that changes whenever the settings or the records change.
    pub config_revision: u64,
    /// The token under which the record of each application stands in the file.
    pub app_config_source_tokens: BTreeMap<u32, String>,
    pub freeze_status: Vec<ManagerFreezeStatusRecord>,
    pub module_env: String,
    pub work_mode: String,
    pub android_version: String,
    pub kernel_version: String,
    pub ext_memory_mib: u32,
    pub daemon_health: String,
    pub hook_health: String,
    pub health_report_json: String,
    pub capability_report_json: String,
    pub compatibility_report_json: String,
    pub operation_log_json: String,
    pub self_check_json: String,
    pub control_allowed: bool,
    pub verified_targets: Vec<(String, u32)>,
    pub hook_config_synced: bool,
    pub settings_path: Option<String>,
    pub app_config_path: Option<String>,
    pub app_label_path: Option<String>,
    pub uid_time_path: String,
    pub uid_time_totals: BTreeMap<u32, i32>,
}

/// What the daemon shows to the manager, as a value.
#[verifier::ext_equal]
pub ghost struct ManagerView {
    pub module_id: Seq<char>,
    pub module_name: Seq<char>,
    pub version: Seq<char>,
    pub version_code: u32,
    pub author: Seq<char>,
    pub cluster_num: u32,
    pub manager_log: ManagerLogView,
    pub changelog: Seq<char>,
    pub settings: Seq<u8>,
    pub xp_log: Seq<char>,
    pub app_config: Seq<ManagerAppConfigRecord>,
    pub config_revision: u64,
    pub tokens: Map<u32, Seq<char>>,
    pub freeze_status: Seq<ManagerFreezeStatusRecord>,
    pub module_env: Seq<char>,
    pub work_mode: Seq<char>,
    pub android_version: Seq<char>,
    pub kernel_version: Seq<char>,
    pub ext_memory_mib: u32,
    pub daemon_health: Seq<char>,
    pub hook_health: Seq<char>,
    pub health_report_json: Seq<char>,
    pub capability_report_json: Seq<char>,
    pub compatibility_report_json: Seq<char>,
    pub operation_log_json: Seq<char>,
    pub self_check_json: Seq<char>,
    pub control_allowed: bool,
    pub verified_targets: Seq<Ident>,
    pub hook_config_synced: bool,
    pub settings_path: Option<Seq<char>>,
    pub app_config_path: Option<Seq<char>>,
    pub app_label_path: Option<Seq<char>>,
    pub uid_time_path: Seq<char>,
    pub uid_time_totals: Map<u32, i32>,
}

/// Targets as values.
pub open spec fn target_views(v: Seq<(String, u32)>) -> Seq<Ident> {
    v.map_values(|t: (String, u32)| (t.0@, t.1))
}

impl View for ReadOnlyState {
    type V = ManagerView;

    open spec fn view(&self) -> ManagerView {
        ManagerView {
            module_id: self.module_id@,
            module_name: self.module_name@,
            version: self.version@,
            version_code: self.version_code,
            author: self.author@,
            cluster_num: self.cluster_num,
            manager_log: self.manager_log@,
            changelog: self.changelog@,
            settings: self.settings@,
            xp_log: self.xp_log@,
            app_config: self.app_config@,
            config_revision: self.config_revision,
            tokens: token_views(self.app_config_source_tokens@),
            freeze_status: self.freeze_status@,
            module_env: self.module_env@,
            work_mode: self.work_mode@,
            android_version: self.android_version@,
            kernel_version: self.kernel_version@,
            ext_memory_mib: self.ext_memory_mib,
            daemon_health: self.daemon_health@,
            hook_health: self.hook_health@,
            health_report_json: self.health_report_json@,
            capability_report_json: self.capability_report_json@,
            compatibility_report_json: self.compatibility_report_json@,
            operation_log_json: self.operation_log_json@,
            self_check_json: self.self_check_json@,
            control_allowed: self.control_allowed,
            verified_targets: target_views(self.verified_targets@),
            hook_config_synced: self.hook_config_synced,
            settings_path: optional_text(self.settings_path),
            app_config_path: optional_text(self.app_config_path),
            app_label_path: optional_text(self.app_label_path),
            uid_time_path: self.uid_time_path@,
            uid_time_totals: self.uid_time_totals@,
        }
    }
}

/// The settings of a new installation.
pub open spec fn default_settings() -> Seq<u8> {
    Seq::new(
        256,
        |i: int|
            if i == 0 {
                8u8
            } else if i == 2 {
                10
            } else if i == 3 {
                4
            } else if i == 4 {
                20
            } else if i == 6 {
                2
            } else if i == 10 || i == 13 || i == 16 || i == 17 || i == 19 {
                1
            } else {
                0
            },
    )
}

/// The settings of a new installation.
pub fn legacy_default_settings() -> (r: Vec<u8>)
    ensures
        r@ == default_settings(),
{
    let mut settings: Vec<u8> = Vec::new();
    let mut i: usize = 0;
    while i < 256
        invariant
            i <= 256,
            settings@ == default_settings().take(i as int),
        decreases 256 - i,
    {
        let value: u8 = if i == 0 {
            8
        } else if i == 2 {
            10
        } else if i == 3 {
            4
        } else if i == 4 {
            20
        } else if i == 6 {
            2
        } else if i == 10 || i == 13 || i == 16 || i == 17 || i == 19 {
            1
        } else {
            0
        };
        settings.push(value);
        assert(settings@ =~= default_settings().take(i + 1));
        i += 1;
    }
    assert(settings@ =~= default_settings());
    settings
}

/// Settings in the current form: 256 of them, the first one the version; missing ones have their
/// defaults.
pub open spec fn normal_settings(settings: Option<Seq<u8>>) -> Seq<u8> {
    match settings {
        None => default_settings(),
        Some(s) => Seq::new(
            256,
            |i: int|
                if i == 0 {
                    8u8
                } else if i < s.len() {
                    s[i]
                } else {
                    default_settings()[i]
                },
        ),
    }
}

/// Brings settings into the current form.
pub fn normalize_settings(settings: Option<Vec<u8>>) -> (r: Vec<u8>)
    ensures
        r@ == normal_settings(
            match settings {
                Some(v) => Some(v@),
                None => None,
            },
        ),
{
    let bytes = match settings {
        None => {
            return legacy_default_settings();
        },
        Some(bytes) => bytes,
    };
    let mut out = legacy_default_settings();
    let mut i: usize = 1;
    while i < 256 && i < bytes.len()
        invariant
            1 <= i <= 256,
            out@.len() == 256,
            out@[0] == 8,
            forall|k: int|
                1 <= k < 256 ==> out@[k] == if k < i && k < bytes@.len() {
                    bytes@[k]
                } else {
                    default_settings()[k]
                },
        decreases 256 - i,
    {
        out.set(i, bytes[i]);
        i += 1;
    }
    assert(out@ =~= normal_settings(Some(bytes@)));
    out
}

/// Settings in the current form stay as they are.
pub proof fn normalizing_settles(settings: Option<Seq<u8>>)
    ensures
        normal_settings(Some(normal_settings(settings))) == normal_settings(settings),
{
    assert(normal_settings(Some(normal_settings(settings))) =~= normal_settings(settings));
}

/// Settings with all values and the current version are in the current form.
pub proof fn current_settings_are_normal(settings: Seq<u8>)
    requires
        settings.len() == 256,
        settings[0] == 8,
    ensures
        normal_settings(Some(settings)) == settings,
{
    assert(normal_settings(Some(settings)) =~= settings);
}

/// The state before anything is known of the device.
pub open spec fn unknown_state(log: ManagerLogView) -> ManagerView {
    ManagerView {
        module_id: "freezeit"@,
        module_name: "Freezeit"@,
        version: "0.1.0-rust"@,
        version_code: 1,
        author: "jark006"@,
        cluster_num: 0,
        manager_log: log,
        changelog: seq![],
        settings: default_settings(),
        xp_log: "hook health unknown\n"@,
        app_config: seq![],
        config_revision: 0,
        tokens: Map::empty(),
        freeze_status: seq![],
        module_env: "Magisk"@,
        work_mode: "Rust daemon degraded"@,
        android_version: "Unknown"@,
        kernel_version: "Unknown"@,
        ext_memory_mib: 0,
        daemon_health: "degraded"@,
        hook_health: "unknown"@,
        health_report_json: "{\"status\":\"degraded\"}"@,
        capability_report_json: "{\"capabilities\":[]}"@,
        compatibility_report_json: "{\"capabilities\":[]}"@,
        operation_log_json: "{\"operations\":[]}"@,
        self_check_json: "{\"controlAllowed\":false}"@,
        control_allowed: false,
        verified_targets: seq![],
        hook_config_synced: false,
        settings_path: None,
        app_config_path: None,
        app_label_path: None,
        uid_time_path: "/proc/uid_cputime/show_uid_stat"@,
        uid_time_totals: Map::empty(),
    }
}

/// A log without records.
pub open spec fn empty_log() -> ManagerLogView {
    ManagerLogView {
        capacity: 256,
        records: seq![],
        highest_operation_id: 0,
        cutoff_ms: None,
        version: 0,
    }
}

impl Default for ReadOnlyState {
    fn default() -> (r: Self)
        ensures
            r@ == unknown_state(empty_log()),
    {
        let r = ReadOnlyState {
            module_id: text("freezeit"),
            module_name: text("Freezeit"),
            version: text("0.1.0-rust"),
            version_code: 1,
            author: text("jark006"),
            cluster_num: 0,
            manager_log: ManagerLog::default(),
            changelog: String::new(),
            settings: legacy_default_settings(),
            xp_log: text("hook health unknown\n"),
            app_config: Vec::new(),
            config_revision: 0,
            app_config_source_tokens: BTreeMap::new(),
            freeze_status: Vec::new(),
            module_env: text("Magisk"),
            work_mode: text("Rust daemon degraded"),
            android_version: text("Unknown"),
            kernel_version: text("Unknown"),
            ext_memory_mib: 0,
            daemon_health: text("degraded"),
            hook_health: text("unknown"),
            health_report_json: text("{\"status\":\"degraded\"}"),
            capability_report_json: text("{\"capabilities\":[]}"),
            compatibility_report_json: text("{\"capabilities\":[]}"),
            operation_log_json: text("{\"operations\":[]}"),
            self_check_json: text("{\"controlAllowed\":false}"),
            control_allowed: false,
            verified_targets: Vec::new(),
            hook_config_synced: false,
            settings_path: None,
            app_config_path: None,
            app_label_path: None,
            uid_time_path: text("/proc/uid_cputime/show_uid_stat"),
            uid_time_totals: BTreeMap::new(),
        };
        assert(r@ =~= unknown_state(empty_log()));
        r
    }
}

// ---------------------------------------------------------------------------
// Changes
// ---------------------------------------------------------------------------

/// The state with a message in the plain log.
pub open spec fn noted(s: ManagerView, now_ms: u128, message: Seq<char>) -> ManagerView {
    ManagerView {
        manager_log: pushed(
            s.manager_log,
            text_record(LogLevel::Info, LogCategory::LegacyOperation, now_ms, message),
        ),
        ..s
    }
}

/// Appends a message to the plain log.
pub fn append_legacy_log_message(state: &mut ReadOnlyState, now_ms: u128, message: &str)
    ensures
        final(state)@ == noted(old(state)@, now_ms, message@),
{
    state.manager_log.push(LogRecord::legacy_text(now_ms, message));
}

/// The revision that follows; after the largest comes zero.
pub open spec fn next_revision(revision: u64) -> u64 {
    if revision == u64::MAX {
        0
    } else {
        (revision + 1) as u64
    }
}

/// The state with settings. A change makes a new revision.
pub open spec fn with_settings(s: ManagerView, settings: Seq<u8>) -> ManagerView {
    ManagerView {
        settings,
        config_revision: if s.settings == settings {
            s.config_revision
        } else {
            next_revision(s.config_revision)
        },
        ..s
    }
}

/// The state with records and their tokens. A change makes a new revision.
pub open spec fn with_records(
    s: ManagerView,
    records: Seq<ManagerAppConfigRecord>,
    tokens: Map<u32, Seq<char>>,
) -> ManagerView {
    ManagerView {
        app_config: records,
        tokens,
        config_revision: if s.app_config == records {
            s.config_revision
        } else {
            next_revision(s.config_revision)
        },
        ..s
    }
}

/// Decides equality of bytes.
pub fn same_bytes(a: &[u8], b: &[u8]) -> (r: bool)
    ensures
        r == (a@ == b@),
{
    if a.len() != b.len() {
        return false;
    }
    let mut i: usize = 0;
    while i < a.len()
        invariant
            i <= a@.len(),
            a@.len() == b@.len(),
            forall|k: int| 0 <= k < i ==> a@[k] == b@[k],
        decreases a@.len() - i,
    {
        if a[i] != b[i] {
            return false;
        }
        i += 1;
    }
    assert(a@ =~= b@);
    true
}

fn advance_config_revision(state: &mut ReadOnlyState)
    ensures
        final(state)@ == (ManagerView {
            config_revision: next_revision(old(state)@.config_revision),
            ..old(state)@
        }),
{
    state.config_revision = if state.config_revision == u64::MAX {
        0
    } else {
        state.config_revision + 1
    };
}

/// Puts settings in force.
pub fn commit_settings(state: &mut ReadOnlyState, settings: Vec<u8>)
    ensures
        final(state)@ == with_settings(old(state)@, settings@),
{
    let changed = !same_bytes(state.settings.as_slice(), settings.as_slice());
    state.settings = settings;
    if changed {
        advance_config_revision(state);
    }
}

/// Puts records in force.
pub fn commit_app_config(
    state: &mut ReadOnlyState,
    records: Vec<ManagerAppConfigRecord>,
    source_tokens: BTreeMap<u32, String>,
)
    ensures
        final(state)@ == with_records(old(state)@, records@, token_views(source_tokens@)),
{
    let changed = !same_records(state.app_config.as_slice(), records.as_slice());
    state.app_config = records;
    state.app_config_source_tokens = source_tokens;
    if changed {
        advance_config_revision(state);
    }
}

/// A change of the configuration, and nothing else, changes its revision.
pub proof fn revision_follows_changes(
    s: ManagerView,
    settings: Seq<u8>,
    records: Seq<ManagerAppConfigRecord>,
    tokens: Map<u32, Seq<char>>,
)
    ensures
        with_settings(s, settings).config_revision == s.config_revision <==> settings
            == s.settings,
        with_records(s, records, tokens).config_revision == s.config_revision <==> records
            == s.app_config,
{
}

} // verus!
