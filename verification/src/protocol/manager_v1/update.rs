//! Changes of settings and of application records, with what is written and sent for them.

use std::collections::BTreeMap;
use vstd::prelude::*;
use vstd::string::*;
use vstd::utf8::encode_utf8;

use crate::app::error::{error_text, DaemonError, ErrorView, IoKind};
use crate::config::migration::copy_bytes;
use crate::domain::runtime::{copy_optional, optional_text};
use crate::protocol::manager_v1::app_config::{
    app_config_reads_back, change_rows, config_records, copy_records, decode_app_config,
    encode_app_config, encode_xposed_config_payload, format_config_change_log, hook_payload,
    incomplete_record, merge_app_config_records, merged,
};
use crate::protocol::manager_v1::persistence::{
    plan, plan_app_config_persistence, token_views, AppConfigPlan, PlanView,
};
use crate::protocol::manager_v1::port::{
    follows, hook_at, read_at, remove_at, went_on, write_at, ManagerBackend, ManagerEffect,
};
use crate::protocol::manager_v1::state::{
    append_legacy_log_message, commit_app_config, commit_settings, current_settings_are_normal,
    normal_settings,
    normalize_settings, noted, same_bytes, with_records, with_settings, ManagerView,
    ReadOnlyState,
};
use crate::protocol::records::ManagerAppConfigRecord;
use crate::text::{decimal, join, number, text};

verus! {

// ---------------------------------------------------------------------------
// Settings
// ---------------------------------------------------------------------------

/// Why a setting cannot have a value.
pub open spec fn setting_fault(index: u8, value: u8) -> Option<Seq<char>> {
    let v = decimal(value as nat);
    if index == 2 && !(1 <= value <= 60) {
        Some("超时冻结参数错误, 欲设为:"@ + v)
    } else if index == 3 && value > 5 {
        Some("定时解冻参数错误 欲设为:"@ + v)
    } else if index == 4 && !(3 <= value <= 120) {
        Some("超时杀死参数错误, 欲设为:"@ + v)
    } else if index == 5 && value > 2 {
        Some("冻结模式参数错误, 欲设为:"@ + v)
    } else if index == 6 && value > 3 {
        Some("定时压制参数错误, 欲设为:"@ + v)
    } else if index == 30 && value > 4 {
        Some("日志级别无效, 正常范围:0..4, 欲设为:"@ + v)
    } else if 10 <= index <= 29 && value > 1 {
        Some("开关值错误, 正常范围:0/1, 欲设为:"@ + v)
    } else if 2 <= index <= 6 || 10 <= index <= 30 {
        None
    } else {
        Some("设置项不存在, ["@ + decimal(index as nat) + "]:["@ + v + "]"@)
    }
}

fn with_value(head: &str, value: u8) -> (r: Option<String>)
    ensures
        r matches Some(s) && s@ == head@ + decimal(value as nat),
{
    let mut out = text(head);
    let digits = number(value as u128);
    out.append(digits.as_str());
    Some(out)
}

/// Says why a setting cannot have a value.
pub fn check_setting(index: u8, value: u8) -> (r: Option<String>)
    ensures
        optional_text(r) == setting_fault(index, value),
{
    if index == 2 && !(1 <= value && value <= 60) {
        with_value("超时冻结参数错误, 欲设为:", value)
    } else if index == 3 && value > 5 {
        with_value("定时解冻参数错误 欲设为:", value)
    } else if index == 4 && !(3 <= value && value <= 120) {
        with_value("超时杀死参数错误, 欲设为:", value)
    } else if index == 5 && value > 2 {
        with_value("冻结模式参数错误, 欲设为:", value)
    } else if index == 6 && value > 3 {
        with_value("定时压制参数错误, 欲设为:", value)
    } else if index == 30 && value > 4 {
        with_value("日志级别无效, 正常范围:0..4, 欲设为:", value)
    } else if 10 <= index && index <= 29 && value > 1 {
        with_value("开关值错误, 正常范围:0/1, 欲设为:", value)
    } else if (2 <= index && index <= 6) || (10 <= index && index <= 30) {
        None
    } else {
        let mut out = text("设置项不存在, [");
        let digits = number(index as u128);
        out.append(digits.as_str());
        out.append("]:[");
        let digits = number(value as u128);
        out.append(digits.as_str());
        out.append("]");
        Some(out)
    }
}

/// The settings with a new value.
pub open spec fn changed_settings(settings: Seq<u8>, index: u8, value: u8) -> Seq<u8> {
    (if settings.len() == 256 {
        settings
    } else {
        normal_settings(Some(settings))
    }).update(index as int, value)
}

/// The message about settings that were not written.
pub open spec fn unwritten(index: u8, value: u8, why: Seq<char>) -> Seq<char> {
    "写入设置文件失败, ["@ + decimal(index as nat) + "]:"@ + decimal(value as nat) + ": "@ + why
}

fn unwritten_message(index: u8, value: u8, why: &str) -> (r: String)
    ensures
        r@ == unwritten(index, value, why@),
{
    let mut out = text("写入设置文件失败, [");
    let digits = number(index as u128);
    out.append(digits.as_str());
    out.append("]:");
    let digits = number(value as u128);
    out.append(digits.as_str());
    out.append(": ");
    out.append(why);
    out
}

/// The answer to a new setting and the state after it. The settings are written before they are
/// in force; where the write fails, the file says whether they are.
pub open spec fn settings_update(
    s: ManagerView,
    payload: Seq<u8>,
    full: Seq<ManagerEffect>,
    at: int,
) -> Option<(int, Seq<char>, ManagerView)> {
    if payload.len() != 2 {
        Some((at, "数据长度不正确, 正常:2, 收到:"@ + decimal(payload.len()), s))
    } else {
        let index = payload[0];
        let value = payload[1];
        let unsynced = ManagerView { hook_config_synced: false, ..s };
        match setting_fault(index, value) {
            Some(fault) => Some((at, fault, s)),
            None => match s.settings_path {
                None => Some((at, unwritten(index, value, "persistence path missing"@), unsynced)),
                Some(path) => {
                    let new = changed_settings(s.settings, index, value);
                    match write_at(full, at, path, new) {
                        None => None,
                        Some(Ok(_)) => Some((at + 1, "success"@, with_settings(s, new))),
                        Some(Err(error)) => match read_at(full, at + 1, path) {
                            None => None,
                            Some(found) => Some(
                                (
                                    at + 2,
                                    unwritten(index, value, error_text(error)),
                                    if found == Ok::<Seq<u8>, ErrorView>(new) {
                                        with_settings(unsynced, new)
                                    } else {
                                        unsynced
                                    },
                                ),
                            ),
                        },
                    }
                },
            },
        }
    }
}

/// Whether a file has a content.
fn persisted_bytes_match<B: ManagerBackend>(path: &str, expected: &[u8], port: &mut B) -> (r: bool)
    requires
        old(port).ready(),
    ensures
        went_on(*old(port), *final(port)),
        final(port).trace().len() == old(port).trace().len() + 1,
        read_at(final(port).trace(), old(port).trace().len() as int, path@) is Some,
        forall|full: Seq<ManagerEffect>|
            follows(full, final(port).trace()) ==> #[trigger] read_at(
                full,
                old(port).trace().len() as int,
                path@,
            ) is Some && r == (read_at(full, old(port).trace().len() as int, path@) == Some(
                Ok::<Seq<u8>, ErrorView>(expected@),
            )),
{
    match port.read(path) {
        Ok(found) => same_bytes(found.as_slice(), expected),
        Err(_) => false,
    }
}

/// Changes a setting.
pub fn set_settings_var_with_writer<B: ManagerBackend>(
    state: &mut ReadOnlyState,
    payload: &[u8],
    port: &mut B,
) -> (r: String)
    requires
        old(port).ready(),
    ensures
        went_on(*old(port), *final(port)),
        forall|full: Seq<ManagerEffect>|
            follows(full, final(port).trace()) ==> #[trigger] settings_update(
                old(state)@,
                payload@,
                full,
                old(port).trace().len() as int,
            ) == Some((final(port).trace().len() as int, r@, final(state)@)),
{
    if payload.len() != 2 {
        let mut message = text("数据长度不正确, 正常:2, 收到:");
        let digits = number(payload.len() as u128);
        message.append(digits.as_str());
        return message;
    }
    let index = payload[0];
    let value = payload[1];
    match check_setting(index, value) {
        Some(message) => {
            return message;
        },
        None => {},
    }
    let current = copy_bytes(state.settings.as_slice());
    let mut updated = if current.len() == 256 {
        current
    } else {
        normalize_settings(Some(current))
    };
    updated.set(index as usize, value);
    assert(updated@ == changed_settings(state@.settings, index, value));
    let path = match copy_optional(&state.settings_path) {
        Some(path) => path,
        None => {
            state.hook_config_synced = false;
            return unwritten_message(index, value, "persistence path missing");
        },
    };
    match port.write(path.as_str(), updated.as_slice()) {
        Ok(()) => {
            commit_settings(state, updated);
            text("success")
        },
        Err(error) => {
            let reached = persisted_bytes_match(path.as_str(), updated.as_slice(), port);
            state.hook_config_synced = false;
            if reached {
                commit_settings(state, updated);
            }
            unwritten_message(index, value, error.message())
        },
    }
}

/// A setting that is refused leaves everything as it is.
pub proof fn refused_setting_changes_nothing(
    s: ManagerView,
    index: u8,
    value: u8,
    full: Seq<ManagerEffect>,
    at: int,
)
    requires
        setting_fault(index, value) is Some,
    ensures
        settings_update(s, seq![index, value], full, at) == Some(
            (at, setting_fault(index, value)->0, s),
        ),
{
}

/// A success is answered only after the settings were written, and then they are in force.
pub proof fn success_means_settings_were_written(
    s: ManagerView,
    payload: Seq<u8>,
    full: Seq<ManagerEffect>,
    at: int,
)
    ensures
        match settings_update(s, payload, full, at) {
            Some((_, answer, after)) => answer == "success"@ ==> {
                &&& payload.len() == 2
                &&& setting_fault(payload[0], payload[1]) is None
                &&& after.settings == changed_settings(s.settings, payload[0], payload[1])
                &&& s.settings_path matches Some(path) && write_at(
                    full,
                    at,
                    path,
                    after.settings,
                ) matches Some(Ok(_))
            },
            None => true,
        },
{
    reveal_strlit("success");
    reveal_strlit("数据长度不正确, 正常:2, 收到:");
    reveal_strlit("写入设置文件失败, [");
    reveal_strlit("超时冻结参数错误, 欲设为:");
    reveal_strlit("定时解冻参数错误 欲设为:");
    reveal_strlit("超时杀死参数错误, 欲设为:");
    reveal_strlit("冻结模式参数错误, 欲设为:");
    reveal_strlit("定时压制参数错误, 欲设为:");
    reveal_strlit("日志级别无效, 正常范围:0..4, 欲设为:");
    reveal_strlit("开关值错误, 正常范围:0/1, 欲设为:");
    reveal_strlit("设置项不存在, [");
    if let Some((_, answer, _)) = settings_update(s, payload, full, at) {
        if answer == "success"@ {
            assert(answer[0] == 's');
        }
    }
}

/// Settings that were written are loaded again as they are.
pub proof fn written_settings_are_loaded_again(settings: Seq<u8>, index: u8, value: u8)
    requires
        settings.len() == 256,
        settings[0] == 8,
        setting_fault(index, value) is None,
    ensures
        normal_settings(Some(changed_settings(settings, index, value))) == changed_settings(
            settings,
            index,
            value,
        ),
{
    current_settings_are_normal(changed_settings(settings, index, value));
}

// ---------------------------------------------------------------------------
// Application records
// ---------------------------------------------------------------------------

/// What became of the file.
#[derive(Debug, PartialEq, Eq)]
pub enum AppConfigPersistenceOutcome {
    Durable(BTreeMap<u32, String>),
    CommittedButUnconfirmed(BTreeMap<u32, String>),
}

/// What became of the file, as a value.
#[verifier::ext_equal]
pub ghost enum PersistedView {
    Durable(Map<u32, Seq<char>>),
    CommittedButUnconfirmed(Map<u32, Seq<char>>),
}

/// What became of the file, as a value.
pub open spec fn persisted_view(r: Result<AppConfigPersistenceOutcome, DaemonError>) -> Result<
    PersistedView,
    ErrorView,
> {
    match r {
        Ok(AppConfigPersistenceOutcome::Durable(t)) => Ok(
            PersistedView::Durable(token_views(t@)),
        ),
        Ok(AppConfigPersistenceOutcome::CommittedButUnconfirmed(t)) => Ok(
            PersistedView::CommittedButUnconfirmed(token_views(t@)),
        ),
        Err(e) => Err(e@),
    }
}

/// Writing the records: after a failed write the file says whether it took place.
pub open spec fn persisted(
    s: ManagerView,
    previous: Seq<ManagerAppConfigRecord>,
    records: Seq<ManagerAppConfigRecord>,
    file: Option<Seq<u8>>,
    full: Seq<ManagerEffect>,
    at: int,
) -> Option<(int, Result<PersistedView, ErrorView>)> {
    match s.app_config_path {
        None => Some(
            (at, Err(ErrorView::Config("app config persistence path is not configured"@))),
        ),
        Some(path) => match plan(s.tokens, previous, records, file) {
            PlanView::Refused(error) => Some((at, Err(error))),
            PlanView::Unchanged(tokens) => Some((at, Ok(PersistedView::Durable(tokens)))),
            PlanView::Write(content, tokens) => match write_at(
                full,
                at,
                path,
                encode_utf8(content),
            ) {
                None => None,
                Some(Ok(_)) => Some((at + 1, Ok(PersistedView::Durable(tokens)))),
                Some(Err(error)) => match read_at(full, at + 1, path) {
                    None => None,
                    Some(found) => Some(
                        (
                            at + 2,
                            if found == Ok::<Seq<u8>, ErrorView>(encode_utf8(content)) {
                                Ok(PersistedView::CommittedButUnconfirmed(tokens))
                            } else {
                                Err(error)
                            },
                        ),
                    ),
                },
            },
        },
    }
}

/// Optional bytes as a value.
pub open spec fn optional_bytes(b: Option<&[u8]>) -> Option<Seq<u8>> {
    match b {
        Some(v) => Some(v@),
        None => None,
    }
}

/// Writes records to the file.
pub fn persist_app_config_with_writer<B: ManagerBackend>(
    state: &ReadOnlyState,
    previous_records: &[ManagerAppConfigRecord],
    records: &[ManagerAppConfigRecord],
    previous_file: Option<&[u8]>,
    port: &mut B,
) -> (r: Result<AppConfigPersistenceOutcome, DaemonError>)
    requires
        old(port).ready(),
    ensures
        went_on(*old(port), *final(port)),
        forall|full: Seq<ManagerEffect>|
            follows(full, final(port).trace()) ==> #[trigger] persisted(
                state@,
                previous_records@,
                records@,
                optional_bytes(previous_file),
                full,
                old(port).trace().len() as int,
            ) == Some((final(port).trace().len() as int, persisted_view(r))),
{
    let path = match &state.app_config_path {
        Some(path) => path,
        None => {
            return Err(DaemonError::config("app config persistence path is not configured"));
        },
    };
    match plan_app_config_persistence(
        &state.app_config_source_tokens,
        previous_records,
        records,
        previous_file,
    ) {
        Err(e) => Err(e),
        Ok(AppConfigPlan::Unchanged(tokens)) => Ok(AppConfigPersistenceOutcome::Durable(tokens)),
        Ok(AppConfigPlan::Write(content, tokens)) => {
            match port.write(path.as_str(), content.as_slice()) {
                Ok(()) => Ok(AppConfigPersistenceOutcome::Durable(tokens)),
                Err(error) => {
                    if persisted_bytes_match(path.as_str(), content.as_slice(), port) {
                        Ok(AppConfigPersistenceOutcome::CommittedButUnconfirmed(tokens))
                    } else {
                        Err(error)
                    }
                },
            }
        },
    }
}

/// The content of a file that may be missing.
pub open spec fn existing(found: Result<Seq<u8>, ErrorView>) -> Result<Option<Seq<u8>>, ErrorView> {
    match found {
        Ok(b) => Ok(Some(b)),
        Err(ErrorView::Io(IoKind::NotFound, _)) => Ok(None),
        Err(e) => Err(e),
    }
}

/// The file as it was is restored: written, or removed where there was none.
pub open spec fn restored(
    path: Seq<char>,
    previous: Option<Seq<u8>>,
    full: Seq<ManagerEffect>,
    at: int,
) -> Option<Result<(), ErrorView>> {
    match previous {
        Some(bytes) => write_at(full, at, path, bytes),
        None => match remove_at(full, at, path) {
            Some(Err(ErrorView::Io(IoKind::NotFound, _))) => Some(Ok(())),
            other => other,
        },
    }
}

fn restore_file<B: ManagerBackend>(path: &str, previous: Option<&[u8]>, port: &mut B) -> (r: Result<
    (),
    DaemonError,
>)
    requires
        old(port).ready(),
    ensures
        went_on(*old(port), *final(port)),
        final(port).trace().len() == old(port).trace().len() + 1,
        forall|full: Seq<ManagerEffect>|
            follows(full, final(port).trace()) ==> #[trigger] restored(
                path@,
                optional_bytes(previous),
                full,
                old(port).trace().len() as int,
            ) == Some(
                match r {
                    Ok(()) => Ok::<(), ErrorView>(()),
                    Err(e) => Err(e@),
                },
            ),
{
    match previous {
        Some(bytes) => port.write(path, bytes),
        None => match port.remove(path) {
            Ok(()) => Ok(()),
            Err(DaemonError::Io(failure)) => if failure.kind == IoKind::NotFound {
                Ok(())
            } else {
                Err(DaemonError::Io(failure))
            },
            Err(e) => Err(e),
        },
    }
}

/// What went wrong while the previous state was restored.
pub open spec fn restore_detail(
    disk_error: ErrorView,
    hook_result: Result<bool, ErrorView>,
) -> Seq<char> {
    let head = "disk restore failed: "@ + error_text(disk_error);
    match hook_result {
        Ok(true) => head,
        Ok(false) => head + "; hook restore rejected the previous config"@,
        Err(e) => head + "; hook restore failed: "@ + error_text(e),
    }
}

/// After a refused change the file and the hook get back what they had. The claim that the hook
/// is in step ends before that.
pub open spec fn rolled_back(
    s: ManagerView,
    now_ms: u128,
    path: Seq<char>,
    previous_file: Option<Seq<u8>>,
    previous_payload: Seq<u8>,
    full: Seq<ManagerEffect>,
    at: int,
) -> Option<(int, Result<(), ErrorView>, ManagerView)> {
    let unsynced = ManagerView { hook_config_synced: false, ..s };
    match (restored(path, previous_file, full, at), hook_at(full, at + 1, previous_payload)) {
        (Some(disk), Some(hook)) => match disk {
            Err(e) => Some((at + 2, Err(ErrorView::System(restore_detail(e, hook))), unsynced)),
            Ok(_) => Some(
                (
                    at + 2,
                    Ok(()),
                    if hook == Ok::<bool, ErrorView>(true) {
                        unsynced
                    } else {
                        noted(
                            unsynced,
                            now_ms,
                            "配置回滚：Xposed未确认旧配置，将在后台重试"@,
                        )
                    },
                ),
            ),
        },
        _ => None,
    }
}

fn rollback_failed_app_config_update<B: ManagerBackend>(
    state: &mut ReadOnlyState,
    now_ms: u128,
    path: &str,
    previous_file: Option<&[u8]>,
    previous_xposed_payload: &[u8],
    port: &mut B,
) -> (r: Result<(), DaemonError>)
    requires
        old(port).ready(),
    ensures
        went_on(*old(port), *final(port)),
        forall|full: Seq<ManagerEffect>|
            follows(full, final(port).trace()) ==> #[trigger] rolled_back(
                old(state)@,
                now_ms,
                path@,
                optional_bytes(previous_file),
                previous_xposed_payload@,
                full,
                old(port).trace().len() as int,
            ) == Some(
                (
                    final(port).trace().len() as int,
                    match r {
                        Ok(()) => Ok::<(), ErrorView>(()),
                        Err(e) => Err(e@),
                    },
                    final(state)@,
                ),
            ),
{
    state.hook_config_synced = false;
    let disk_result = restore_file(path, previous_file, port);
    let hook_result = port.hook(previous_xposed_payload);
    match disk_result {
        Err(disk_error) => {
            let mut detail = text("disk restore failed: ");
            detail.append(disk_error.message());
            match hook_result {
                Ok(true) => {},
                Ok(false) => {
                    detail.append("; hook restore rejected the previous config");
                },
                Err(hook_error) => {
                    detail.append("; hook restore failed: ");
                    detail.append(hook_error.message());
                },
            }
            Err(DaemonError::system(detail.as_str()))
        },
        Ok(()) => {
            let confirmed = match hook_result {
                Ok(confirmed) => confirmed,
                Err(_) => false,
            };
            if !confirmed {
                append_legacy_log_message(
                    state,
                    now_ms,
                    "配置回滚：Xposed未确认旧配置，将在后台重试",
                );
            }
            Ok(())
        },
    }
}

/// The state after records came into force and into the hook.
pub open spec fn applied(
    s: ManagerView,
    now_ms: u128,
    records: Seq<ManagerAppConfigRecord>,
    tokens: Map<u32, Seq<char>>,
) -> ManagerView {
    let rows = change_rows(s.app_config, records);
    let told = if rows.len() > 0 {
        noted(s, now_ms, "配置变化：\n\n"@ + join(rows, "\n"@))
    } else {
        s
    };
    ManagerView { hook_config_synced: true, ..with_records(told, records, tokens) }
}

/// After the file has new records, the hook decides whether they come into force.
pub open spec fn hook_decides(
    s: ManagerView,
    now_ms: u128,
    path: Seq<char>,
    file: Option<Seq<u8>>,
    previous_payload: Seq<u8>,
    records: Seq<ManagerAppConfigRecord>,
    tokens: Map<u32, Seq<char>>,
    payload: Seq<u8>,
    full: Seq<ManagerEffect>,
    at: int,
) -> Option<(int, Result<Seq<char>, ErrorView>, ManagerView)> {
    match hook_at(full, at, payload) {
        None => None,
        Some(Ok(true)) => Some((at + 1, Ok("success"@), applied(s, now_ms, records, tokens))),
        Some(reply) => match rolled_back(s, now_ms, path, file, previous_payload, full, at + 1) {
            None => None,
            Some((end, result, after)) => match (reply, result) {
                (Ok(_), Ok(_)) => Some(
                    (
                        end,
                        Ok("failure"@),
                        noted(after, now_ms, "配置更新失败：Xposed拒绝新的应用配置"@),
                    ),
                ),
                (Ok(_), Err(e)) => Some(
                    (
                        end,
                        Err(e),
                        noted(
                            after,
                            now_ms,
                            "配置更新失败，回滚未完成："@ + error_text(e),
                        ),
                    ),
                ),
                (Err(e), Ok(_)) => Some((end, Err(e), after)),
                (Err(e), Err(b)) => Some(
                    (
                        end,
                        Err(
                            ErrorView::System(
                                "xposed config update failed: "@ + error_text(e)
                                    + "; rollback failed: "@ + error_text(b),
                            ),
                        ),
                        after,
                    ),
                ),
            },
        },
    }
}

/// The answer to a request for new records and the state after it: the file is written first,
/// then the hook is told; the records come into force when both have them.
pub open spec fn records_update(
    s: ManagerView,
    payload: Seq<u8>,
    now_ms: u128,
    full: Seq<ManagerEffect>,
    at: int,
) -> Option<(int, Result<Seq<char>, ErrorView>, ManagerView)> {
    let unsynced = ManagerView { hook_config_synced: false, ..s };
    let records = merged(s.app_config, config_records(payload));
    match hook_payload(s.settings, s.app_config) {
        Err(e) => Some((at, Err(e), s)),
        Ok(previous_payload) => if payload.len() % 12 != 0 {
            Some((at, Err(incomplete_record()), s))
        } else {
            match hook_payload(s.settings, records) {
                Err(e) => Some((at, Err(e), s)),
                Ok(new_payload) => match s.app_config_path {
                    None => Some(
                        (at, Err(ErrorView::Config("persistence path is not configured"@)), s),
                    ),
                    Some(path) => match read_at(full, at, path) {
                        None => None,
                        Some(found) => match existing(found) {
                            Err(e) => Some((at + 1, Err(e), s)),
                            Ok(file) => match persisted(
                                s,
                                s.app_config,
                                records,
                                file,
                                full,
                                at + 1,
                            ) {
                                None => None,
                                Some((end, Err(e))) => Some((end, Err(e), unsynced)),
                                Some((end, Ok(PersistedView::CommittedButUnconfirmed(tokens)))) => {
                                    Some(
                                        (
                                            end,
                                            Ok("failure"@),
                                            noted(
                                                ManagerView {
                                                    hook_config_synced: false,
                                                    ..with_records(s, records, tokens)
                                                },
                                                now_ms,
                                                "配置写入未确认完成，但磁盘已更新；Xposed配置将在后台重新同步"@,
                                            ),
                                        ),
                                    )
                                },
                                Some((end, Ok(PersistedView::Durable(tokens)))) => hook_decides(
                                    s,
                                    now_ms,
                                    path,
                                    file,
                                    previous_payload,
                                    records,
                                    tokens,
                                    new_payload,
                                    full,
                                    end,
                                ),
                            },
                        },
                    },
                },
            }
        },
    }
}

/// An answer as a value.
pub open spec fn answer_view(r: Result<String, DaemonError>) -> Result<Seq<char>, ErrorView> {
    match r {
        Ok(s) => Ok(s@),
        Err(e) => Err(e@),
    }
}

fn tell_hook<B: ManagerBackend>(
    state: &mut ReadOnlyState,
    now_ms: u128,
    path: &str,
    file: Option<&[u8]>,
    previous_payload: &[u8],
    records: Vec<ManagerAppConfigRecord>,
    tokens: BTreeMap<u32, String>,
    payload: &[u8],
    port: &mut B,
) -> (r: Result<String, DaemonError>)
    requires
        old(port).ready(),
    ensures
        went_on(*old(port), *final(port)),
        forall|full: Seq<ManagerEffect>|
            follows(full, final(port).trace()) ==> #[trigger] hook_decides(
                old(state)@,
                now_ms,
                path@,
                optional_bytes(file),
                previous_payload@,
                records@,
                token_views(tokens@),
                payload@,
                full,
                old(port).trace().len() as int,
            ) == Some((final(port).trace().len() as int, answer_view(r), final(state)@)),
{
    let ghost s = state@;
    let ghost i0 = port.trace().len() as int;
    match port.hook(payload) {
        Ok(true) => {
            match format_config_change_log(state.app_config.as_slice(), records.as_slice()) {
                Some(message) => {
                    append_legacy_log_message(state, now_ms, message.as_str());
                },
                None => {},
            }
            commit_app_config(state, records, tokens);
            state.hook_config_synced = true;
            Ok(text("success"))
        },
        Ok(false) => {
            let rollback = rollback_failed_app_config_update(
                state,
                now_ms,
                path,
                file,
                previous_payload,
                port,
            );
            proof {
                assert forall|full: Seq<ManagerEffect>|
                    follows(full, port.trace()) implies rolled_back(
                    s,
                    now_ms,
                    path@,
                    optional_bytes(file),
                    previous_payload@,
                    full,
                    i0 + 1,
                ) is Some && hook_at(full, i0, payload@) == Some(Ok::<bool, ErrorView>(false)) by {}
            }
            match rollback {
                Ok(()) => {
                    append_legacy_log_message(
                        state,
                        now_ms,
                        "配置更新失败：Xposed拒绝新的应用配置",
                    );
                    Ok(text("failure"))
                },
                Err(error) => {
                    let mut message = text("配置更新失败，回滚未完成：");
                    message.append(error.message());
                    append_legacy_log_message(state, now_ms, message.as_str());
                    Err(error)
                },
            }
        },
        Err(error) => {
            let rollback = rollback_failed_app_config_update(
                state,
                now_ms,
                path,
                file,
                previous_payload,
                port,
            );
            match rollback {
                Ok(()) => Err(error),
                Err(rollback_error) => {
                    let mut message = text("xposed config update failed: ");
                    message.append(error.message());
                    message.append("; rollback failed: ");
                    message.append(rollback_error.message());
                    Err(DaemonError::system(message.as_str()))
                },
            }
        },
    }
}

/// Changes application records.
pub fn set_app_config_with_persistence_writer<B: ManagerBackend>(
    state: &mut ReadOnlyState,
    payload: &[u8],
    now_ms: u128,
    port: &mut B,
) -> (r: Result<String, DaemonError>)
    requires
        old(port).ready(),
    ensures
        went_on(*old(port), *final(port)),
        forall|full: Seq<ManagerEffect>|
            follows(full, final(port).trace()) ==> #[trigger] records_update(
                old(state)@,
                payload@,
                now_ms,
                full,
                old(port).trace().len() as int,
            ) == Some((final(port).trace().len() as int, answer_view(r), final(state)@)),
{
    let ghost s = state@;
    let ghost i0 = port.trace().len() as int;
    let previous_records = copy_records(state.app_config.as_slice());
    let wire = encode_app_config(previous_records.as_slice());
    proof {
        app_config_reads_back(previous_records@);
    }
    let previous_payload = match encode_xposed_config_payload(
        state.settings.as_slice(),
        wire.as_slice(),
    ) {
        Ok(p) => p,
        Err(e) => {
            return Err(e);
        },
    };
    let requested = match decode_app_config(payload) {
        Ok(v) => v,
        Err(e) => {
            return Err(e);
        },
    };
    let records = merge_app_config_records(previous_records.as_slice(), requested.as_slice());
    let wire = encode_app_config(records.as_slice());
    proof {
        app_config_reads_back(records@);
    }
    let new_payload = match encode_xposed_config_payload(
        state.settings.as_slice(),
        wire.as_slice(),
    ) {
        Ok(p) => p,
        Err(e) => {
            return Err(e);
        },
    };
    let path = match copy_optional(&state.app_config_path) {
        Some(path) => path,
        None => {
            return Err(DaemonError::config("persistence path is not configured"));
        },
    };
    let found = port.read(path.as_str());
    let ghost reply = crate::protocol::manager_v1::port::read_reply(found);
    let file: Option<Vec<u8>> = match found {
        Ok(bytes) => Some(bytes),
        Err(DaemonError::Io(failure)) => if failure.kind == IoKind::NotFound {
            None
        } else {
            return Err(DaemonError::Io(failure));
        },
        Err(e) => {
            return Err(e);
        },
    };
    let file_bytes: Option<&[u8]> = match &file {
        Some(bytes) => Some(bytes.as_slice()),
        None => None,
    };
    assert(existing(reply) == Ok::<Option<Seq<u8>>, ErrorView>(optional_bytes(file_bytes)));
    let ghost i1 = port.trace().len() as int;
    let written = persist_app_config_with_writer(
        state,
        previous_records.as_slice(),
        records.as_slice(),
        file_bytes,
        port,
    );
    let ghost i2 = port.trace().len() as int;
    proof {
        assert forall|full: Seq<ManagerEffect>| #[trigger] follows(full, port.trace()) implies {
            &&& read_at(full, i0, path@) == Some(reply)
            &&& persisted(
                s,
                s.app_config,
                records@,
                optional_bytes(file_bytes),
                full,
                i1,
            ) == Some((i2, persisted_view(written)))
        } by {}
    }
    match written {
        Ok(AppConfigPersistenceOutcome::Durable(tokens)) => tell_hook(
            state,
            now_ms,
            path.as_str(),
            file_bytes,
            previous_payload.as_slice(),
            records,
            tokens,
            new_payload.as_slice(),
            port,
        ),
        Ok(AppConfigPersistenceOutcome::CommittedButUnconfirmed(tokens)) => {
            commit_app_config(state, records, tokens);
            state.hook_config_synced = false;
            append_legacy_log_message(
                state,
                now_ms,
                "配置写入未确认完成，但磁盘已更新；Xposed配置将在后台重新同步",
            );
            Ok(text("failure"))
        },
        Err(error) => {
            state.hook_config_synced = false;
            Err(error)
        },
    }
}

/// A success is answered exactly when the new records are in force and in the hook. After an
/// error the records, their tokens and the revision are what they were, and the hook no longer
/// counts as in step unless nothing was tried.
pub proof fn answer_tells_what_is_in_force(
    s: ManagerView,
    payload: Seq<u8>,
    now_ms: u128,
    full: Seq<ManagerEffect>,
    at: int,
)
    requires
        records_update(s, payload, now_ms, full, at) is Some,
    ensures
        ({
            let (end, answer, after) = records_update(s, payload, now_ms, full, at)->0;
            &&& answer == Ok::<Seq<char>, ErrorView>("success"@) ==> {
                &&& after.app_config == merged(s.app_config, config_records(payload))
                &&& after.hook_config_synced
            }
            &&& answer != Ok::<Seq<char>, ErrorView>("success"@) ==> {
                after.hook_config_synced ==> after == s
            }
            &&& answer is Err ==> {
                &&& after.app_config == s.app_config
                &&& after.tokens == s.tokens
                &&& after.config_revision == s.config_revision
            }
            &&& after.settings == s.settings
        }),
{
    reveal_strlit("success");
    reveal_strlit("failure");
    assert("success"@[0] != "failure"@[0]);
}

/// A change that the hook refuses is undone: the file gets its previous content back, the hook
/// its previous configuration, and the records stay.
pub proof fn refused_change_is_undone(
    s: ManagerView,
    now_ms: u128,
    path: Seq<char>,
    file: Option<Seq<u8>>,
    previous_payload: Seq<u8>,
    records: Seq<ManagerAppConfigRecord>,
    tokens: Map<u32, Seq<char>>,
    payload: Seq<u8>,
    full: Seq<ManagerEffect>,
    at: int,
)
    requires
        hook_at(full, at, payload) is Some,
        hook_at(full, at, payload) != Some(Ok::<bool, ErrorView>(true)),
        hook_decides(
            s,
            now_ms,
            path,
            file,
            previous_payload,
            records,
            tokens,
            payload,
            full,
            at,
        ) is Some,
    ensures
        restored(path, file, full, at + 1) is Some,
        hook_at(full, at + 2, previous_payload) is Some,
        ({
            let (end, answer, after) = hook_decides(
                s,
                now_ms,
                path,
                file,
                previous_payload,
                records,
                tokens,
                payload,
                full,
                at,
            )->0;
            &&& end == at + 3
            &&& after.app_config == s.app_config
            &&& after.tokens == s.tokens
            &&& after.config_revision == s.config_revision
            &&& !after.hook_config_synced
        }),
{
}

} // verus!
