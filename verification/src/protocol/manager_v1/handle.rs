//! Answers to the manager's commands.

use vstd::prelude::*;
use vstd::string::*;
use vstd::utf8::{decode_utf8, encode_utf8, valid_utf8};

use crate::app::error::{DaemonError, ErrorView};
use crate::app::logging::{
    cleared_log, decode_log_view, rendered, selected_view, LogView, LOG_LEVEL_SETTING_INDEX,
};
use crate::config::migration::copy_bytes;
use crate::protocol::bytes::{le_bytes, push_u32, to_unsigned, unsigned};
use crate::protocol::manager_v1::app_config::{
    config_bytes, encode_app_config_for_manager, shown_records, switch,
};
use crate::protocol::manager_v1::chart::{
    encode_realtime_info_with_sample, live_view, realtime_request_validation_response,
    request_fault,
};
use crate::protocol::manager_v1::frame::{ManagerCommand, ManagerFrame};
use crate::protocol::manager_v1::labels::{
    decode_app_label_payload, format_label_update_log, label_message, labels_of,
};
use crate::protocol::manager_v1::port::{
    follows, read_at, sample_at, went_on, write_at, ManagerBackend, ManagerEffect,
};
use crate::protocol::manager_v1::realtime::{sampled, RealtimeSampler, SamplerView};
use crate::protocol::manager_v1::state::{
    append_legacy_log_message, noted, ManagerView, ReadOnlyState,
};
use crate::protocol::manager_v1::uid_time::{encode_uid_time, uid_time_answer};
use crate::protocol::manager_v1::update::{
    answer_view, records_update, set_app_config_with_persistence_writer,
    set_settings_var_with_writer, settings_update,
};
use crate::protocol::records::ManagerFreezeStatusRecord;
use crate::domain::runtime::copy_optional;
use crate::text::{
    bytes_of, copy, decimal, join, join_strings, lines, lossy_text, number, read_utf8, same,
    signed_decimal, signed_number, text, texts,
};

verus! {

/// The name of a command.
pub open spec fn command_name(c: ManagerCommand) -> Seq<char> {
    match c {
        ManagerCommand::GetPropInfo => "GetPropInfo"@,
        ManagerCommand::GetChangelog => "GetChangelog"@,
        ManagerCommand::GetLog => "GetLog"@,
        ManagerCommand::GetAppCfg => "GetAppCfg"@,
        ManagerCommand::GetRealTimeInfo => "GetRealTimeInfo"@,
        ManagerCommand::GetSettings => "GetSettings"@,
        ManagerCommand::GetUidTime => "GetUidTime"@,
        ManagerCommand::GetXpLog => "GetXpLog"@,
        ManagerCommand::GetFreezeStatus => "GetFreezeStatus"@,
        ManagerCommand::SetAppCfg => "SetAppCfg"@,
        ManagerCommand::SetAppLabel => "SetAppLabel"@,
        ManagerCommand::SetSettingsVar => "SetSettingsVar"@,
        ManagerCommand::ClearLog => "ClearLog"@,
        ManagerCommand::GetProcState => "GetProcState"@,
        ManagerCommand::GetHealthReport => "GetHealthReport"@,
        ManagerCommand::GetCapabilityReport => "GetCapabilityReport"@,
        ManagerCommand::GetCompatibilityBaseline => "GetCompatibilityBaseline"@,
        ManagerCommand::GetOperationLogJson => "GetOperationLogJson"@,
        ManagerCommand::RunSelfCheck => "RunSelfCheck"@,
    }
}

fn name_of_command(c: ManagerCommand) -> (r: &'static str)
    ensures
        r@ == command_name(c),
{
    match c {
        ManagerCommand::GetPropInfo => "GetPropInfo",
        ManagerCommand::GetChangelog => "GetChangelog",
        ManagerCommand::GetLog => "GetLog",
        ManagerCommand::GetAppCfg => "GetAppCfg",
        ManagerCommand::GetRealTimeInfo => "GetRealTimeInfo",
        ManagerCommand::GetSettings => "GetSettings",
        ManagerCommand::GetUidTime => "GetUidTime",
        ManagerCommand::GetXpLog => "GetXpLog",
        ManagerCommand::GetFreezeStatus => "GetFreezeStatus",
        ManagerCommand::SetAppCfg => "SetAppCfg",
        ManagerCommand::SetAppLabel => "SetAppLabel",
        ManagerCommand::SetSettingsVar => "SetSettingsVar",
        ManagerCommand::ClearLog => "ClearLog",
        ManagerCommand::GetProcState => "GetProcState",
        ManagerCommand::GetHealthReport => "GetHealthReport",
        ManagerCommand::GetCapabilityReport => "GetCapabilityReport",
        ManagerCommand::GetCompatibilityBaseline => "GetCompatibilityBaseline",
        ManagerCommand::GetOperationLogJson => "GetOperationLogJson",
        ManagerCommand::RunSelfCheck => "RunSelfCheck",
    }
}

/// The properties of the module, one on a line.
pub open spec fn properties(s: ManagerView) -> Seq<char> {
    join(
        seq![
            s.module_id,
            s.module_name,
            s.version,
            decimal(s.version_code as nat),
            s.author,
            decimal(s.cluster_num as nat),
            s.module_env,
            s.work_mode,
            s.android_version,
            s.kernel_version,
            decimal(s.ext_memory_mib as nat),
            s.daemon_health,
            s.hook_health,
        ],
        "\n"@,
    )
}

fn write_properties(state: &ReadOnlyState) -> (r: String)
    ensures
        r@ == properties(state@),
{
    let mut parts: Vec<String> = Vec::new();
    parts.push(copy(state.module_id.as_str()));
    parts.push(copy(state.module_name.as_str()));
    parts.push(copy(state.version.as_str()));
    parts.push(number(state.version_code as u128));
    parts.push(copy(state.author.as_str()));
    parts.push(number(state.cluster_num as u128));
    parts.push(copy(state.module_env.as_str()));
    parts.push(copy(state.work_mode.as_str()));
    parts.push(copy(state.android_version.as_str()));
    parts.push(copy(state.kernel_version.as_str()));
    parts.push(number(state.ext_memory_mib as u128));
    parts.push(copy(state.daemon_health.as_str()));
    parts.push(copy(state.hook_health.as_str()));
    let ghost s = state@;
    assert(texts(parts@) =~= seq![
        s.module_id,
        s.module_name,
        s.version,
        decimal(s.version_code as nat),
        s.author,
        decimal(s.cluster_num as nat),
        s.module_env,
        s.work_mode,
        s.android_version,
        s.kernel_version,
        decimal(s.ext_memory_mib as nat),
        s.daemon_health,
        s.hook_health,
    ]);
    join_strings(parts.as_slice(), "\n")
}

/// The view of the log that the settings select.
pub open spec fn log_view(settings: Seq<u8>) -> LogView {
    selected_view(
        if settings.len() > LOG_LEVEL_SETTING_INDEX {
            settings[LOG_LEVEL_SETTING_INDEX as int]
        } else {
            0
        },
    )
}

/// The answer to a command that changes nothing.
pub open spec fn plain_answer(c: ManagerCommand, s: ManagerView) -> Result<Seq<u8>, ErrorView> {
    match c {
        ManagerCommand::GetPropInfo => Ok(encode_utf8(properties(s))),
        ManagerCommand::GetChangelog => Ok(encode_utf8(s.changelog)),
        ManagerCommand::GetLog => Ok(
            encode_utf8(rendered(s.manager_log.records, log_view(s.settings))),
        ),
        ManagerCommand::GetSettings => Ok(s.settings),
        ManagerCommand::GetXpLog => Ok(encode_utf8(s.xp_log)),
        ManagerCommand::GetAppCfg => Ok(config_bytes(shown_records(s.app_config))),
        ManagerCommand::GetUidTime => Ok(seq![]),
        ManagerCommand::SetAppCfg | ManagerCommand::SetAppLabel | ManagerCommand::SetSettingsVar => {
            Err(ErrorView::Protocol("write command requires mutable manager state"@))
        },
        ManagerCommand::GetHealthReport => Ok(encode_utf8(s.health_report_json)),
        ManagerCommand::GetCapabilityReport => Ok(encode_utf8(s.capability_report_json)),
        ManagerCommand::GetCompatibilityBaseline => Ok(encode_utf8(s.compatibility_report_json)),
        ManagerCommand::GetOperationLogJson => Ok(encode_utf8(s.operation_log_json)),
        ManagerCommand::RunSelfCheck => Ok(encode_utf8(s.self_check_json)),
        _ => Err(
            ErrorView::Protocol(
                "manager command "@ + command_name(c)
                    + " is not implemented in the compatibility handler"@,
            ),
        ),
    }
}

/// An answer as a value.
pub open spec fn bytes_view(r: Result<Vec<u8>, DaemonError>) -> Result<Seq<u8>, ErrorView> {
    match r {
        Ok(b) => Ok(b@),
        Err(e) => Err(e@),
    }
}

/// Answers a command that changes nothing.
pub fn handle_read_only_command(command: ManagerCommand, state: &ReadOnlyState) -> (r: Result<
    Vec<u8>,
    DaemonError,
>)
    ensures
        bytes_view(r) == plain_answer(command, state@),
{
    match command {
        ManagerCommand::GetPropInfo => {
            let s = write_properties(state);
            Ok(bytes_of(s.as_str()))
        },
        ManagerCommand::GetChangelog => Ok(bytes_of(state.changelog.as_str())),
        ManagerCommand::GetLog => {
            let raw: u8 = if state.settings.len() > LOG_LEVEL_SETTING_INDEX {
                state.settings[LOG_LEVEL_SETTING_INDEX]
            } else {
                0
            };
            let (view, _unknown) = decode_log_view(raw);
            let s = state.manager_log.render(view);
            Ok(bytes_of(s.as_str()))
        },
        ManagerCommand::GetSettings => Ok(copy_bytes(state.settings.as_slice())),
        ManagerCommand::GetXpLog => Ok(bytes_of(state.xp_log.as_str())),
        ManagerCommand::GetAppCfg => Ok(encode_app_config_for_manager(state.app_config.as_slice())),
        ManagerCommand::GetUidTime => Ok(Vec::new()),
        ManagerCommand::SetAppCfg
        | ManagerCommand::SetAppLabel
        | ManagerCommand::SetSettingsVar => Err(
            DaemonError::protocol("write command requires mutable manager state"),
        ),
        ManagerCommand::GetHealthReport => Ok(bytes_of(state.health_report_json.as_str())),
        ManagerCommand::GetCapabilityReport => Ok(bytes_of(state.capability_report_json.as_str())),
        ManagerCommand::GetCompatibilityBaseline => Ok(
            bytes_of(state.compatibility_report_json.as_str()),
        ),
        ManagerCommand::GetOperationLogJson => Ok(bytes_of(state.operation_log_json.as_str())),
        ManagerCommand::RunSelfCheck => Ok(bytes_of(state.self_check_json.as_str())),
        ManagerCommand::GetRealTimeInfo
        | ManagerCommand::GetFreezeStatus
        | ManagerCommand::ClearLog
        | ManagerCommand::GetProcState => {
            let mut message = text("manager command ");
            message.append(name_of_command(command));
            message.append(" is not implemented in the compatibility handler");
            Err(DaemonError::protocol(message.as_str()))
        },
    }
}

// ---------------------------------------------------------------------------
// The freeze status
// ---------------------------------------------------------------------------

/// A number that is not negative.
pub open spec fn at_least_zero(n: i32) -> i32 {
    if n < 0 {
        0
    } else {
        n
    }
}

fn floor_zero(n: i32) -> (r: i32)
    ensures
        r == at_least_zero(n),
{
    if n < 0 {
        0
    } else {
        n
    }
}

/// The bytes of a freeze status.
pub open spec fn status_row(r: ManagerFreezeStatusRecord) -> Seq<u8> {
    le_bytes(r.uid) + le_bytes(switch(r.foreground)) + le_bytes(unsigned(r.state)) + le_bytes(
        unsigned(at_least_zero(r.seconds)),
    ) + le_bytes(unsigned(at_least_zero(r.process_count)))
}

/// The bytes of freeze statuses.
pub open spec fn status_bytes(records: Seq<ManagerFreezeStatusRecord>) -> Seq<u8>
    decreases records.len(),
{
    if records.len() == 0 {
        seq![]
    } else {
        status_bytes(records.drop_last()) + status_row(records.last())
    }
}

/// Writes freeze statuses.
pub fn encode_freeze_status(records: &[ManagerFreezeStatusRecord]) -> (r: Vec<u8>)
    ensures
        r@ == status_bytes(records@),
{
    let mut out: Vec<u8> = Vec::new();
    let mut i: usize = 0;
    assert(out@ =~= status_bytes(records@.take(0)));
    while i < records.len()
        invariant
            i <= records@.len(),
            out@ == status_bytes(records@.take(i as int)),
        decreases records@.len() - i,
    {
        let ghost done = out@;
        assert(records@.take(i + 1).drop_last() =~= records@.take(i as int));
        let r = records[i];
        push_u32(&mut out, r.uid);
        push_u32(&mut out, if r.foreground { 1 } else { 0 });
        push_u32(&mut out, to_unsigned(r.state));
        push_u32(&mut out, to_unsigned(floor_zero(r.seconds)));
        push_u32(&mut out, to_unsigned(floor_zero(r.process_count)));
        assert(out@ =~= done + status_row(r));
        i += 1;
    }
    assert(records@.take(i as int) =~= records@);
    out
}

/// The name of a freeze state.
pub open spec fn status_name(state: i32) -> Seq<char> {
    if state == 0 {
        "后台运行"@
    } else if state == 1 {
        "前台"@
    } else if state == 2 {
        "等待冻结"@
    } else if state == 3 {
        "已冻结"@
    } else {
        "未知"@
    }
}

/// The name of a freeze state.
pub fn legacy_freeze_status_name(state: i32) -> (r: &'static str)
    ensures
        r@ == status_name(state),
{
    if state == 0 {
        "后台运行"
    } else if state == 1 {
        "前台"
    } else if state == 2 {
        "等待冻结"
    } else if state == 3 {
        "已冻结"
    } else {
        "未知"
    }
}

/// A freeze status as text.
pub open spec fn status_text(r: ManagerFreezeStatusRecord) -> Seq<char> {
    decimal(r.uid as nat) + " | "@ + (if r.foreground {
        "前台"@
    } else {
        "后台"@
    }) + " | "@ + status_name(r.state) + " | "@ + signed_decimal(at_least_zero(r.seconds) as int)
        + " | "@ + signed_decimal(at_least_zero(r.process_count) as int)
}

/// The message about the state of the processes.
pub open spec fn status_message(records: Seq<ManagerFreezeStatusRecord>) -> Seq<char> {
    if records.len() == 0 {
        "进程冻结状态:\n\n PID | MiB |  状 态  | 进 程\n后台很干净，一个黑名单应用都没有"@
    } else {
        "进程冻结状态:\n\n UID | 前台 | 状态 | 秒 | 进程\n"@ + join(
            records.map_values(|r: ManagerFreezeStatusRecord| status_text(r)),
            "\n"@,
        )
    }
}

fn write_status_message(records: &[ManagerFreezeStatusRecord]) -> (r: String)
    ensures
        r@ == status_message(records@),
{
    if records.len() == 0 {
        return text(
            "进程冻结状态:\n\n PID | MiB |  状 态  | 进 程\n后台很干净，一个黑名单应用都没有",
        );
    }
    let ghost all = records@.map_values(|r: ManagerFreezeStatusRecord| status_text(r));
    let mut rows: Vec<String> = Vec::new();
    let mut i: usize = 0;
    while i < records.len()
        invariant
            i <= records@.len(),
            all == records@.map_values(|r: ManagerFreezeStatusRecord| status_text(r)),
            texts(rows@) == all.take(i as int),
        decreases records@.len() - i,
    {
        let r = records[i];
        let mut row = number(r.uid as u128);
        row.append(" | ");
        row.append(
            if r.foreground {
                "前台"
            } else {
                "后台"
            },
        );
        row.append(" | ");
        row.append(legacy_freeze_status_name(r.state));
        row.append(" | ");
        let seconds = signed_number(floor_zero(r.seconds) as i64);
        row.append(seconds.as_str());
        row.append(" | ");
        let count = signed_number(floor_zero(r.process_count) as i64);
        row.append(count.as_str());
        assert(row@ == status_text(r));
        let ghost done = texts(rows@);
        rows.push(row);
        assert(texts(rows@) =~= done.push(row@));
        assert(all.take(i + 1) =~= all.take(i as int).push(all[i as int]));
        i += 1;
    }
    assert(all.take(i as int) =~= all);
    let mut out = text("进程冻结状态:\n\n UID | 前台 | 状态 | 秒 | 进程\n");
    let joined = join_strings(rows.as_slice(), "\n");
    out.append(joined.as_str());
    out
}

// ---------------------------------------------------------------------------
// Commands
// ---------------------------------------------------------------------------

/// The answer to a request for the live view. The device is sampled for a sound request only.
pub open spec fn realtime_answer(
    payload: Seq<u8>,
    settings: Seq<u8>,
    sampler: SamplerView,
    full: Seq<ManagerEffect>,
    at: int,
) -> Option<(int, Result<Seq<u8>, ErrorView>, SamplerView)> {
    match request_fault(payload) {
        Some(Ok(message)) => Some((at, Ok(encode_utf8(message)), sampler)),
        Some(Err(error)) => Some((at, Err(error), sampler)),
        None => match sample_at(full, at, settings) {
            None => None,
            Some(sample) => Some(
                (
                    at + 1,
                    Ok(live_view(payload, sampler, sample)),
                    sampled(sampler, sample.proc_stat),
                ),
            ),
        },
    }
}

/// Answers a request for the live view.
pub fn encode_realtime_info_with_settings<B: ManagerBackend>(
    payload: &[u8],
    settings: &[u8],
    sampler: &mut RealtimeSampler,
    port: &mut B,
) -> (r: Result<Vec<u8>, DaemonError>)
    requires
        old(port).ready(),
        old(sampler)@.wf(),
    ensures
        final(sampler)@.wf(),
        went_on(*old(port), *final(port)),
        forall|full: Seq<ManagerEffect>|
            follows(full, final(port).trace()) ==> #[trigger] realtime_answer(
                payload@,
                settings@,
                old(sampler)@,
                full,
                old(port).trace().len() as int,
            ) == Some((final(port).trace().len() as int, bytes_view(r), final(sampler)@)),
{
    match realtime_request_validation_response(payload) {
        Ok(None) => {
            let sample = port.sample(settings);
            encode_realtime_info_with_sample(payload, sampler, &sample)
        },
        Ok(Some(message)) => Ok(message),
        Err(e) => Err(e),
    }
}

/// Answers a request for the live view of a new installation.
pub fn encode_realtime_info<B: ManagerBackend>(
    payload: &[u8],
    sampler: &mut RealtimeSampler,
    port: &mut B,
) -> (r: Result<Vec<u8>, DaemonError>)
    requires
        old(port).ready(),
        old(sampler)@.wf(),
    ensures
        final(sampler)@.wf(),
        went_on(*old(port), *final(port)),
        forall|full: Seq<ManagerEffect>|
            follows(full, final(port).trace()) ==> #[trigger] realtime_answer(
                payload@,
                crate::protocol::manager_v1::state::default_settings(),
                old(sampler)@,
                full,
                old(port).trace().len() as int,
            ) == Some((final(port).trace().len() as int, bytes_view(r), final(sampler)@)),
{
    let settings = crate::protocol::manager_v1::state::legacy_default_settings();
    encode_realtime_info_with_settings(payload, settings.as_slice(), sampler, port)
}

/// The text of a file, empty where it cannot be read.
pub open spec fn text_or_empty(found: Result<Seq<u8>, ErrorView>) -> Seq<char> {
    match found {
        Ok(b) => if valid_utf8(b) {
            decode_utf8(b)
        } else {
            seq![]
        },
        Err(_) => seq![],
    }
}

/// The answer to a command, and what it leaves behind.
#[verifier::ext_equal]
pub ghost struct Answered {
    pub end: int,
    pub answer: Result<Seq<u8>, ErrorView>,
    pub state: ManagerView,
    pub sampler: SamplerView,
}

/// A text answer as bytes.
pub open spec fn as_bytes(answer: Result<Seq<char>, ErrorView>) -> Result<Seq<u8>, ErrorView> {
    match answer {
        Ok(s) => Ok(encode_utf8(s)),
        Err(e) => Err(e),
    }
}

/// The answer to new names of applications: they are stored as they came.
pub open spec fn labels_update(
    s: ManagerView,
    payload: Seq<u8>,
    now_ms: u128,
    full: Seq<ManagerEffect>,
    at: int,
) -> Option<(int, Result<Seq<char>, ErrorView>, ManagerView)> {
    match s.app_label_path {
        None => Some(
            (at, Err(ErrorView::Config("app label persistence path is not configured"@)), s),
        ),
        Some(path) => match write_at(full, at, path, payload) {
            None => None,
            Some(Err(e)) => Some((at + 1, Err(e), s)),
            Some(Ok(_)) => Some(
                (
                    at + 1,
                    Ok("success"@),
                    noted(s, now_ms, label_message(labels_of(lines(lossy_text(payload))))),
                ),
            ),
        },
    }
}

/// The state after the answer to a new setting: the log tells of it.
pub open spec fn setting_told(s: ManagerView, message: Seq<char>, now_ms: u128) -> ManagerView {
    if message == "success"@ {
        noted(ManagerView { hook_config_synced: false, ..s }, now_ms, "⚙️设置成功"@)
    } else {
        noted(s, now_ms, "🔧设置失败，"@ + message)
    }
}

/// The answer to a command, and what it leaves behind.
pub open spec fn answered(
    command: ManagerCommand,
    payload: Seq<u8>,
    s: ManagerView,
    sampler: SamplerView,
    now_ms: u128,
    full: Seq<ManagerEffect>,
    at: int,
) -> Option<Answered> {
    match command {
        ManagerCommand::SetAppCfg => match records_update(s, payload, now_ms, full, at) {
            None => None,
            Some((end, answer, state)) => Some(
                Answered { end, answer: as_bytes(answer), state, sampler },
            ),
        },
        ManagerCommand::SetAppLabel => match labels_update(s, payload, now_ms, full, at) {
            None => None,
            Some((end, answer, state)) => Some(
                Answered { end, answer: as_bytes(answer), state, sampler },
            ),
        },
        ManagerCommand::SetSettingsVar => match settings_update(s, payload, full, at) {
            None => None,
            Some((end, message, state)) => Some(
                Answered {
                    end,
                    answer: Ok(encode_utf8(message)),
                    state: setting_told(state, message, now_ms),
                    sampler,
                },
            ),
        },
        ManagerCommand::GetRealTimeInfo => match realtime_answer(
            payload,
            s.settings,
            sampler,
            full,
            at,
        ) {
            None => None,
            Some((end, answer, after)) => Some(
                Answered { end, answer, state: s, sampler: after },
            ),
        },
        ManagerCommand::GetUidTime => match read_at(full, at, s.uid_time_path) {
            None => None,
            Some(found) => {
                let (totals, answer) = uid_time_answer(
                    s.uid_time_totals,
                    s.app_config,
                    text_or_empty(found),
                );
                Some(
                    Answered {
                        end: at + 1,
                        answer: Ok(answer),
                        state: ManagerView { uid_time_totals: totals, ..s },
                        sampler,
                    },
                )
            },
        },
        ManagerCommand::GetFreezeStatus => Some(
            Answered { end: at, answer: Ok(status_bytes(s.freeze_status)), state: s, sampler },
        ),
        ManagerCommand::ClearLog => Some(
            Answered {
                end: at,
                answer: Ok(seq![]),
                state: ManagerView { manager_log: cleared_log(s.manager_log, now_ms), ..s },
                sampler,
            },
        ),
        ManagerCommand::GetProcState => {
            let state = noted(s, now_ms, status_message(s.freeze_status));
            Some(
                Answered {
                    end: at,
                    answer: Ok(encode_utf8(rendered(state.manager_log.records, LogView::Info))),
                    state,
                    sampler,
                },
            )
        },
        _ => Some(Answered { end: at, answer: plain_answer(command, s), state: s, sampler }),
    }
}

fn text_answer(r: Result<String, DaemonError>) -> (o: Result<Vec<u8>, DaemonError>)
    ensures
        bytes_view(o) == as_bytes(answer_view(r)),
{
    match r {
        Ok(s) => Ok(bytes_of(s.as_str())),
        Err(e) => Err(e),
    }
}

fn set_app_label<B: ManagerBackend>(
    state: &mut ReadOnlyState,
    payload: &[u8],
    now_ms: u128,
    port: &mut B,
) -> (r: Result<String, DaemonError>)
    requires
        old(port).ready(),
    ensures
        went_on(*old(port), *final(port)),
        forall|full: Seq<ManagerEffect>|
            follows(full, final(port).trace()) ==> #[trigger] labels_update(
                old(state)@,
                payload@,
                now_ms,
                full,
                old(port).trace().len() as int,
            ) == Some((final(port).trace().len() as int, answer_view(r), final(state)@)),
{
    let labels = decode_app_label_payload(payload);
    let path = match copy_optional(&state.app_label_path) {
        Some(path) => path,
        None => {
            return Err(DaemonError::config("app label persistence path is not configured"));
        },
    };
    match port.write(path.as_str(), payload) {
        Ok(()) => {},
        Err(e) => {
            return Err(e);
        },
    }
    let message = format_label_update_log(labels.as_slice());
    append_legacy_log_message(state, now_ms, message.as_str());
    Ok(text("success"))
}

fn set_settings_var<B: ManagerBackend>(
    state: &mut ReadOnlyState,
    payload: &[u8],
    now_ms: u128,
    port: &mut B,
) -> (r: String)
    requires
        old(port).ready(),
    ensures
        went_on(*old(port), *final(port)),
        forall|full: Seq<ManagerEffect>|
            follows(full, final(port).trace()) ==> match #[trigger] settings_update(
                old(state)@,
                payload@,
                full,
                old(port).trace().len() as int,
            ) {
                None => false,
                Some((end, message, after)) => {
                    &&& end == final(port).trace().len()
                    &&& r@ == message
                    &&& final(state)@ == setting_told(after, message, now_ms)
                },
            },
{
    let response = set_settings_var_with_writer(state, payload, port);
    if same(response.as_str(), "success") {
        state.hook_config_synced = false;
        append_legacy_log_message(state, now_ms, "⚙️设置成功");
    } else {
        let mut message = text("🔧设置失败，");
        message.append(response.as_str());
        append_legacy_log_message(state, now_ms, message.as_str());
    }
    response
}

/// Answers a command of the manager.
pub fn handle_manager_command<B: ManagerBackend>(
    frame: &ManagerFrame,
    state: &mut ReadOnlyState,
    sampler: &mut RealtimeSampler,
    now_ms: u128,
    port: &mut B,
) -> (r: Result<Vec<u8>, DaemonError>)
    requires
        old(port).ready(),
        old(sampler)@.wf(),
    ensures
        final(sampler)@.wf(),
        went_on(*old(port), *final(port)),
        forall|full: Seq<ManagerEffect>|
            follows(full, final(port).trace()) ==> #[trigger] answered(
                frame.command,
                frame.payload@,
                old(state)@,
                old(sampler)@,
                now_ms,
                full,
                old(port).trace().len() as int,
            ) == Some(
                Answered {
                    end: final(port).trace().len() as int,
                    answer: bytes_view(r),
                    state: final(state)@,
                    sampler: final(sampler)@,
                },
            ),
{
    match frame.command {
        ManagerCommand::SetAppCfg => {
            let r = set_app_config_with_persistence_writer(
                state,
                frame.payload.as_slice(),
                now_ms,
                port,
            );
            text_answer(r)
        },
        ManagerCommand::SetAppLabel => {
            let r = set_app_label(state, frame.payload.as_slice(), now_ms, port);
            text_answer(r)
        },
        ManagerCommand::SetSettingsVar => {
            let message = set_settings_var(state, frame.payload.as_slice(), now_ms, port);
            Ok(bytes_of(message.as_str()))
        },
        ManagerCommand::GetRealTimeInfo => encode_realtime_info_with_settings(
            frame.payload.as_slice(),
            state.settings.as_slice(),
            sampler,
            port,
        ),
        ManagerCommand::GetUidTime => {
            let table = match port.read(state.uid_time_path.as_str()) {
                Ok(bytes) => match read_utf8(bytes.as_slice()) {
                    Ok(s) => s,
                    Err(_) => String::new(),
                },
                Err(_) => String::new(),
            };
            Ok(
                encode_uid_time(
                    &mut state.uid_time_totals,
                    state.app_config.as_slice(),
                    table.as_str(),
                ),
            )
        },
        ManagerCommand::GetFreezeStatus => Ok(encode_freeze_status(state.freeze_status.as_slice())),
        ManagerCommand::ClearLog => {
            state.manager_log.clear(now_ms);
            Ok(Vec::new())
        },
        ManagerCommand::GetProcState => {
            let message = write_status_message(state.freeze_status.as_slice());
            append_legacy_log_message(state, now_ms, message.as_str());
            let shown = state.manager_log.render(LogView::Info);
            Ok(bytes_of(shown.as_str()))
        },
        ManagerCommand::GetPropInfo
        | ManagerCommand::GetChangelog
        | ManagerCommand::GetLog
        | ManagerCommand::GetAppCfg
        | ManagerCommand::GetSettings
        | ManagerCommand::GetXpLog
        | ManagerCommand::GetHealthReport
        | ManagerCommand::GetCapabilityReport
        | ManagerCommand::GetCompatibilityBaseline
        | ManagerCommand::GetOperationLogJson
        | ManagerCommand::RunSelfCheck => handle_read_only_command(frame.command, state),
    }
}

} // verus!
