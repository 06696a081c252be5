//! The bridge to the system hook.

use vstd::prelude::*;
use vstd::string::*;
use vstd::utf8::encode_utf8;

use crate::app::error::{error_text, DaemonError, ErrorView};
use crate::protocol::bytes::{
    byte_range, le_at, le_bytes, le_reads_back, le_u32, push_bytes, push_u32, read_u32,
    sign_reads_back, signed, to_signed, to_unsigned, unsigned,
};
use crate::protocol::json::{top_level_field, top_level_json_string_field};
use crate::text::{
    contains, copy, decimal, has, number, same, signed_decimal, signed_number, text,
};

verus! {

/// The name of the hook's socket.
pub const XPOSED_SOCKET_NAME: &'static str = "\0FreezeitXposedServer";

/// The number from which command numbers are counted.
pub const FREEZEIT_COMMAND_BASE: i32 = 1_359_322_925;

/// The length of a frame's header.
pub const HEADER_LEN: usize = 8;

/// The longest reply of the bridge.
pub const MAX_PAYLOAD_LEN: usize = 1_048_576;

/// The longest request: one byte less than the hook's buffer.
pub const MAX_REQUEST_PAYLOAD_LEN: usize = 131_071;

/// The commands of the bridge.
#[derive(Debug, Clone, Copy, PartialEq, Eq, Structural)]
pub enum XposedCommand {
    GetForeground,
    GetScreen,
    GetXpLog,
    SetConfig,
    SetWakeupLock,
    BreakNetwork,
    UpdatePending,
    GetHookHealth,
    GetRuntimeAppStates,
    GetSystemFreezerHints,
}

/// How far the number of a command lies above the base.
pub open spec fn command_offset(c: XposedCommand) -> int {
    match c {
        XposedCommand::GetForeground => 1,
        XposedCommand::GetScreen => 2,
        XposedCommand::GetXpLog => 3,
        XposedCommand::SetConfig => 20,
        XposedCommand::SetWakeupLock => 21,
        XposedCommand::BreakNetwork => 41,
        XposedCommand::UpdatePending => 60,
        XposedCommand::GetHookHealth => 70,
        XposedCommand::GetRuntimeAppStates => 71,
        XposedCommand::GetSystemFreezerHints => 72,
    }
}

/// The number of a command.
pub open spec fn command_number(c: XposedCommand) -> int {
    FREEZEIT_COMMAND_BASE + command_offset(c)
}

/// Different commands have different numbers.
pub proof fn command_numbers_differ(a: XposedCommand, b: XposedCommand)
    requires
        command_number(a) == command_number(b),
    ensures
        a == b,
{
}

impl XposedCommand {
    /// The number of this command.
    pub fn number(self) -> (r: i32)
        ensures
            r == command_number(self),
    {
        FREEZEIT_COMMAND_BASE + match self {
            XposedCommand::GetForeground => 1,
            XposedCommand::GetScreen => 2,
            XposedCommand::GetXpLog => 3,
            XposedCommand::SetConfig => 20,
            XposedCommand::SetWakeupLock => 21,
            XposedCommand::BreakNetwork => 41,
            XposedCommand::UpdatePending => 60,
            XposedCommand::GetHookHealth => 70,
            XposedCommand::GetRuntimeAppStates => 71,
            XposedCommand::GetSystemFreezerHints => 72,
        }
    }

    /// The command with a number.
    pub fn try_from(value: i32) -> (r: Result<Self, DaemonError>)
        ensures
            match r {
                Ok(c) => command_number(c) == value,
                Err(e) => (forall|c: XposedCommand| #[trigger] command_number(c) != value) && e@
                    == ErrorView::Protocol(
                    "unknown xposed command "@ + signed_decimal(value as int),
                ),
            },
    {
        let all = [
            XposedCommand::GetForeground,
            XposedCommand::GetScreen,
            XposedCommand::GetXpLog,
            XposedCommand::SetConfig,
            XposedCommand::SetWakeupLock,
            XposedCommand::BreakNetwork,
            XposedCommand::UpdatePending,
            XposedCommand::GetHookHealth,
            XposedCommand::GetRuntimeAppStates,
            XposedCommand::GetSystemFreezerHints,
        ];
        let mut i: usize = 0;
        while i < 10
            invariant
                i <= 10,
                forall|k: int| 0 <= k < i ==> command_number(#[trigger] all@[k]) != value,
            decreases 10 - i,
        {
            if all[i].number() == value {
                return Ok(all[i]);
            }
            i += 1;
        }
        proof {
            assert forall|c: XposedCommand| #[trigger] command_number(c) != value by {
                let k: int = match c {
                    XposedCommand::GetForeground => 0,
                    XposedCommand::GetScreen => 1,
                    XposedCommand::GetXpLog => 2,
                    XposedCommand::SetConfig => 3,
                    XposedCommand::SetWakeupLock => 4,
                    XposedCommand::BreakNetwork => 5,
                    XposedCommand::UpdatePending => 6,
                    XposedCommand::GetHookHealth => 7,
                    XposedCommand::GetRuntimeAppStates => 8,
                    XposedCommand::GetSystemFreezerHints => 9,
                };
                assert(all@[k] == c);
            }
        }
        let mut message = text("unknown xposed command ");
        let digits = signed_number(value as i64);
        message.append(digits.as_str());
        Err(DaemonError::protocol(message.as_str()))
    }
}

/// A request to the hook.
#[derive(Debug, Clone, PartialEq, Eq)]
pub struct XposedFrame {
    pub command: XposedCommand,
    pub payload: Vec<u8>,
}

// ---------------------------------------------------------------------------
// Hook health
// ---------------------------------------------------------------------------

/// The state of the bridge.
#[derive(Debug, Clone, PartialEq, Eq)]
pub enum HookBridgeStatus {
    Active,
    Missing(String),
    Degraded(String),
}

/// The state of the bridge as a value.
#[verifier::ext_equal]
pub ghost enum BridgeView {
    Active,
    Missing(Seq<char>),
    Degraded(Seq<char>),
}

impl View for HookBridgeStatus {
    type V = BridgeView;

    open spec fn view(&self) -> BridgeView {
        match self {
            HookBridgeStatus::Active => BridgeView::Active,
            HookBridgeStatus::Missing(s) => BridgeView::Missing(s@),
            HookBridgeStatus::Degraded(s) => BridgeView::Degraded(s@),
        }
    }
}

/// The name of a state of the bridge.
pub open spec fn bridge_label(b: BridgeView) -> Seq<char> {
    match b {
        BridgeView::Active => "active"@,
        BridgeView::Missing(_) => "missing"@,
        BridgeView::Degraded(_) => "degraded"@,
    }
}

impl HookBridgeStatus {
    /// Whether control may rely on the bridge.
    pub fn is_ready_for_control(&self) -> (r: bool)
        ensures
            r == (self@ == BridgeView::Active),
    {
        match self {
            HookBridgeStatus::Active => true,
            _ => false,
        }
    }

    /// The name of this state.
    pub fn health_label(&self) -> (r: &'static str)
        ensures
            r@ == bridge_label(self@),
    {
        match self {
            HookBridgeStatus::Active => "active",
            HookBridgeStatus::Missing(_) => "missing",
            HookBridgeStatus::Degraded(_) => "degraded",
        }
    }
}

/// What an error of the bridge shows: the hook is missing where nothing listens.
pub open spec fn bridge_error(message: Seq<char>) -> BridgeView {
    if contains(message, "No such file"@) || contains(message, "Connection refused"@) || contains(
        message,
        "not found"@,
    ) {
        BridgeView::Missing(message)
    } else {
        BridgeView::Degraded(message)
    }
}

/// Classifies an error of the bridge.
pub fn classify_bridge_error(error: &DaemonError) -> (r: HookBridgeStatus)
    ensures
        r@ == bridge_error(error_text(error@)),
{
    let message = error.message();
    if has(message, "No such file") || has(message, "Connection refused") || has(
        message,
        "not found",
    ) {
        HookBridgeStatus::Missing(copy(message))
    } else {
        HookBridgeStatus::Degraded(copy(message))
    }
}

/// The status in a health report: `system_control_status`, or `status` where the report has
/// none. No result for a report that cannot be read.
pub open spec fn reported_status(payload: Seq<char>) -> Option<Option<Seq<char>>> {
    let b = encode_utf8(payload);
    match top_level_field(b, "system_control_status"@) {
        None => None,
        Some(Some(status)) => Some(Some(status)),
        Some(None) => top_level_field(b, "status"@),
    }
}

/// A report that says nothing that is known.
pub open spec fn unrecognized(payload: Seq<char>) -> BridgeView {
    BridgeView::Degraded("unrecognized hook health payload: "@ + payload)
}

/// What a health report shows. Only `active` is active; everything unclear is degraded.
pub open spec fn bridge_health(payload: Seq<char>) -> BridgeView {
    match reported_status(payload) {
        Some(Some(status)) => if status == "active"@ {
            BridgeView::Active
        } else if status == "degraded"@ || status == "inactive"@ || status == "missing"@ {
            BridgeView::Degraded(payload)
        } else {
            unrecognized(payload)
        },
        _ => unrecognized(payload),
    }
}

/// A report counts as active only where it can be read and its status is `active`.
pub proof fn health_fails_closed(payload: Seq<char>)
    requires
        reported_status(payload) != Some(Some("active"@)),
    ensures
        bridge_health(payload) != BridgeView::Active,
{
}

/// The control status takes priority over the aggregate status.
pub proof fn control_status_takes_priority(payload: Seq<char>, status: Seq<char>)
    requires
        top_level_field(encode_utf8(payload), "system_control_status"@) == Some(Some(status)),
    ensures
        reported_status(payload) == Some(Some(status)),
{
}

fn unrecognized_status(payload: &str) -> (r: HookBridgeStatus)
    ensures
        r@ == unrecognized(payload@),
{
    let mut message = text("unrecognized hook health payload: ");
    message.append(payload);
    HookBridgeStatus::Degraded(message)
}

/// Classifies a health report.
pub fn classify_hook_health_payload(payload: &str) -> (r: HookBridgeStatus)
    ensures
        r@ == bridge_health(payload@),
{
    let bytes = payload.as_bytes();
    let status = match top_level_json_string_field(bytes, "system_control_status") {
        None => {
            return unrecognized_status(payload);
        },
        Some(Some(status)) => Some(status),
        Some(None) => match top_level_json_string_field(bytes, "status") {
            None => {
                return unrecognized_status(payload);
            },
            Some(status) => status,
        },
    };
    match status {
        None => unrecognized_status(payload),
        Some(status) => if same(status.as_str(), "active") {
            HookBridgeStatus::Active
        } else if same(status.as_str(), "degraded") || same(status.as_str(), "inactive") || same(
            status.as_str(),
            "missing",
        ) {
            HookBridgeStatus::Degraded(copy(payload))
        } else {
            unrecognized_status(payload)
        },
    }
}

// ---------------------------------------------------------------------------
// Foreground uids
// ---------------------------------------------------------------------------

/// The uids behind a count.
pub open spec fn uid_list_at(payload: Seq<u8>, count: nat) -> Seq<u32> {
    Seq::new(count, |k: int| le_u32(payload, 4 + k * 4))
}

/// The uids of a payload: a count, then as many numbers. More bytes may follow.
pub open spec fn foreground_uids_of(payload: Seq<u8>) -> Result<Seq<u32>, ErrorView> {
    if payload.len() < 4 {
        Err(ErrorView::Protocol("foreground uid payload count is missing"@))
    } else {
        let count = signed(le_u32(payload, 0));
        if count < 0 {
            Err(ErrorView::Protocol("foreground uid payload count is negative"@))
        } else if payload.len() < 4 + count * 4 {
            Err(
                ErrorView::Protocol(
                    "foreground uid payload length mismatch: expected at least "@ + decimal(
                        (4 + count * 4) as nat,
                    ) + ", got "@ + decimal(payload.len()),
                ),
            )
        } else {
            Ok(uid_list_at(payload, count as nat))
        }
    }
}

/// Reads the uids of a payload.
pub fn parse_foreground_uid_payload(payload: &[u8]) -> (r: Result<Vec<u32>, DaemonError>)
    ensures
        match r {
            Ok(v) => foreground_uids_of(payload@) == Ok::<Seq<u32>, ErrorView>(v@),
            Err(e) => foreground_uids_of(payload@) == Err::<Seq<u32>, ErrorView>(e@),
        },
{
    if payload.len() < 4 {
        return Err(DaemonError::protocol("foreground uid payload count is missing"));
    }
    let count = to_signed(read_u32(payload, 0));
    if count < 0 {
        return Err(DaemonError::protocol("foreground uid payload count is negative"));
    }
    let expected_len: u64 = 4 + count as u64 * 4;
    if (payload.len() as u64) < expected_len {
        let mut message = text("foreground uid payload length mismatch: expected at least ");
        let digits = number(expected_len as u128);
        message.append(digits.as_str());
        message.append(", got ");
        let digits = number(payload.len() as u128);
        message.append(digits.as_str());
        return Err(DaemonError::protocol(message.as_str()));
    }
    let mut out: Vec<u32> = Vec::new();
    let mut k: usize = 0;
    let total: usize = count as usize;
    while k < total
        invariant
            k <= total,
            total == count,
            4 + total * 4 <= payload.len(),
            out@ == uid_list_at(payload@, count as nat).take(k as int),
        decreases total - k,
    {
        out.push(read_u32(payload, 4 + k * 4));
        assert(uid_list_at(payload@, count as nat).take(k + 1) =~= uid_list_at(
            payload@,
            count as nat,
        ).take(k as int).push(le_u32(payload@, 4 + k * 4)));
        k += 1;
    }
    assert(uid_list_at(payload@, count as nat).take(k as int) =~= uid_list_at(
        payload@,
        count as nat,
    ));
    Ok(out)
}

// ---------------------------------------------------------------------------
// Frames
// ---------------------------------------------------------------------------

/// The bytes of a frame: command, length of the payload, payload.
pub open spec fn frame_bytes(command: XposedCommand, payload: Seq<u8>) -> Seq<u8> {
    le_bytes(unsigned(command_number(command) as i32)) + le_bytes(payload.len() as u32) + payload
}

/// The error of a frame of a wrong length.
pub open spec fn frame_length_error(expected: nat, got: nat) -> ErrorView {
    ErrorView::Protocol(
        "xposed frame length mismatch: expected "@ + decimal(expected) + ", got "@ + decimal(got),
    )
}

/// Whether and why bytes are no frame, apart from the command.
pub open spec fn frame_error(bytes: Seq<u8>) -> Option<ErrorView> {
    if bytes.len() < HEADER_LEN {
        Some(ErrorView::Protocol("xposed frame header is incomplete"@))
    } else {
        let len = signed(le_u32(bytes, 4));
        if len < 0 {
            Some(ErrorView::Protocol("xposed frame payload length is negative"@))
        } else if len > MAX_REQUEST_PAYLOAD_LEN {
            Some(ErrorView::Protocol("xposed frame payload is too large"@))
        } else if bytes.len() != HEADER_LEN + len {
            Some(frame_length_error((HEADER_LEN + len) as nat, bytes.len()))
        } else {
            None
        }
    }
}

/// Reads a frame.
pub fn parse_frame(bytes: &[u8]) -> (r: Result<XposedFrame, DaemonError>)
    ensures
        match frame_error(bytes@) {
            Some(error) => r matches Err(e) && e@ == error,
            None => match r {
                Ok(f) => command_number(f.command) == signed(le_u32(bytes@, 0)) && f.payload@
                    == bytes@.skip(8),
                Err(e) => (forall|c: XposedCommand| #[trigger]
                    command_number(c) != signed(le_u32(bytes@, 0))) && e@ == ErrorView::Protocol(
                    "unknown xposed command "@ + signed_decimal(
                        signed(le_u32(bytes@, 0)) as int,
                    ),
                ),
            },
        },
{
    if bytes.len() < HEADER_LEN {
        return Err(DaemonError::protocol("xposed frame header is incomplete"));
    }
    let command = to_signed(read_u32(bytes, 0));
    let payload_len = to_signed(read_u32(bytes, 4));
    if payload_len < 0 {
        return Err(DaemonError::protocol("xposed frame payload length is negative"));
    }
    let payload_len: usize = payload_len as usize;
    if payload_len > MAX_REQUEST_PAYLOAD_LEN {
        return Err(DaemonError::protocol("xposed frame payload is too large"));
    }
    let expected_len: usize = HEADER_LEN + payload_len;
    if bytes.len() != expected_len {
        let mut message = text("xposed frame length mismatch: expected ");
        let digits = number(expected_len as u128);
        message.append(digits.as_str());
        message.append(", got ");
        let digits = number(bytes.len() as u128);
        message.append(digits.as_str());
        return Err(DaemonError::protocol(message.as_str()));
    }
    match XposedCommand::try_from(command) {
        Ok(command) => {
            let payload = byte_range(bytes, HEADER_LEN, bytes.len());
            assert(payload@ =~= bytes@.skip(8));
            Ok(XposedFrame { command, payload })
        },
        Err(e) => Err(e),
    }
}

/// Writes a frame.
pub fn encode_frame(command: XposedCommand, payload: &[u8]) -> (r: Result<Vec<u8>, DaemonError>)
    ensures
        match r {
            Ok(v) => payload@.len() <= MAX_REQUEST_PAYLOAD_LEN && v@ == frame_bytes(
                command,
                payload@,
            ),
            Err(e) => payload@.len() > MAX_REQUEST_PAYLOAD_LEN && e@ == ErrorView::Protocol(
                "xposed frame payload is too large"@,
            ),
        },
{
    if payload.len() > MAX_REQUEST_PAYLOAD_LEN {
        return Err(DaemonError::protocol("xposed frame payload is too large"));
    }
    let mut bytes: Vec<u8> = Vec::new();
    push_u32(&mut bytes, to_unsigned(command.number()));
    push_u32(&mut bytes, payload.len() as u32);
    push_bytes(&mut bytes, payload);
    assert(bytes@ =~= frame_bytes(command, payload@));
    Ok(bytes)
}

/// A frame that was written is the frame that is read.
pub proof fn frame_reads_back(command: XposedCommand, payload: Seq<u8>)
    requires
        payload.len() <= MAX_REQUEST_PAYLOAD_LEN,
    ensures
        frame_error(frame_bytes(command, payload)) is None,
        signed(le_u32(frame_bytes(command, payload), 0)) == command_number(command),
        frame_bytes(command, payload).skip(8) == payload,
{
    let n = unsigned(command_number(command) as i32);
    let b = frame_bytes(command, payload);
    assert(b.subrange(0, 4) =~= le_bytes(n));
    assert(b.subrange(4, 8) =~= le_bytes(payload.len() as u32));
    le_at(b, 0, le_bytes(n));
    le_at(b, 4, le_bytes(payload.len() as u32));
    le_reads_back(n);
    le_reads_back(payload.len() as u32);
    sign_reads_back(command_number(command) as i32, n);
    assert(b.skip(8) =~= payload);
}

} // verus!
