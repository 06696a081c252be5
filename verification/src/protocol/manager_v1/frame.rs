//! Frames and commands of the manager.
//!
//! A frame is the length of its payload in four bytes, a command, the checksum of the payload,
//! and the payload.

use vstd::prelude::*;
use vstd::string::*;

use crate::app::error::{DaemonError, ErrorView};
use crate::protocol::bytes::{
    byte_range, le_at, le_bytes, le_reads_back, le_u32, push_bytes, push_u32, read_u32,
};
use crate::text::{decimal, number, text};

verus! {

/// The address on which the manager is served.
pub const MANAGER_LISTEN_HOST: &'static str = "127.0.0.1";

/// The port on which the manager is served.
pub const MANAGER_LISTEN_PORT: u16 = 60613;

/// The length of a frame's header.
pub const HEADER_LEN: usize = 6;

/// The longest payload.
pub const MAX_PAYLOAD_LEN: usize = 1_048_576;

/// A request of the manager.
#[derive(Debug, Clone, Copy, PartialEq, Eq, Structural)]
pub enum ManagerCommand {
    GetPropInfo,
    GetChangelog,
    GetLog,
    GetAppCfg,
    GetRealTimeInfo,
    GetSettings,
    GetUidTime,
    GetXpLog,
    GetFreezeStatus,
    SetAppCfg,
    SetAppLabel,
    SetSettingsVar,
    ClearLog,
    GetProcState,
    GetHealthReport,
    GetCapabilityReport,
    GetCompatibilityBaseline,
    GetOperationLogJson,
    RunSelfCheck,
}

/// The number of a command on the wire.
pub open spec fn command_number(c: ManagerCommand) -> u8 {
    match c {
        ManagerCommand::GetPropInfo => 2,
        ManagerCommand::GetChangelog => 3,
        ManagerCommand::GetLog => 4,
        ManagerCommand::GetAppCfg => 5,
        ManagerCommand::GetRealTimeInfo => 6,
        ManagerCommand::GetSettings => 8,
        ManagerCommand::GetUidTime => 9,
        ManagerCommand::GetXpLog => 10,
        ManagerCommand::GetFreezeStatus => 11,
        ManagerCommand::SetAppCfg => 21,
        ManagerCommand::SetAppLabel => 22,
        ManagerCommand::SetSettingsVar => 23,
        ManagerCommand::ClearLog => 61,
        ManagerCommand::GetProcState => 62,
        ManagerCommand::GetHealthReport => 71,
        ManagerCommand::GetCapabilityReport => 72,
        ManagerCommand::GetCompatibilityBaseline => 73,
        ManagerCommand::GetOperationLogJson => 74,
        ManagerCommand::RunSelfCheck => 75,
    }
}

/// No two commands have the same number.
pub proof fn command_numbers_differ(a: ManagerCommand, b: ManagerCommand)
    requires
        command_number(a) == command_number(b),
    ensures
        a == b,
{
}

impl ManagerCommand {
    /// The number of the command on the wire.
    pub fn number(self) -> (r: u8)
        ensures
            r == command_number(self),
    {
        match self {
            ManagerCommand::GetPropInfo => 2,
            ManagerCommand::GetChangelog => 3,
            ManagerCommand::GetLog => 4,
            ManagerCommand::GetAppCfg => 5,
            ManagerCommand::GetRealTimeInfo => 6,
            ManagerCommand::GetSettings => 8,
            ManagerCommand::GetUidTime => 9,
            ManagerCommand::GetXpLog => 10,
            ManagerCommand::GetFreezeStatus => 11,
            ManagerCommand::SetAppCfg => 21,
            ManagerCommand::SetAppLabel => 22,
            ManagerCommand::SetSettingsVar => 23,
            ManagerCommand::ClearLog => 61,
            ManagerCommand::GetProcState => 62,
            ManagerCommand::GetHealthReport => 71,
            ManagerCommand::GetCapabilityReport => 72,
            ManagerCommand::GetCompatibilityBaseline => 73,
            ManagerCommand::GetOperationLogJson => 74,
            ManagerCommand::RunSelfCheck => 75,
        }
    }

    /// The command with a number.
    pub fn try_from(value: u8) -> (r: Result<Self, DaemonError>)
        ensures
            match r {
                Ok(c) => command_number(c) == value,
                Err(e) => (forall|c: ManagerCommand| #[trigger] command_number(c) != value) && e@
                    == unknown_command(value),
            },
    {
        match value {
            2 => Ok(ManagerCommand::GetPropInfo),
            3 => Ok(ManagerCommand::GetChangelog),
            4 => Ok(ManagerCommand::GetLog),
            5 => Ok(ManagerCommand::GetAppCfg),
            6 => Ok(ManagerCommand::GetRealTimeInfo),
            8 => Ok(ManagerCommand::GetSettings),
            9 => Ok(ManagerCommand::GetUidTime),
            10 => Ok(ManagerCommand::GetXpLog),
            11 => Ok(ManagerCommand::GetFreezeStatus),
            21 => Ok(ManagerCommand::SetAppCfg),
            22 => Ok(ManagerCommand::SetAppLabel),
            23 => Ok(ManagerCommand::SetSettingsVar),
            61 => Ok(ManagerCommand::ClearLog),
            62 => Ok(ManagerCommand::GetProcState),
            71 => Ok(ManagerCommand::GetHealthReport),
            72 => Ok(ManagerCommand::GetCapabilityReport),
            73 => Ok(ManagerCommand::GetCompatibilityBaseline),
            74 => Ok(ManagerCommand::GetOperationLogJson),
            75 => Ok(ManagerCommand::RunSelfCheck),
            _ => {
                let mut message = text("unknown manager command ");
                let digits = number(value as u128);
                message.append(digits.as_str());
                Err(DaemonError::protocol(message.as_str()))
            },
        }
    }
}

/// The error for a number without a command.
pub open spec fn unknown_command(value: u8) -> ErrorView {
    ErrorView::Protocol("unknown manager command "@ + decimal(value as nat))
}

/// A request with its payload.
#[derive(Debug, Clone, PartialEq, Eq)]
pub struct ManagerFrame {
    pub command: ManagerCommand,
    pub payload: Vec<u8>,
}

/// The exclusive or of the bytes.
pub open spec fn checksum_of(s: Seq<u8>) -> u8
    decreases s.len(),
{
    if s.len() == 0 {
        0
    } else {
        checksum_of(s.drop_last()) ^ s.last()
    }
}

/// The exclusive or of the bytes.
pub fn checksum(payload: &[u8]) -> (r: u8)
    ensures
        r == checksum_of(payload@),
{
    let mut sum: u8 = 0;
    let mut i: usize = 0;
    while i < payload.len()
        invariant
            i <= payload@.len(),
            sum == checksum_of(payload@.take(i as int)),
        decreases payload@.len() - i,
    {
        assert(payload@.take(i + 1).drop_last() =~= payload@.take(i as int));
        sum = sum ^ payload[i];
        i += 1;
    }
    assert(payload@.take(i as int) =~= payload@);
    sum
}

/// The bytes of a frame.
pub open spec fn frame_bytes(command: ManagerCommand, payload: Seq<u8>) -> Seq<u8> {
    le_bytes(payload.len() as u32) + seq![command_number(command), checksum_of(payload)] + payload
}

/// What is wrong with the form of a frame, apart from its command.
pub open spec fn frame_error(b: Seq<u8>) -> Option<ErrorView> {
    if b.len() < HEADER_LEN {
        Some(ErrorView::Protocol("manager frame header is incomplete"@))
    } else if le_u32(b, 0) > MAX_PAYLOAD_LEN {
        Some(ErrorView::Protocol("manager frame payload is too large"@))
    } else if b.len() != HEADER_LEN + le_u32(b, 0) {
        Some(
            ErrorView::Protocol(
                "manager frame length mismatch: expected "@ + decimal(
                    (HEADER_LEN + le_u32(b, 0)) as nat,
                ) + ", got "@ + decimal(b.len()),
            ),
        )
    } else if b[5] != checksum_of(b.skip(6)) {
        Some(ErrorView::Protocol("manager frame checksum mismatch"@))
    } else {
        None
    }
}

/// Reads a frame.
pub fn parse_frame(bytes: &[u8]) -> (r: Result<ManagerFrame, DaemonError>)
    ensures
        match frame_error(bytes@) {
            Some(error) => r matches Err(e) && e@ == error,
            None => match r {
                Ok(f) => command_number(f.command) == bytes@[4] && f.payload@ == bytes@.skip(6),
                Err(e) => (forall|c: ManagerCommand| #[trigger] command_number(c) != bytes@[4])
                    && e@ == unknown_command(bytes@[4]),
            },
        },
{
    if bytes.len() < HEADER_LEN {
        return Err(DaemonError::protocol("manager frame header is incomplete"));
    }
    let length = read_u32(bytes, 0);
    if length > 1_048_576 {
        return Err(DaemonError::protocol("manager frame payload is too large"));
    }
    let payload_len: usize = length as usize;
    let expected_len: usize = HEADER_LEN + payload_len;
    if bytes.len() != expected_len {
        let mut message = text("manager frame length mismatch: expected ");
        let digits = number(expected_len as u128);
        message.append(digits.as_str());
        message.append(", got ");
        let digits = number(bytes.len() as u128);
        message.append(digits.as_str());
        return Err(DaemonError::protocol(message.as_str()));
    }
    let payload = byte_range(bytes, HEADER_LEN, bytes.len());
    assert(payload@ =~= bytes@.skip(6));
    let expected_checksum = checksum(payload.as_slice());
    if bytes[5] != expected_checksum {
        return Err(DaemonError::protocol("manager frame checksum mismatch"));
    }
    match ManagerCommand::try_from(bytes[4]) {
        Ok(command) => Ok(ManagerFrame { command, payload }),
        Err(e) => Err(e),
    }
}

/// Writes a frame.
pub fn encode_frame(command: ManagerCommand, payload: &[u8]) -> (r: Result<Vec<u8>, DaemonError>)
    ensures
        match r {
            Ok(v) => payload@.len() <= MAX_PAYLOAD_LEN && v@ == frame_bytes(command, payload@),
            Err(e) => payload@.len() > MAX_PAYLOAD_LEN && e@ == ErrorView::Protocol(
                "manager frame payload is too large"@,
            ),
        },
{
    if payload.len() > MAX_PAYLOAD_LEN {
        return Err(DaemonError::protocol("manager frame payload is too large"));
    }
    let mut bytes: Vec<u8> = Vec::new();
    push_u32(&mut bytes, payload.len() as u32);
    bytes.push(command.number());
    bytes.push(checksum(payload));
    push_bytes(&mut bytes, payload);
    assert(bytes@ =~= frame_bytes(command, payload@));
    Ok(bytes)
}

/// A frame that was written is the frame that is read.
pub proof fn frame_reads_back(command: ManagerCommand, payload: Seq<u8>)
    requires
        payload.len() <= MAX_PAYLOAD_LEN,
    ensures
        frame_error(frame_bytes(command, payload)) is None,
        frame_bytes(command, payload)[4] == command_number(command),
        frame_bytes(command, payload).skip(6) == payload,
{
    let b = frame_bytes(command, payload);
    assert(b.subrange(0, 4) =~= le_bytes(payload.len() as u32));
    le_at(b, 0, le_bytes(payload.len() as u32));
    le_reads_back(payload.len() as u32);
    assert(b.skip(6) =~= payload);
}

/// A frame in which one byte of the payload was changed is refused.
pub proof fn changed_payload_is_refused(
    command: ManagerCommand,
    payload: Seq<u8>,
    at: int,
    byte: u8,
)
    requires
        payload.len() <= MAX_PAYLOAD_LEN,
        0 <= at < payload.len(),
        byte != payload[at],
    ensures
        frame_error(frame_bytes(command, payload).update(6 + at, byte)) == Some(
            ErrorView::Protocol("manager frame checksum mismatch"@),
        ),
{
    let b = frame_bytes(command, payload);
    let c = b.update(6 + at, byte);
    frame_reads_back(command, payload);
    assert(c.subrange(0, 4) =~= le_bytes(payload.len() as u32));
    le_at(c, 0, le_bytes(payload.len() as u32));
    le_reads_back(payload.len() as u32);
    assert(c.skip(6) =~= payload.update(at, byte));
    changed_byte_changes_checksum(payload, at, byte);
}

proof fn changed_byte_changes_checksum(s: Seq<u8>, at: int, byte: u8)
    requires
        0 <= at < s.len(),
        byte != s[at],
    ensures
        checksum_of(s.update(at, byte)) != checksum_of(s),
    decreases s.len(),
{
    let t = s.update(at, byte);
    let a = checksum_of(s.drop_last());
    let b = checksum_of(t.drop_last());
    let x = s.last();
    let y = t.last();
    if at == s.len() - 1 {
        assert(t.drop_last() =~= s.drop_last());
        assert(x != y ==> a ^ x != a ^ y) by (bit_vector);
    } else {
        changed_byte_changes_checksum(s.drop_last(), at, byte);
        assert(t.drop_last() =~= s.drop_last().update(at, byte));
        assert(a != b ==> a ^ x != b ^ x) by (bit_vector);
    }
}

} // verus!
