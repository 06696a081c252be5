//! Replies of the hook in the system server.

use vstd::prelude::*;
use vstd::string::*;
use vstd::utf8::{decode_utf8, valid_utf8};

use crate::app::error::{outcome, DaemonError, ErrorView, IoKind};
use crate::protocol::bytes::{le_u32, push_bytes, read_u32, signed, to_signed};
use crate::protocol::xposed::{
    encode_frame, foreground_uids_of, frame_bytes, parse_foreground_uid_payload, XposedCommand,
    MAX_PAYLOAD_LEN, MAX_REQUEST_PAYLOAD_LEN,
};
use crate::text::{decimal, number, read_utf8, text, utf8_error_text};

verus! {

/// The name under which the hook listens.
pub const XPOSED_SOCKET_ABSTRACT_NAME: &'static str = "FreezeitXposedServer";

/// The time in which the hook must have replied.
pub const XPOSED_RESPONSE_DEADLINE_MS: u64 = 3_000;

/// The longest reply.
pub const XPOSED_RESPONSE_MAX_BYTES: usize = MAX_PAYLOAD_LEN;

/// The uid of root.
pub const ROOT_UID: u32 = 0;

/// The uid of the system server.
pub const SYSTEM_SERVER_UID: u32 = 1_000;

/// The number with which the hook accepts a request.
pub const ACCEPTED: i32 = 2;

/// Whether the hook accepted a configuration.
pub fn parse_set_config_response(response: &[u8]) -> (r: Result<bool, DaemonError>)
    ensures
        match r {
            Ok(accepted) => response@.len() >= 4 && accepted == (signed(le_u32(response@, 0))
                == ACCEPTED),
            Err(e) => response@.len() < 4 && e@ == ErrorView::Protocol(
                "xposed set config response header is incomplete"@,
            ),
        },
{
    if response.len() < 4 {
        return Err(DaemonError::protocol("xposed set config response header is incomplete"));
    }
    Ok(to_signed(read_u32(response, 0)) == ACCEPTED)
}

/// Reads a reply as text.
pub fn response_text(response: &[u8]) -> (r: Result<String, DaemonError>)
    ensures
        match r {
            Ok(s) => valid_utf8(response@) && s@ == decode_utf8(response@),
            Err(e) => !valid_utf8(response@) && e@ == ErrorView::Protocol(
                "xposed response is not utf-8: "@ + utf8_error_text(response@),
            ),
        },
{
    match read_utf8(response) {
        Ok(s) => Ok(s),
        Err(why) => {
            let mut message = text("xposed response is not utf-8: ");
            message.append(why.as_str());
            Err(DaemonError::protocol(message.as_str()))
        },
    }
}

/// Whether a process with a uid may be the hook: the system server, or root.
pub fn is_authorized_hook_peer_uid(uid: u32) -> (r: bool)
    ensures
        r == (uid == 0 || uid == 1_000),
{
    uid == ROOT_UID || uid == SYSTEM_SERVER_UID
}

/// Refuses a peer that may not be the hook.
pub fn check_hook_peer(uid: u32) -> (r: Result<(), DaemonError>)
    ensures
        match r {
            Ok(_) => uid == 0 || uid == 1_000,
            Err(e) => uid != 0 && uid != 1_000 && e@ == ErrorView::System(
                "refusing xposed bridge peer with uid "@ + decimal(uid as nat),
            ),
        },
{
    if is_authorized_hook_peer_uid(uid) {
        Ok(())
    } else {
        let mut message = text("refusing xposed bridge peer with uid ");
        let digits = number(uid as u128);
        message.append(digits.as_str());
        Err(DaemonError::system(message.as_str()))
    }
}

/// The error for a reply that is too long.
pub open spec fn oversized() -> ErrorView {
    ErrorView::Io(IoKind::InvalidData, "xposed response is too large"@)
}

/// Appends a part of a reply, unless the reply gets too long.
pub fn append_response_chunk(response: &mut Vec<u8>, chunk: &[u8]) -> (r: Result<(), DaemonError>)
    ensures
        match r {
            Ok(_) => old(response)@.len() + chunk@.len() <= XPOSED_RESPONSE_MAX_BYTES
                && final(response)@ == old(response)@ + chunk@,
            Err(e) => old(response)@.len() + chunk@.len() > XPOSED_RESPONSE_MAX_BYTES && e@
                == oversized() && final(response)@ == old(response)@,
        },
{
    if response.len() > XPOSED_RESPONSE_MAX_BYTES || chunk.len() > XPOSED_RESPONSE_MAX_BYTES
        - response.len() {
        return Err(DaemonError::io(IoKind::InvalidData, "xposed response is too large"));
    }
    push_bytes(response, chunk);
    Ok(())
}

/// What a read from the hook gave.
#[derive(Debug, PartialEq, Eq)]
pub enum ResponseEvent {
    /// The hook sent bytes.
    Data(Vec<u8>),
    /// The hook closed the connection.
    End,
    /// The hook sent nothing in time.
    Blocked(DaemonError),
    /// The read failed.
    Failed(DaemonError),
}

/// The error for a reply that took too long.
pub open spec fn late() -> ErrorView {
    ErrorView::Io(IoKind::TimedOut, "xposed response deadline exceeded"@)
}

/// The error for a reply that took too long.
pub fn response_late() -> (r: DaemonError)
    ensures
        r@ == late(),
{
    DaemonError::io(IoKind::TimedOut, "xposed response deadline exceeded")
}

/// The reply so far after a read, and whether it is complete; or why it failed. One deadline
/// holds for the whole reply.
pub open spec fn response_step(
    response: Seq<u8>,
    event: ResponseEvent,
    expired: bool,
) -> Result<(Seq<u8>, bool), ErrorView> {
    match event {
        ResponseEvent::End => Ok((response, true)),
        ResponseEvent::Data(chunk) => if expired {
            Err(late())
        } else if response.len() + chunk@.len() > XPOSED_RESPONSE_MAX_BYTES {
            Err(oversized())
        } else {
            Ok((response + chunk@, false))
        },
        ResponseEvent::Blocked(e) => if expired {
            Err(late())
        } else {
            Err(e@)
        },
        ResponseEvent::Failed(e) => Err(e@),
    }
}

/// Takes what a read from the hook gave.
pub fn advance_response(response: &mut Vec<u8>, event: ResponseEvent, expired: bool) -> (r: Result<
    bool,
    DaemonError,
>)
    ensures
        match response_step(old(response)@, event, expired) {
            Ok((bytes, complete)) => r == Ok::<bool, DaemonError>(complete) && final(response)@
                == bytes,
            Err(error) => r matches Err(e) && e@ == error && final(response)@ == old(response)@,
        },
{
    match event {
        ResponseEvent::End => Ok(true),
        ResponseEvent::Data(chunk) => {
            if expired {
                return Err(response_late());
            }
            match append_response_chunk(response, chunk.as_slice()) {
                Ok(()) => Ok(false),
                Err(e) => Err(e),
            }
        },
        ResponseEvent::Blocked(e) => if expired {
            Err(response_late())
        } else {
            Err(e)
        },
        ResponseEvent::Failed(e) => Err(e),
    }
}

// ---------------------------------------------------------------------------
// Requests
// ---------------------------------------------------------------------------

/// A reply as a value.
pub open spec fn reply_view(r: Result<Vec<u8>, DaemonError>) -> Result<Seq<u8>, ErrorView> {
    match r {
        Ok(b) => Ok(b@),
        Err(e) => Err(e@),
    }
}

/// The hook can reply this way to a frame.
pub open spec fn exchange_gives<X: FnOnce(&[u8]) -> Result<Vec<u8>, DaemonError>>(
    exchange: X,
    frame: Seq<u8>,
    reply: Result<Seq<u8>, ErrorView>,
) -> bool {
    exists|p: &[u8], r: Result<Vec<u8>, DaemonError>| #[trigger]
        call_ensures(exchange, (p,), r) && p@ == frame && reply_view(r) == reply
}

/// The reply to a request: one that is too long is not sent.
pub open spec fn requested<X: FnOnce(&[u8]) -> Result<Vec<u8>, DaemonError>>(
    exchange: X,
    command: XposedCommand,
    payload: Seq<u8>,
    reply: Result<Seq<u8>, ErrorView>,
) -> bool {
    if payload.len() > MAX_REQUEST_PAYLOAD_LEN {
        reply == Err::<Seq<u8>, ErrorView>(
            ErrorView::Protocol("xposed frame payload is too large"@),
        )
    } else {
        exchange_gives(exchange, frame_bytes(command, payload), reply)
    }
}

/// The frame of a request can be sent, where there is one.
pub open spec fn takes_frame<X: FnOnce(&[u8]) -> Result<Vec<u8>, DaemonError>>(
    exchange: X,
    command: XposedCommand,
    payload: Seq<u8>,
) -> bool {
    payload.len() <= MAX_REQUEST_PAYLOAD_LEN ==> forall|p: &[u8]|
        p@ == frame_bytes(command, payload) ==> #[trigger] call_requires(exchange, (p,))
}

/// Sends a request to the hook: its frame, and nothing where it is too long for one.
pub fn request_bytes<X: FnOnce(&[u8]) -> Result<Vec<u8>, DaemonError>>(
    command: XposedCommand,
    payload: &[u8],
    exchange: X,
) -> (r: Result<Vec<u8>, DaemonError>)
    requires
        takes_frame(exchange, command, payload@),
    ensures
        requested(exchange, command, payload@, reply_view(r)),
{
    match encode_frame(command, payload) {
        Err(e) => Err(e),
        Ok(frame) => {
            let ghost ask = exchange;
            let reply = exchange(frame.as_slice());
            assert(exchange_gives(ask, frame@, reply_view(reply)));
            reply
        },
    }
}

/// A reply as text.
pub open spec fn text_reply(reply: Result<Seq<u8>, ErrorView>) -> Result<Seq<char>, ErrorView> {
    match reply {
        Err(e) => Err(e),
        Ok(b) => if valid_utf8(b) {
            Ok(decode_utf8(b))
        } else {
            Err(ErrorView::Protocol("xposed response is not utf-8: "@ + utf8_error_text(b)))
        },
    }
}

/// A text as a value.
pub open spec fn text_view(r: Result<String, DaemonError>) -> Result<Seq<char>, ErrorView> {
    match r {
        Ok(s) => Ok(s@),
        Err(e) => Err(e@),
    }
}

/// Sends a request to the hook whose reply is text.
pub fn request_text<X: FnOnce(&[u8]) -> Result<Vec<u8>, DaemonError>>(
    command: XposedCommand,
    payload: &[u8],
    exchange: X,
) -> (r: Result<String, DaemonError>)
    requires
        takes_frame(exchange, command, payload@),
    ensures
        exists|reply: Result<Seq<u8>, ErrorView>| #[trigger]
            requested(exchange, command, payload@, reply) && text_view(r) == text_reply(reply),
{
    let reply = request_bytes(command, payload, exchange);
    assert(requested(exchange, command, payload@, reply_view(reply)));
    match reply {
        Ok(b) => response_text(b.as_slice()),
        Err(e) => Err(e),
    }
}

/// Asks the hook for its health.
pub fn query_hook_health<X: FnOnce(&[u8]) -> Result<Vec<u8>, DaemonError>>(exchange: X) -> (r:
    Result<String, DaemonError>)
    requires
        takes_frame(exchange, XposedCommand::GetHookHealth, seq![]),
    ensures
        exists|reply: Result<Seq<u8>, ErrorView>| #[trigger]
            requested(exchange, XposedCommand::GetHookHealth, seq![], reply) && text_view(r)
                == text_reply(reply),
{
    let nothing: Vec<u8> = Vec::new();
    assert(nothing@ =~= seq![]);
    request_text(XposedCommand::GetHookHealth, nothing.as_slice(), exchange)
}

/// The uids in a reply.
pub open spec fn uid_reply(reply: Result<Seq<u8>, ErrorView>) -> Result<Seq<u32>, ErrorView> {
    match reply {
        Err(e) => Err(e),
        Ok(b) => foreground_uids_of(b),
    }
}

/// Asks the hook for the applications in the foreground.
pub fn query_foreground_uids<X: FnOnce(&[u8]) -> Result<Vec<u8>, DaemonError>>(exchange: X) -> (r:
    Result<Vec<u32>, DaemonError>)
    requires
        takes_frame(exchange, XposedCommand::GetForeground, seq![]),
    ensures
        exists|reply: Result<Seq<u8>, ErrorView>| #[trigger]
            requested(exchange, XposedCommand::GetForeground, seq![], reply) && match r {
                Ok(v) => uid_reply(reply) == Ok::<Seq<u32>, ErrorView>(v@),
                Err(e) => uid_reply(reply) == Err::<Seq<u32>, ErrorView>(e@),
            },
{
    let nothing: Vec<u8> = Vec::new();
    assert(nothing@ =~= seq![]);
    let reply = request_bytes(XposedCommand::GetForeground, nothing.as_slice(), exchange);
    assert(requested(exchange, XposedCommand::GetForeground, seq![], reply_view(reply)));
    match reply {
        Ok(b) => parse_foreground_uid_payload(b.as_slice()),
        Err(e) => Err(e),
    }
}

/// Whether a configuration was accepted.
pub open spec fn config_reply(reply: Result<Seq<u8>, ErrorView>) -> Result<bool, ErrorView> {
    match reply {
        Err(e) => Err(e),
        Ok(b) => if b.len() < 4 {
            Err(ErrorView::Protocol("xposed set config response header is incomplete"@))
        } else {
            Ok(signed(le_u32(b, 0)) == ACCEPTED)
        },
    }
}

/// Sends a configuration to the hook; the result says whether it was accepted.
pub fn set_config<X: FnOnce(&[u8]) -> Result<Vec<u8>, DaemonError>>(
    payload: &[u8],
    exchange: X,
) -> (r: Result<bool, DaemonError>)
    requires
        takes_frame(exchange, XposedCommand::SetConfig, payload@),
    ensures
        exists|reply: Result<Seq<u8>, ErrorView>| #[trigger]
            requested(exchange, XposedCommand::SetConfig, payload@, reply) && outcome(r)
                == config_reply(reply),
{
    let reply = request_bytes(XposedCommand::SetConfig, payload, exchange);
    assert(requested(exchange, XposedCommand::SetConfig, payload@, reply_view(reply)));
    match reply {
        Ok(b) => parse_set_config_response(b.as_slice()),
        Err(e) => Err(e),
    }
}

} // verus!
