//! Transfers of whole frames under one deadline.
//!
//! A peer that sends or takes a byte just before every timeout must not hold a connection for
//! ever. So one deadline holds for the whole frame, however many reads or writes it takes.

use vstd::prelude::*;
use vstd::string::*;

use crate::app::error::{DaemonError, ErrorView, IoKind};
use crate::protocol::bytes::{le_u32, read_u32};
use crate::protocol::manager_v1::frame::{HEADER_LEN, MAX_PAYLOAD_LEN};
use crate::text::{decimal, number, text};

verus! {

/// The time for a request, and for an answer.
pub const MANAGER_STREAM_TIMEOUT_MS: u64 = 5_000;

/// Whether bytes come in or go out.
#[derive(Debug, Clone, Copy, PartialEq, Eq, Structural)]
pub enum Direction {
    Read,
    Write,
}

/// What one read or write gave.
#[derive(Debug, PartialEq, Eq)]
pub enum TransferEvent {
    /// This many bytes were transferred.
    Moved(usize),
    /// The call was interrupted.
    Interrupted,
    /// The peer did nothing in time.
    Blocked,
    /// The call failed.
    Failed(DaemonError),
}

/// What to do next.
#[derive(Debug, PartialEq, Eq)]
pub enum TransferStep {
    /// The frame is complete.
    Complete,
    /// Transfer on from this position, within the time that is left.
    Continue(usize),
    /// Give up.
    Fail(DaemonError),
}

/// What to do next, as a value.
#[verifier::ext_equal]
pub ghost enum StepView {
    Complete,
    Continue(nat),
    Fail(ErrorView),
}

impl View for TransferStep {
    type V = StepView;

    open spec fn view(&self) -> StepView {
        match self {
            TransferStep::Complete => StepView::Complete,
            TransferStep::Continue(n) => StepView::Continue(*n as nat),
            TransferStep::Fail(e) => StepView::Fail(e@),
        }
    }
}

/// The error after the deadline.
pub open spec fn overdue() -> ErrorView {
    ErrorView::Io(IoKind::TimedOut, "manager frame deadline exceeded"@)
}

/// The error after the deadline.
pub fn deadline_exceeded() -> (r: DaemonError)
    ensures
        r@ == overdue(),
{
    DaemonError::io(IoKind::TimedOut, "manager frame deadline exceeded")
}

/// What to do at a position: nothing more once all is transferred, nothing after the deadline.
pub open spec fn step_at(offset: nat, total: nat, expired: bool) -> StepView {
    if offset >= total {
        StepView::Complete
    } else if expired {
        StepView::Fail(overdue())
    } else {
        StepView::Continue(offset)
    }
}

/// Decides what to do at a position.
pub fn begin_transfer(offset: usize, total: usize, expired: bool) -> (r: TransferStep)
    ensures
        r@ == step_at(offset as nat, total as nat, expired),
{
    if offset >= total {
        TransferStep::Complete
    } else if expired {
        TransferStep::Fail(deadline_exceeded())
    } else {
        TransferStep::Continue(offset)
    }
}

/// What to do after a read or write.
pub open spec fn step_after(
    direction: Direction,
    offset: nat,
    total: nat,
    event: TransferEvent,
    expired: bool,
) -> StepView {
    match event {
        TransferEvent::Moved(n) => if n == 0 {
            StepView::Fail(
                match direction {
                    Direction::Read => ErrorView::Io(
                        IoKind::UnexpectedEof,
                        "manager frame ended before all bytes arrived"@,
                    ),
                    Direction::Write => ErrorView::Io(
                        IoKind::WriteZero,
                        "manager response write made no progress"@,
                    ),
                },
            )
        } else if expired {
            StepView::Fail(overdue())
        } else {
            step_at(offset + n as nat, total, false)
        },
        TransferEvent::Interrupted => step_at(offset, total, expired),
        TransferEvent::Blocked => StepView::Fail(overdue()),
        TransferEvent::Failed(e) => StepView::Fail(e@),
    }
}

/// Decides what to do after a read or write.
pub fn advance_transfer(
    direction: Direction,
    offset: usize,
    total: usize,
    event: TransferEvent,
    expired: bool,
) -> (r: TransferStep)
    requires
        event matches TransferEvent::Moved(n) ==> offset + n <= usize::MAX,
    ensures
        r@ == step_after(direction, offset as nat, total as nat, event, expired),
{
    match event {
        TransferEvent::Moved(n) => {
            if n == 0 {
                TransferStep::Fail(
                    match direction {
                        Direction::Read => DaemonError::io(
                            IoKind::UnexpectedEof,
                            "manager frame ended before all bytes arrived",
                        ),
                        Direction::Write => DaemonError::io(
                            IoKind::WriteZero,
                            "manager response write made no progress",
                        ),
                    },
                )
            } else if expired {
                TransferStep::Fail(deadline_exceeded())
            } else {
                begin_transfer(offset + n, total, false)
            }
        },
        TransferEvent::Interrupted => begin_transfer(offset, total, expired),
        TransferEvent::Blocked => TransferStep::Fail(deadline_exceeded()),
        TransferEvent::Failed(e) => TransferStep::Fail(e),
    }
}

/// After the deadline no bytes that still come count: an incomplete frame fails.
pub proof fn deadline_holds_for_the_whole_frame(
    direction: Direction,
    offset: nat,
    total: nat,
    event: TransferEvent,
)
    requires
        offset < total,
    ensures
        step_after(direction, offset, total, event, true) is Fail,
{
}

/// The length of the payload that a header announces, unless it is too long.
pub fn announced_length(header: &[u8]) -> (r: Result<usize, DaemonError>)
    requires
        header@.len() >= HEADER_LEN,
    ensures
        match r {
            Ok(n) => n == le_u32(header@, 0) && n <= MAX_PAYLOAD_LEN,
            Err(e) => le_u32(header@, 0) > MAX_PAYLOAD_LEN && e@ == ErrorView::Protocol(
                "manager frame payload too large: "@ + decimal(le_u32(header@, 0) as nat) + " > "@
                    + decimal(MAX_PAYLOAD_LEN as nat),
            ),
        },
{
    let length = read_u32(header, 0);
    if length > 1_048_576 {
        let mut message = text("manager frame payload too large: ");
        let digits = number(length as u128);
        message.append(digits.as_str());
        message.append(" > ");
        let digits = number(MAX_PAYLOAD_LEN as u128);
        message.append(digits.as_str());
        return Err(DaemonError::protocol(message.as_str()));
    }
    Ok(length as usize)
}

} // verus!
