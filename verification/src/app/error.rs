//! Errors of the daemon.

use vstd::prelude::*;

use crate::text::copy;

verus! {

/// The kinds of I/O failure that decisions depend on.
#[derive(Debug, Clone, Copy, PartialEq, Eq, Structural)]
pub enum IoKind {
    NotFound,
    NotADirectory,
    TimedOut,
    UnexpectedEof,
    WriteZero,
    InvalidData,
    Other,
}

/// A failed I/O operation.
#[derive(Debug, Clone, PartialEq, Eq)]
pub struct IoFailure {
    pub kind: IoKind,
    pub message: String,
}

/// An error of the daemon.
#[derive(Debug, Clone, PartialEq, Eq)]
pub enum DaemonError {
    Io(IoFailure),
    Config(String),
    Protocol(String),
    System(String),
}

/// An error as a value.
#[verifier::ext_equal]
pub ghost enum ErrorView {
    Io(IoKind, Seq<char>),
    Config(Seq<char>),
    Protocol(Seq<char>),
    System(Seq<char>),
}

/// The text of an error.
pub open spec fn error_text(e: ErrorView) -> Seq<char> {
    match e {
        ErrorView::Io(_, m) => m,
        ErrorView::Config(m) => m,
        ErrorView::Protocol(m) => m,
        ErrorView::System(m) => m,
    }
}

impl View for DaemonError {
    type V = ErrorView;

    open spec fn view(&self) -> ErrorView {
        match self {
            DaemonError::Io(f) => ErrorView::Io(f.kind, f.message@),
            DaemonError::Config(m) => ErrorView::Config(m@),
            DaemonError::Protocol(m) => ErrorView::Protocol(m@),
            DaemonError::System(m) => ErrorView::System(m@),
        }
    }
}

impl DaemonError {
    /// An I/O error.
    pub fn io(kind: IoKind, message: &str) -> (r: Self)
        ensures
            r@ == ErrorView::Io(kind, message@),
    {
        DaemonError::Io(IoFailure { kind, message: copy(message) })
    }

    /// An error in the configuration.
    pub fn config(message: &str) -> (r: Self)
        ensures
            r@ == ErrorView::Config(message@),
    {
        DaemonError::Config(copy(message))
    }

    /// A violation of a wire protocol.
    pub fn protocol(message: &str) -> (r: Self)
        ensures
            r@ == ErrorView::Protocol(message@),
    {
        DaemonError::Protocol(copy(message))
    }

    /// A failure of the system.
    pub fn system(message: &str) -> (r: Self)
        ensures
            r@ == ErrorView::System(message@),
    {
        DaemonError::System(copy(message))
    }

    /// The text of the error.
    pub fn message(&self) -> (r: &str)
        ensures
            r@ == error_text(self@),
    {
        match self {
            DaemonError::Io(f) => f.message.as_str(),
            DaemonError::Config(m) => m.as_str(),
            DaemonError::Protocol(m) => m.as_str(),
            DaemonError::System(m) => m.as_str(),
        }
    }
}

/// A result with its error as a value.
pub open spec fn outcome<T>(r: Result<T, DaemonError>) -> Result<T, ErrorView> {
    match r {
        Ok(v) => Ok(v),
        Err(e) => Err(e@),
    }
}

} // verus!
