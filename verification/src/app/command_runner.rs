//! Running commands within limits of time and output.

use vstd::prelude::*;
use vstd::string::*;

use crate::app::error::{DaemonError, ErrorView};
use crate::protocol::bytes::push_bytes;
use crate::text::{decimal, number, text};

verus! {

/// The time that a command may take, in milliseconds.
pub const COMMAND_TIMEOUT_MS: u64 = 10_000;

/// The longest output, both streams together.
pub const MAX_OUTPUT_BYTES: usize = 16_777_216;

/// The longest wait for output, in milliseconds.
pub const POLL_INTERVAL_MS: u64 = 50;

/// The size of one read.
pub const READ_BUFFER_SIZE: usize = 8_192;

/// How a command ended.
#[derive(Debug, Clone, Copy, PartialEq, Eq, Structural)]
pub struct CommandStatus {
    pub success: bool,
    pub code: Option<i32>,
}

/// The output of a command that ended.
#[derive(Debug, PartialEq, Eq)]
pub struct CommandOutput {
    pub status: CommandStatus,
    pub stdout: Vec<u8>,
    pub stderr: Vec<u8>,
}

/// One of the streams of a command.
#[derive(Debug, Clone, Copy, PartialEq, Eq, Structural)]
pub enum Stream {
    Stdout,
    Stderr,
}

/// What one read from a stream gave.
#[derive(Debug, PartialEq, Eq)]
pub enum StreamEvent {
    /// The stream has bytes.
    Data(Vec<u8>),
    /// The stream is closed.
    End,
    /// The stream has nothing yet.
    Blocked,
    /// The read failed.
    Failed(DaemonError),
}

/// A command that runs: what it has written, which streams are open, and whether it ended.
#[derive(Debug, PartialEq, Eq)]
pub struct CommandRun {
    pub stdout: Vec<u8>,
    pub stderr: Vec<u8>,
    pub stdout_open: bool,
    pub stderr_open: bool,
    pub status: Option<CommandStatus>,
}

/// A command that runs, as a value.
#[verifier::ext_equal]
pub ghost struct RunView {
    pub stdout: Seq<u8>,
    pub stderr: Seq<u8>,
    pub stdout_open: bool,
    pub stderr_open: bool,
    pub status: Option<CommandStatus>,
}

impl View for CommandRun {
    type V = RunView;

    open spec fn view(&self) -> RunView {
        RunView {
            stdout: self.stdout@,
            stderr: self.stderr@,
            stdout_open: self.stdout_open,
            stderr_open: self.stderr_open,
            status: self.status,
        }
    }
}

/// What to do next with a command.
#[derive(Debug, PartialEq, Eq)]
pub enum RunStep {
    /// The command has ended and all its output is read.
    Finished,
    /// Wait for output, at most this many milliseconds.
    Poll(i32),
    /// Stop the command.
    Stop(DaemonError),
}

/// What to do next with a command, as a value.
#[verifier::ext_equal]
pub ghost enum RunStepView {
    Finished,
    Poll(int),
    Stop(ErrorView),
}

impl View for RunStep {
    type V = RunStepView;

    open spec fn view(&self) -> RunStepView {
        match self {
            RunStep::Finished => RunStepView::Finished,
            RunStep::Poll(n) => RunStepView::Poll(*n as int),
            RunStep::Stop(e) => RunStepView::Stop(e@),
        }
    }
}

/// The error for a command that took too long.
pub open spec fn timed_out(program: Seq<char>, timeout_ms: u64) -> ErrorView {
    ErrorView::System(
        "command `"@ + program + "` timed out after "@ + decimal(timeout_ms as nat) + " ms"@,
    )
}

/// The error for a command that wrote too much.
pub open spec fn too_much_output(program: Seq<char>, limit: usize) -> ErrorView {
    ErrorView::System(
        "command `"@ + program + "` exceeded combined output limit of "@ + decimal(limit as nat)
            + " bytes"@,
    )
}

/// What to do next: a command is finished when it has ended and both streams are closed; it is
/// stopped when no time remains.
pub open spec fn next_step(
    run: RunView,
    program: Seq<char>,
    timeout_ms: u64,
    remaining_ns: u128,
) -> RunStepView {
    if run.status is Some && !run.stdout_open && !run.stderr_open {
        RunStepView::Finished
    } else if remaining_ns == 0 {
        RunStepView::Stop(timed_out(program, timeout_ms))
    } else {
        let ms = remaining_ns / 1_000_000;
        RunStepView::Poll(
            if ms >= POLL_INTERVAL_MS {
                POLL_INTERVAL_MS as int
            } else if ms == 0 {
                1
            } else {
                ms as int
            },
        )
    }
}

/// The command after a read from a stream, or why it is stopped. What a stream may add is what
/// both streams together have left.
pub open spec fn after_stream(
    run: RunView,
    program: Seq<char>,
    limit: usize,
    stream: Stream,
    event: StreamEvent,
) -> Result<RunView, ErrorView> {
    match event {
        StreamEvent::Blocked => Ok(run),
        StreamEvent::End => Ok(
            match stream {
                Stream::Stdout => RunView { stdout_open: false, ..run },
                Stream::Stderr => RunView { stderr_open: false, ..run },
            },
        ),
        StreamEvent::Data(bytes) => if run.stdout.len() + run.stderr.len() + bytes@.len() > limit
            && bytes@.len() > 0 {
            Err(too_much_output(program, limit))
        } else {
            Ok(
                match stream {
                    Stream::Stdout => RunView { stdout: run.stdout + bytes@, ..run },
                    Stream::Stderr => RunView { stderr: run.stderr + bytes@, ..run },
                },
            )
        },
        StreamEvent::Failed(e) => Err(e@),
    }
}

/// The output never exceeds the limit, both streams together.
pub proof fn output_stays_within_the_limit(
    run: RunView,
    program: Seq<char>,
    limit: usize,
    stream: Stream,
    event: StreamEvent,
)
    requires
        run.stdout.len() + run.stderr.len() <= limit,
    ensures
        after_stream(run, program, limit, stream, event) matches Ok(next) ==> next.stdout.len()
            + next.stderr.len() <= limit,
{
}

fn about_command(program: &str, head: &str) -> (r: String)
    ensures
        r@ == "command `"@ + program@ + head@,
{
    let mut out = text("command `");
    out.append(program);
    out.append(head);
    out
}

/// The error for a command that wrote too much.
pub fn output_limit_error(program: &str, max_output_bytes: usize) -> (r: DaemonError)
    ensures
        r@ == too_much_output(program@, max_output_bytes),
{
    let mut message = about_command(program, "` exceeded combined output limit of ");
    let digits = number(max_output_bytes as u128);
    message.append(digits.as_str());
    message.append(" bytes");
    DaemonError::system(message.as_str())
}

impl CommandRun {
    /// A command that was started.
    pub fn started() -> (r: Self)
        ensures
            r@ == (RunView {
                stdout: seq![],
                stderr: seq![],
                stdout_open: true,
                stderr_open: true,
                status: None,
            }),
    {
        let r = CommandRun {
            stdout: Vec::new(),
            stderr: Vec::new(),
            stdout_open: true,
            stderr_open: true,
            status: None,
        };
        assert(r@ =~= (RunView {
            stdout: seq![],
            stderr: seq![],
            stdout_open: true,
            stderr_open: true,
            status: None,
        }));
        r
    }

    /// Decides what to do next.
    pub fn next_step(&self, program: &str, timeout_ms: u64, remaining_ns: u128) -> (r: RunStep)
        ensures
            r@ == next_step(self@, program@, timeout_ms, remaining_ns),
    {
        if self.status.is_some() && !self.stdout_open && !self.stderr_open {
            return RunStep::Finished;
        }
        if remaining_ns == 0 {
            let mut message = about_command(program, "` timed out after ");
            let digits = number(timeout_ms as u128);
            message.append(digits.as_str());
            message.append(" ms");
            return RunStep::Stop(DaemonError::system(message.as_str()));
        }
        let ms: u128 = remaining_ns / 1_000_000;
        RunStep::Poll(
            if ms >= POLL_INTERVAL_MS as u128 {
                50
            } else if ms == 0 {
                1
            } else {
                ms as i32
            },
        )
    }

    /// Notes that the command ended.
    pub fn ended(&mut self, status: CommandStatus)
        ensures
            final(self)@ == (RunView { status: Some(status), ..old(self)@ }),
    {
        self.status = Some(status);
    }

    /// Takes what a read from a stream gave.
    pub fn read_stream_chunk(
        &mut self,
        program: &str,
        max_output_bytes: usize,
        stream: Stream,
        event: StreamEvent,
    ) -> (r: Result<(), DaemonError>)
        requires
            old(self)@.stdout.len() + old(self)@.stderr.len() <= max_output_bytes,
        ensures
            match after_stream(old(self)@, program@, max_output_bytes, stream, event) {
                Ok(next) => r is Ok && final(self)@ == next,
                Err(error) => r matches Err(e) && e@ == error && final(self)@ == old(self)@,
            },
            final(self)@.stdout.len() + final(self)@.stderr.len() <= max_output_bytes,
    {
        match event {
            StreamEvent::Blocked => Ok(()),
            StreamEvent::End => {
                match stream {
                    Stream::Stdout => {
                        self.stdout_open = false;
                    },
                    Stream::Stderr => {
                        self.stderr_open = false;
                    },
                }
                Ok(())
            },
            StreamEvent::Data(bytes) => {
                let left: usize = max_output_bytes - self.stdout.len() - self.stderr.len();
                if bytes.len() > left {
                    return Err(output_limit_error(program, max_output_bytes));
                }
                match stream {
                    Stream::Stdout => {
                        push_bytes(&mut self.stdout, bytes.as_slice());
                    },
                    Stream::Stderr => {
                        push_bytes(&mut self.stderr, bytes.as_slice());
                    },
                }
                Ok(())
            },
            StreamEvent::Failed(e) => Err(e),
        }
    }

    /// The output of the command, once it ended.
    pub fn finish(self) -> (r: Option<CommandOutput>)
        ensures
            match r {
                Some(o) => self@.status == Some(o.status) && o.stdout@ == self@.stdout && o.stderr@
                    == self@.stderr,
                None => self@.status is None,
            },
    {
        match self.status {
            Some(status) => Some(
                CommandOutput { status, stdout: self.stdout, stderr: self.stderr },
            ),
            None => None,
        }
    }
}

} // verus!
