use freezeit_daemon::app::command_runner::{
    CommandRun, CommandStatus, RunStep, Stream, StreamEvent, COMMAND_TIMEOUT_MS, MAX_OUTPUT_BYTES,
};
use freezeit_daemon::app::error::DaemonError;

const ENDED: CommandStatus = CommandStatus {
    success: true,
    code: Some(0),
};

#[test]
fn returns_system_error_when_child_exceeds_timeout() {
    let run = CommandRun::started();
    assert!(matches!(
        run.next_step("sh", 50, 50_000_000),
        RunStep::Poll(50)
    ));
    let RunStep::Stop(error) = run.next_step("sh", 50, 0) else {
        panic!("long-running child must time out");
    };

    assert!(matches!(
        error,
        DaemonError::System(message) if message.contains("timed out")
    ));
}

#[test]
fn returns_system_error_when_child_exceeds_output_limit() {
    let mut run = CommandRun::started();
    let error = run
        .read_stream_chunk(
            "sh",
            8,
            Stream::Stdout,
            StreamEvent::Data(b"123456789".to_vec()),
        )
        .expect_err("oversized child output must be rejected");

    assert!(matches!(
        error,
        DaemonError::System(message) if message.contains("output limit")
    ));
}

#[test]
fn returns_system_error_when_combined_stream_output_exceeds_limit() {
    let mut run = CommandRun::started();
    run.read_stream_chunk(
        "sh",
        8,
        Stream::Stdout,
        StreamEvent::Data(b"12345678".to_vec()),
    )
    .expect("output up to the limit");
    let error = run
        .read_stream_chunk("sh", 8, Stream::Stderr, StreamEvent::Data(b"9".to_vec()))
        .expect_err("combined stdout and stderr output must be rejected");

    assert!(matches!(
        error,
        DaemonError::System(message) if message.contains("output limit")
    ));
}

#[test]
fn drains_large_stdout_and_stderr_without_deadlock() {
    let mut run = CommandRun::started();
    for _ in 0..2048 {
        for stream in [Stream::Stdout, Stream::Stderr] {
            run.read_stream_chunk(
                "sh",
                MAX_OUTPUT_BYTES,
                stream,
                StreamEvent::Data(vec![b'0'; 4096]),
            )
            .expect("output within the limit");
        }
    }
    run.ended(ENDED);
    assert!(matches!(
        run.next_step("sh", COMMAND_TIMEOUT_MS, 1),
        RunStep::Poll(_)
    ));
    for stream in [Stream::Stdout, Stream::Stderr] {
        run.read_stream_chunk("sh", MAX_OUTPUT_BYTES, stream, StreamEvent::End)
            .expect("end of output");
    }
    assert!(matches!(
        run.next_step("sh", COMMAND_TIMEOUT_MS, 0),
        RunStep::Finished
    ));
    let output = run.finish().expect("command completes");

    assert!(output.status.success);
    assert_eq!(output.stdout.len(), 2048 * 4096);
    assert_eq!(output.stderr.len(), 2048 * 4096);
}

#[test]
fn a_failed_read_ends_the_command() {
    let mut run = CommandRun::started();
    assert!(run
        .read_stream_chunk("sh", 8, Stream::Stdout, StreamEvent::Blocked)
        .is_ok());
    assert_eq!(
        run.read_stream_chunk(
            "sh",
            8,
            Stream::Stdout,
            StreamEvent::Failed(DaemonError::system("broken pipe")),
        ),
        Err(DaemonError::system("broken pipe"))
    );
    assert!(run.finish().is_none());
}
