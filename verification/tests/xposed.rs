use freezeit_daemon::app::error::{DaemonError, IoKind};
use freezeit_daemon::protocol::xposed::{
    classify_bridge_error, classify_hook_health_payload, encode_frame, parse_foreground_uid_payload,
    parse_frame, HookBridgeStatus, XposedCommand, MAX_PAYLOAD_LEN, MAX_REQUEST_PAYLOAD_LEN,
};
use freezeit_daemon::sys::xposed_bridge::{
    advance_response, append_response_chunk, check_hook_peer, is_authorized_hook_peer_uid,
    parse_set_config_response, query_foreground_uids, query_hook_health, request_text, set_config,
    ResponseEvent, ROOT_UID, SYSTEM_SERVER_UID, XPOSED_RESPONSE_MAX_BYTES,
};

#[test]
fn root_hook_status_is_not_overridden_by_nested_active_hook_status() {
    let payload = r#"{"status":"degraded","system_control_status":"degraded","hooks":[{"status":"active"}]}"#;

    assert!(matches!(
        classify_hook_health_payload(payload),
        HookBridgeStatus::Degraded(_)
    ));
}

#[test]
fn system_control_status_takes_priority_over_aggregate_status() {
    let payload = r#"{"status":"degraded","system_control_status":"active","hooks":[{"status":"degraded"}]}"#;

    assert_eq!(
        classify_hook_health_payload(payload),
        HookBridgeStatus::Active
    );
}

#[test]
fn excessively_nested_hook_health_payload_fails_closed() {
    let nesting = 80;
    let payload = format!(
        "{{\"system_control_status\":\"active\",\"nested\":{}0{}}}",
        "[".repeat(nesting),
        "]".repeat(nesting)
    );

    assert!(matches!(
        classify_hook_health_payload(&payload),
        HookBridgeStatus::Degraded(_)
    ));
}

#[test]
fn rejects_frames_that_the_java_hook_buffer_cannot_accept() {
    let payload = vec![0_u8; 128 * 1024];

    assert!(encode_frame(XposedCommand::SetConfig, &payload).is_err());
}

#[test]
fn request_limit_does_not_shrink_the_legacy_bridge_response_budget() {
    assert_eq!(MAX_REQUEST_PAYLOAD_LEN, 128 * 1024 - 1);
    assert_eq!(MAX_PAYLOAD_LEN, 1024 * 1024);
}

#[test]
fn only_root_or_system_server_can_own_the_hook_bridge() {
    assert!(is_authorized_hook_peer_uid(ROOT_UID));
    assert!(is_authorized_hook_peer_uid(SYSTEM_SERVER_UID));
    assert!(!is_authorized_hook_peer_uid(10_123));
}

#[test]
fn response_reader_rejects_oversized_payloads() {
    let mut response = Vec::new();
    let error = append_response_chunk(&mut response, &vec![0_u8; XPOSED_RESPONSE_MAX_BYTES + 1])
        .expect_err("oversized response must fail");

    assert!(matches!(error, DaemonError::Io(failure) if failure.kind == IoKind::InvalidData));
}

#[test]
fn hook_frames_read_back() {
    let frame = encode_frame(XposedCommand::UpdatePending, &[1, 2, 3]).expect("short payload");
    assert_eq!(frame.len(), 11);
    let parsed = parse_frame(&frame).expect("whole frame");
    assert_eq!(parsed.command, XposedCommand::UpdatePending);
    assert_eq!(parsed.payload, vec![1, 2, 3]);

    assert!(matches!(parse_frame(&frame[..7]), Err(DaemonError::Protocol(_))));
    assert!(matches!(parse_frame(&frame[..10]), Err(DaemonError::Protocol(_))));
    for number in [1, 2, 3, 20, 21, 41, 60, 70, 71, 72] {
        let command = XposedCommand::try_from(1_359_322_925 + number).expect("known command");
        assert_eq!(command.number(), 1_359_322_925 + number);
    }
    assert!(XposedCommand::try_from(0).is_err());
}

#[test]
fn foreground_payload_is_a_counted_list_of_uids() {
    let mut payload = 2_u32.to_le_bytes().to_vec();
    payload.extend_from_slice(&10_123_u32.to_le_bytes());
    payload.extend_from_slice(&10_124_u32.to_le_bytes());
    assert_eq!(
        parse_foreground_uid_payload(&payload).expect("two uids"),
        vec![10_123, 10_124]
    );
    assert!(parse_foreground_uid_payload(&payload[..11]).is_err());
    assert!(parse_foreground_uid_payload(&[1]).is_err());
}

#[test]
fn strangers_on_the_hook_socket_are_refused() {
    assert!(check_hook_peer(0).is_ok());
    assert!(check_hook_peer(10_123).is_err());
}

#[test]
fn hook_replies_are_collected_until_the_end() {
    let mut response = Vec::new();
    assert_eq!(
        advance_response(&mut response, ResponseEvent::Data(vec![1, 2]), false),
        Ok(false)
    );
    assert_eq!(
        advance_response(&mut response, ResponseEvent::Data(vec![3]), false),
        Ok(false)
    );
    assert_eq!(
        advance_response(&mut response, ResponseEvent::End, false),
        Ok(true)
    );
    assert_eq!(response, vec![1, 2, 3]);
    assert!(advance_response(
        &mut response,
        ResponseEvent::Failed(DaemonError::system("reset")),
        false
    )
    .is_err());
}

#[test]
fn set_config_sends_one_frame_and_reads_the_verdict() {
    let mut sent = Vec::new();
    let accepted = set_config(b"text", |bytes| {
        sent = bytes.to_vec();
        Ok(2_i32.to_le_bytes().to_vec())
    });
    assert_eq!(accepted, Ok(true));
    assert_eq!(
        sent,
        encode_frame(XposedCommand::SetConfig, b"text").expect("short payload")
    );
    assert_eq!(parse_set_config_response(&1_i32.to_le_bytes()), Ok(false));
    assert!(parse_set_config_response(&[2, 0, 0]).is_err());
    assert_eq!(
        set_config(b"text", |_| Err(DaemonError::system("closed"))),
        Err(DaemonError::system("closed"))
    );
}

#[test]
fn hook_text_must_be_utf8() {
    let health = query_hook_health(|_| Ok("{\"status\":\"冻\"}".as_bytes().to_vec()));
    assert_eq!(health, Ok("{\"status\":\"冻\"}".to_owned()));

    let broken = request_text(XposedCommand::GetXpLog, b"", |_| Ok(vec![b'a', 0xff]));
    match broken {
        Err(DaemonError::Protocol(message)) => {
            let reason = std::str::from_utf8(&[b'a', 0xff]).unwrap_err().to_string();
            assert!(message.contains(&reason));
        }
        other => panic!("unexpected reply {other:?}"),
    }

    let uids = query_foreground_uids(|_| Ok(0_u32.to_le_bytes().to_vec()));
    assert_eq!(uids, Ok(Vec::new()));
}

#[test]
fn an_absent_bridge_is_missing() {
    assert!(matches!(
        classify_bridge_error(&DaemonError::io(IoKind::NotFound, "No such file or directory")),
        HookBridgeStatus::Missing(_)
    ));
    assert!(HookBridgeStatus::Active.is_ready_for_control());
    assert!(!HookBridgeStatus::Degraded("late".to_owned()).is_ready_for_control());
}
