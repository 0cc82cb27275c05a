use pulsehub::ipc::{
    admits_client, coordinator_wait_ms, dispatch_request, serve_next, serve_next_with, frame_prefix, payload_length, validate_text, AgentSnapshot, DeviceStatus,
    Environment, ErrorBody, ErrorCode, FrameError, ProtocolError, Request, Response, ResponseData, Session,
    MAX_PAYLOAD_BYTES,
};

fn hello() -> Request {
    Request::Hello {
        version: 1,
        request_id: "hello-1".to_owned(),
        supported_versions: vec![1],
        client: "pulsehub-config".to_owned(),
    }
}

#[test]
fn request_names_match_the_documented_wire_format() {
    assert_eq!(Request::GetSnapshot { version: 1, request_id: "42".to_owned() }.wire_name(), "get_snapshot");
}

#[test]
fn frame_round_trips_with_little_endian_length() {
    let prefix = frame_prefix(300).unwrap();
    assert_eq!(prefix, [0x2c, 0x01, 0, 0]);
    assert_eq!(u32::from_le_bytes(prefix) as usize, 300);
    assert_eq!(payload_length(prefix), Ok(300));
}

#[test]
fn rejects_truncated_and_oversized_frames_before_json_decode() {
    let oversized = u32::try_from(MAX_PAYLOAD_BYTES + 1).unwrap().to_le_bytes();
    assert_eq!(
        payload_length(oversized),
        Err(FrameError::PayloadTooLarge { length: MAX_PAYLOAD_BYTES + 1, maximum: MAX_PAYLOAD_BYTES })
    );
    assert_eq!(payload_length([0, 0, 0, 0]), Err(FrameError::EmptyPayload));
}

#[test]
fn writer_rejects_payload_above_limit() {
    assert!(matches!(frame_prefix(MAX_PAYLOAD_BYTES + 1), Err(FrameError::PayloadTooLarge { .. })));
    assert_eq!(frame_prefix(0), Err(FrameError::EmptyPayload));
}

#[test]
fn session_requires_hello_before_other_requests() {
    let snapshot = Request::GetSnapshot { version: 1, request_id: "42".to_owned() };
    let mut session = Session::default();
    assert_eq!(session.accept(&snapshot), Err(ProtocolError::NotNegotiated));
    assert_eq!(session.accept(&hello()), Ok(()));
    assert!(session.is_negotiated());
    assert_eq!(session.accept(&snapshot), Ok(()));
    assert_eq!(session.accept(&hello()), Err(ProtocolError::AlreadyNegotiated));
}

#[test]
fn requests_are_checked_before_negotiation() {
    let mut session = Session::default();
    let wrong_version = Request::GetSnapshot { version: 2, request_id: "1".to_owned() };
    assert_eq!(session.accept(&wrong_version), Err(ProtocolError::UnsupportedVersion { found: 2 }));
    let bad_hello = Request::Hello {
        version: 1,
        request_id: "h".to_owned(),
        supported_versions: vec![2],
        client: "c".to_owned(),
    };
    assert_eq!(
        session.accept(&bad_hello),
        Err(ProtocolError::InvalidField("supported_versions 必须包含当前版本且数量不超过 16".to_owned()))
    );
    assert!(!session.is_negotiated());
}

#[test]
fn text_fields_must_be_short_and_printable() {
    assert_eq!(validate_text("client", "ok", 64), Ok(()));
    assert_eq!(
        validate_text("client", "", 64),
        Err(ProtocolError::InvalidField("client 必须为 1–64 字节且不含控制字符".to_owned()))
    );
    assert!(validate_text("request_id", "a\nb", 128).is_err());
    assert!(validate_text("request_id", &"x".repeat(129), 128).is_err());
}

#[test]
fn response_enforces_ok_data_error_invariant() {
    let success = Response::success("42".to_owned(), ResponseData::SelectedVersion(1));
    assert_eq!(success.validate(), Ok(()));
    let invalid = Response {
        error: Some(ErrorBody { code: ErrorCode::Internal, message: "bad".to_owned(), retryable: false }),
        ..success
    };
    assert_eq!(invalid.validate(), Err(ProtocolError::InvalidEnvelope));
}

#[test]
fn dispatcher_negotiates_and_returns_snapshot() {
    let snapshot = AgentSnapshot {
        device_status: DeviceStatus::Ready,
        active_environment: Environment::Office,
        config_revision: 3,
        current_dpi: Some(1800),
        desired_dpi: 1800,
    };
    let mut session = Session::default();
    let hello_response = dispatch_request(&mut session, &hello(), &snapshot);
    assert!(hello_response.ok);
    assert_eq!(hello_response.data, Some(ResponseData::SelectedVersion(1)));
    let request = Request::GetSnapshot { version: 1, request_id: "snapshot-1".to_owned() };
    let response = dispatch_request(&mut session, &request, &snapshot);
    assert_eq!(response.data, Some(ResponseData::Snapshot(snapshot)));
}

#[test]
fn dispatcher_rejects_snapshot_before_hello() {
    let snapshot = AgentSnapshot {
        device_status: DeviceStatus::Unknown,
        active_environment: Environment::Office,
        config_revision: 0,
        current_dpi: None,
        desired_dpi: 3200,
    };
    let request = Request::GetSnapshot { version: 1, request_id: "too-early".to_owned() };
    let response = dispatch_request(&mut Session::default(), &request, &snapshot);
    assert!(!response.ok);
    assert_eq!(response.error.unwrap().code, ErrorCode::InvalidRequest);
}

#[test]
fn unimplemented_requests_are_answered_as_invalid() {
    let snapshot = AgentSnapshot {
        device_status: DeviceStatus::Ready,
        active_environment: Environment::Cs2,
        config_revision: 1,
        current_dpi: None,
        desired_dpi: 800,
    };
    let mut session = Session::default();
    dispatch_request(&mut session, &hello(), &snapshot);
    let response = serve_next(&mut session, &Request::ApplyNow { version: 1, request_id: "a".to_owned() }, &snapshot)
        .unwrap();
    let error = response.error.unwrap();
    assert_eq!(error.code, ErrorCode::InvalidRequest);
    assert_eq!(error.message, "apply_now 尚未由代理实现");
    let wrong = Request::GetSnapshot { version: 3, request_id: "v".to_owned() };
    let refused = dispatch_request(&mut session, &wrong, &snapshot);
    assert_eq!(refused.error.unwrap().code, ErrorCode::Version);
    assert_eq!(ErrorCode::Conflict.wire_code(), "PH-IPC-CONFLICT");
}

#[test]
fn serving_refuses_malformed_requests_without_touching_the_session() {
    let snapshot = AgentSnapshot {
        device_status: DeviceStatus::Unknown,
        active_environment: Environment::Office,
        config_revision: 0,
        current_dpi: None,
        desired_dpi: 800,
    };
    let mut session = Session::default();
    let bad = Request::Hello {
        version: 1,
        request_id: String::new(),
        supported_versions: vec![1],
        client: "pulsehub-config".to_owned(),
    };
    let error = serve_next(&mut session, &bad, &snapshot).unwrap_err();
    assert!(matches!(error, FrameError::Protocol(ProtocolError::InvalidField(_))));
    assert!(!session.is_negotiated());

    let mut taken = 0;
    let response = serve_next_with(&mut session, &hello(), || {
        taken += 1;
        snapshot
    })
    .unwrap();
    assert!(response.ok);
    assert_eq!(response.data, Some(ResponseData::SelectedVersion(1)));
    assert_eq!(taken, 1);
    assert!(session.is_negotiated());

    let response = serve_next_with(&mut session, &Request::GetSnapshot { version: 1, request_id: "s".to_owned() }, || snapshot)
        .unwrap();
    assert_eq!(response.data, Some(ResponseData::Snapshot(snapshot)));
}

#[test]
fn coordinator_requests_wait_for_their_answer() {
    let apply = Request::ApplyNow { version: 1, request_id: "a".to_owned() };
    assert_eq!(coordinator_wait_ms(true, &apply), Some(15_000));
    assert_eq!(coordinator_wait_ms(false, &apply), None);
    let commit = Request::CommitConfig {
        version: 1,
        request_id: "c".to_owned(),
        base_revision: 3,
        draft: serde_json::Value::Null,
    };
    assert_eq!(coordinator_wait_ms(true, &commit), Some(5_000));
    let snapshot = Request::GetSnapshot { version: 1, request_id: "s".to_owned() };
    assert_eq!(coordinator_wait_ms(true, &snapshot), None);
    assert_eq!(coordinator_wait_ms(true, &hello()), None);
}

#[test]
fn the_agent_serves_at_most_four_clients() {
    assert!(admits_client(0));
    assert!(admits_client(3));
    assert!(!admits_client(4));
}
