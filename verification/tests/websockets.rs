use central_api_lib::db::MockDB;
use central_api_lib::endpoints::websockets::{
    complete_authentication, connect_websocket, metadata_body, status_body, to_be_bytes,
    AgentMessage, Authentication, ConnectOutcome, ErrorKind, Frame, FrameAction, InternalComm,
    Received, StopDecision, TickAction, WsHandler, WsState,
};
use central_api_lib::state::State;

fn unknown_message_reject() -> FrameAction {
    FrameAction::Reject {
        message: AgentMessage::Error {
            kind: ErrorKind::Unknown,
            reason: Some(String::from("Got unknown message")),
        },
        description: String::from("Got unknown message"),
    }
}

#[test]
fn big_endian_ping_payloads() {
    assert_eq!(to_be_bytes(0), vec![0, 0, 0, 0, 0, 0, 0, 0]);
    assert_eq!(to_be_bytes(0x0102030405060708), vec![1, 2, 3, 4, 5, 6, 7, 8]);
}

#[test]
fn ping_ticks_advance_the_counter() {
    let mut h = WsHandler::new(3);
    assert_eq!(h.on_ping_tick(), vec![0, 0, 0, 0, 0, 0, 0, 0]);
    assert_eq!(h.on_ping_tick(), vec![0, 0, 0, 0, 0, 0, 0, 1]);
    assert_eq!(h.pinger, 2);
    // the pong of the last ping is accepted, an older one is not
    assert_eq!(h.on_frame(Frame::Pong(vec![0, 0, 0, 0, 0, 0, 0, 1])), FrameAction::Nothing);
    assert!(matches!(
        h.on_frame(Frame::Pong(vec![0, 0, 0, 0, 0, 0, 0, 0])),
        FrameAction::PingFailed { .. }
    ));
}

#[test]
fn test_failed_ping_kicked() {
    let mut h = WsHandler::new(7);
    let _ = h.on_ping_tick();
    match h.on_frame(Frame::Pong(vec![255])) {
        FrameAction::PingFailed { message: AgentMessage::Error { kind, reason } } => {
            assert_eq!(kind, ErrorKind::Unknown);
            assert!(reason.unwrap().contains("failed to respond to ping"));
        }
        other => panic!("expected a ping failure, got {:?}", other),
    }
}

#[test]
fn frames_while_running() {
    let h = WsHandler::new(1);
    assert_eq!(h.on_frame(Frame::Ping(vec![1, 2, 3])), FrameAction::Pong(vec![1, 2, 3]));
    assert_eq!(h.on_frame(Frame::Close), FrameAction::Finish);
    assert_eq!(h.on_frame(Frame::ProtocolError), FrameAction::Finish);
    assert_eq!(h.on_frame(Frame::Undecodable), FrameAction::LogUndecodable);
    assert_eq!(h.on_frame(Frame::Other), unknown_message_reject());
    assert_eq!(h.on_frame(Frame::Message(AgentMessage::Acknowledge)), FrameAction::Nothing);
    assert_eq!(
        h.on_frame(Frame::Message(AgentMessage::AuthReq { public_id: 4 })),
        unknown_message_reject()
    );
    assert_eq!(
        h.on_frame(Frame::Message(AgentMessage::AuthRes { public_id: 4, passcode: vec![9] })),
        FrameAction::Validate { public_id: 4, passcode: vec![9] }
    );
    assert_eq!(
        h.on_frame(Frame::Message(AgentMessage::Error {
            kind: ErrorKind::FailedFileUpload,
            reason: None
        })),
        FrameAction::LogAgentError { kind: ErrorKind::FailedFileUpload, reason: None }
    );
}

#[test]
fn frames_are_ignored_unless_running() {
    let mut h = WsHandler::new(1);
    assert_eq!(h.on_stopping(), StopDecision::BeginShutdown);
    assert_eq!(h.ws_state, WsState::Stopping);
    assert_eq!(h.on_frame(Frame::Ping(vec![1])), FrameAction::Ignore);
    assert_eq!(h.on_stopping(), StopDecision::Continue);
    assert_eq!(h.on_internal(Received::Message(InternalComm::ShutDownComplete)), TickAction::Nothing);
    assert_eq!(h.ws_state, WsState::Stopped);
    assert_eq!(h.on_internal(Received::Message(InternalComm::CloseConnection)), TickAction::Nothing);
    assert_eq!(h.on_stopping(), StopDecision::Stop);
}

#[test]
fn internal_messages() {
    let mut h = WsHandler::new(1);
    assert_eq!(h.on_internal(Received::Empty), TickAction::Nothing);
    assert_eq!(h.on_internal(Received::Disconnected), TickAction::Close);
    assert_eq!(h.on_internal(Received::Message(InternalComm::CloseConnection)), TickAction::Close);
    assert_eq!(
        h.on_internal(Received::Message(InternalComm::SendMessage(AgentMessage::Acknowledge))),
        TickAction::Write(AgentMessage::Acknowledge)
    );
    assert_eq!(h.authentication, Authentication::Unauthenticated);
    assert_eq!(h.on_internal(Received::Message(InternalComm::Authenticated)), TickAction::Nothing);
    assert_eq!(h.authentication, Authentication::Authenticated);
}

#[test]
fn metadata_response_body_layout() {
    let body = metadata_body(24, 100, 50, 12, "alice", "notes.txt");
    let ind = " ".repeat(40);
    let expected = format!(
        "{{\n{ind}\"file_id\":24,\n{ind}\"exp\": 100,\n{ind}\"crt\": 50,\n{ind}\"file_size\": 12,\n{ind}\"username\": \"alice\",\n{ind}\"file_name\": \"notes.txt\"\n{}}}",
        " ".repeat(36)
    );
    assert_eq!(body, expected);
    let v: serde_json::Value = serde_json::from_str(&body).unwrap();
    assert_eq!(v["file_name"].as_str(), Some("notes.txt"));
    assert_eq!(v["file_size"].as_u64(), Some(12));
}

#[test]
fn test_status_request() {
    let h = WsHandler::new(77);
    let action = h.on_frame(Frame::Message(AgentMessage::StatusRes {
        public_id: 77,
        ready: true,
        uptime: 1230,
        upload_id: 5,
        message: Some(String::from("hello, world - I'm alive!")),
    }));
    match action {
        FrameAction::Forward { upload_id, body } => {
            assert_eq!(upload_id, 5);
            let v: serde_json::Value = serde_json::from_str(&body).unwrap();
            assert_eq!(v["ready"].as_bool(), Some(true));
            assert_eq!(v["uptime"].as_u64(), Some(1230));
            assert_eq!(v["message"].as_str(), Some("hello, world - I'm alive!"));
            assert_eq!(v["public_id"].as_str(), Some("77"));
        }
        other => panic!("expected a forwarded status, got {:?}", other),
    }
    let empty = status_body(1, false, 0, None);
    assert!(empty.contains("\"ready\": false"));
    assert!(empty.contains("\"message\": \"\""));
}

/// Connect, authenticate against the store, and check where the agent is recorded.
fn connect_and_authenticate(
    state: &mut State<&'static str, &'static str>,
    db: &MockDB,
    id: u64,
    passcode: &[u8],
) -> Vec<InternalComm> {
    assert_eq!(
        connect_websocket(state, id, "socket", 0),
        ConnectOutcome::Accepted(AgentMessage::AuthReq { public_id: id })
    );
    assert!(state.unauthenticated_servers.contains_key(&id));
    let handler = WsHandler::new(id);
    match handler.on_frame(Frame::Message(AgentMessage::AuthRes {
        public_id: id,
        passcode: passcode.to_vec(),
    })) {
        FrameAction::Validate { public_id, passcode } => {
            let verdict = db.validate_server(&public_id, &passcode);
            complete_authentication(state, public_id, verdict)
        }
        other => panic!("expected credentials to validate, got {:?}", other),
    }
}

#[test]
fn websockets_test_websocket_auth() {
    let mut db = MockDB::new();
    db.save_entry(900, b"secret".to_vec()).unwrap();
    assert_eq!(db.contains_entry(&900), Ok(true));
    let mut state = State::new(String::from("https://localhost:8080"), 0);
    let sends = connect_and_authenticate(&mut state, &db, 900, b"secret");
    assert_eq!(
        sends,
        vec![InternalComm::SendMessage(AgentMessage::Acknowledge), InternalComm::Authenticated]
    );
    assert!(!state.unauthenticated_servers.contains_key(&900));
    assert!(state.is_online(&900));
    let h = WsHandler::new(900);
    assert_eq!(h.on_frame(Frame::Ping(vec![1, 2, 3])), FrameAction::Pong(vec![1, 2, 3]));
    assert_eq!(h.on_frame(Frame::Close), FrameAction::Finish);
}

#[test]
fn test_websocket_auth_test_websocket_auth() {
    let mut db = MockDB::new();
    db.save_entry(1, b"pass".to_vec()).unwrap();
    let mut state = State::new(String::new(), 0);
    let sends = connect_and_authenticate(&mut state, &db, 1, b"pass");
    assert_eq!(sends.len(), 2);
    assert!(state.is_online(&1));
}

#[test]
fn test_websocket_auth_failure() {
    let mut db = MockDB::new();
    db.save_entry(5, b"right".to_vec()).unwrap();
    let mut state = State::new(String::new(), 0);
    let sends = connect_and_authenticate(&mut state, &db, 5, b"invalid");
    assert_eq!(
        sends,
        vec![
            InternalComm::SendMessage(AgentMessage::Error {
                kind: ErrorKind::InvalidSession,
                reason: Some(String::from("failed authentication")),
            }),
            InternalComm::CloseConnection,
        ]
    );
    assert!(!state.is_online(&5));
}

#[test]
fn stopped_session_leaves_its_queue_alone() {
    let mut h = WsHandler::new(7);
    assert!(h.polls_internal());
    assert_eq!(h.on_stopping(), StopDecision::BeginShutdown);
    assert!(h.polls_internal());
    h.on_internal(Received::Message(InternalComm::ShutDownComplete));
    assert_eq!(h.ws_state, WsState::Stopped);
    assert!(!h.polls_internal());
}
