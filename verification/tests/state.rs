use central_api_lib::endpoints::download::begin_file_request;
use central_api_lib::endpoints::upload::begin_upload;
use central_api_lib::endpoints::util::{abandon_request, wait_result, Wait};
use central_api_lib::endpoints::websockets::{
    already_authenticated_body, complete_authentication, connect_websocket, AgentMessage,
    ConnectOutcome, ErrorKind, InternalComm,
};
use central_api_lib::state::{expired, State};

fn fresh() -> State<&'static str, &'static str> {
    State::new(String::from("https://localhost:8080"), 0)
}

#[test]
fn expiry_counts_whole_seconds_strictly_after_the_timeout() {
    assert!(!expired(0, 3999, 3));
    assert!(expired(0, 4000, 3));
    assert!(!expired(5000, 1000, 0));
    assert!(expired(1000, 2000, 0));
}

#[test]
fn uptime_is_whole_seconds_since_start() {
    let s: State<(), ()> = State::new(String::new(), 1000);
    assert_eq!(s.uptime(62_999), 61);
    assert_eq!(s.uptime(500), 0);
}

#[test]
fn test_old_unauth_servers_removed() {
    let mut state = fresh();
    let id = 42;
    let out = connect_websocket(&mut state, id, "socket", 1_000);
    assert_eq!(out, ConnectOutcome::Accepted(AgentMessage::AuthReq { public_id: id }));
    assert!(state.unauthenticated_servers.contains_key(&id));

    // two seconds later nothing has expired yet
    assert!(state.sweep_expired(3_000, 3, 3).is_empty());
    assert!(state.unauthenticated_servers.contains_key(&id));

    // six seconds after connecting, with a three second timeout, the agent is closed
    let closed = state.sweep_expired(7_000, 3, 3);
    assert_eq!(closed, vec!["socket"]);
    assert!(!state.unauthenticated_servers.contains_key(&id));
}

#[test]
fn test_old_requests_removed() {
    let mut state = fresh();
    let agent_id = 77;
    state.servers.insert(agent_id, "agent");
    // the client asks for file 24: the agent is told where to upload it
    let (upload_id, message) =
        begin_file_request(&mut state, agent_id, 24, "client", 10_000).expect("agent is online");
    assert_eq!(
        message,
        AgentMessage::UploadTo {
            file_id: 24,
            upload_url: format!("https://localhost:8080/upload/{upload_id}"),
        }
    );
    assert!(state.requests.contains_key(&upload_id));

    // the agent never uploads: the wait times out and the client gets a 404
    assert_eq!(wait_result::<Vec<u8>>(Wait::TimedOut), Err(404));
    let (was_there, to_agent) = abandon_request(&mut state, upload_id);
    assert!(was_there);
    assert!(!state.requests.contains_key(&upload_id));
    // the agent is told that its upload failed
    assert_eq!(
        to_agent,
        InternalComm::SendMessage(AgentMessage::Error {
            kind: ErrorKind::FailedFileUpload,
            reason: Some(String::from("failed to upload in time")),
        })
    );

    // uploading now is answered with 404
    assert_eq!(begin_upload(&mut state, upload_id), Err(404));
}

#[test]
fn sweep_removes_old_requests() {
    let mut state = fresh();
    state.servers.insert(9, "agent");
    let id = state.open_request(9, "client", 10_000).expect("agent is online");
    assert!(state.requests.contains_key(&id));
    assert!(state.sweep_expired(13_500, 3, 3).is_empty());
    assert!(state.requests.contains_key(&id));
    state.sweep_expired(15_000, 3, 3);
    assert!(!state.requests.contains_key(&id));
    // the agent uploading now finds nothing
    assert_eq!(state.take_request(&id), None);
}

#[test]
fn sweep_stops_at_the_first_live_entry() {
    let mut state = fresh();
    connect_websocket(&mut state, 1, "a", 0);
    connect_websocket(&mut state, 2, "b", 2_000);
    connect_websocket(&mut state, 3, "c", 9_000);
    let closed = state.sweep_expired(10_000, 3, 3);
    assert_eq!(closed, vec!["a", "b"]);
    assert_eq!(state.unauthenticated_servers.keys(), vec![3]);
}

#[test]
fn offline_agents_get_no_requests() {
    let mut state = fresh();
    assert_eq!(state.open_request(5, "client", 0), None);
    assert_eq!(state.requests.len(), 0);
}

#[test]
fn test_websocket_auth_invalid_login() {
    let mut state = fresh();
    connect_websocket(&mut state, 11, "socket", 0);
    let sends = complete_authentication(&mut state, 11, Ok(false));
    assert_eq!(
        sends,
        vec![
            InternalComm::SendMessage(AgentMessage::Error {
                kind: ErrorKind::InvalidSession,
                reason: Some(String::from("failed authentication")),
            }),
            InternalComm::CloseConnection,
        ]
    );
    assert!(state.unauthenticated_servers.contains_key(&11));
    assert!(!state.is_online(&11));
}

#[test]
fn test_websocket_auth_double_login() {
    let mut state = fresh();
    connect_websocket(&mut state, 12, "first", 0);
    let sends = complete_authentication(&mut state, 12, Ok(true));
    assert_eq!(
        sends,
        vec![InternalComm::SendMessage(AgentMessage::Acknowledge), InternalComm::Authenticated]
    );
    assert!(state.is_online(&12));
    assert!(!state.unauthenticated_servers.contains_key(&12));

    // a second login with the same id is refused
    assert_eq!(connect_websocket(&mut state, 12, "second", 10), ConnectOutcome::Forbidden);
    assert!(already_authenticated_body().contains("already authenticated with this id"));
    assert_eq!(state.server(&12), Some(&"first"));

    // once the first socket has gone, a new login succeeds
    assert_eq!(state.remove_server(&12), Some("first"));
    assert_eq!(
        connect_websocket(&mut state, 12, "second", 20),
        ConnectOutcome::Accepted(AgentMessage::AuthReq { public_id: 12 })
    );
}

#[test]
fn authentication_of_a_vanished_agent_changes_nothing() {
    let mut state = fresh();
    assert!(complete_authentication(&mut state, 5, Ok(true)).is_empty());
    assert!(!state.is_online(&5));
    assert!(complete_authentication(
        &mut state,
        5,
        Err(central_api_lib::db::DbBackendError::AlreadyExist)
    )
    .is_empty());
}

#[test]
fn new_entries_are_stamped_with_the_time_given() {
    let mut state = fresh();
    connect_websocket(&mut state, 5, "socket", 2_500);
    let (k, _, t) = state.unauthenticated_servers.front_with_time().unwrap();
    assert_eq!((k, t), (5, 2_500));
    state.servers.insert(6, "agent");
    let id = state.open_request(6, "client", 4_000).unwrap();
    let (k, _, t) = state.requests.front_with_time().unwrap();
    assert_eq!((k, t), (id, 4_000));
    // outlived by more than three whole seconds: both are swept
    let closed = state.sweep_expired(8_000, 3, 3);
    assert_eq!(closed, vec!["socket"]);
    assert!(!state.unauthenticated_servers.contains_key(&5));
    assert!(!state.requests.contains_key(&id));
}
