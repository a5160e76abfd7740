use central_api_lib::endpoints::download::{
    begin_file_request, begin_metadata_request, not_connected_body, upload_url,
};
use central_api_lib::endpoints::info::{
    agent_not_found_message, begin_status_request, not_text_payload_message, ready_message,
    status_payload_text, STATUS_PAYLOAD_LIMIT,
};
use central_api_lib::endpoints::upload::{begin_upload, upload_reply};
use central_api_lib::endpoints::util::{
    abandon_request, wait_result, ByteCollector, ChunkOutcome, Wait,
};
use central_api_lib::endpoints::websockets::{AgentMessage, ErrorKind, InternalComm};
use central_api_lib::state::State;

fn online_state(server_id: u64) -> State<&'static str, &'static str> {
    let mut state = State::new(String::from("https://localhost:8080"), 0);
    state.servers.insert(server_id, "agent");
    state
}

#[test]
fn test_download() {
    let server_id = 45;
    let file_id = 34;
    let mut state = online_state(server_id);
    let (id, message) =
        begin_file_request(&mut state, server_id, file_id, "client", 10).expect("agent online");
    match message {
        AgentMessage::UploadTo { file_id: f, upload_url } => {
            assert_eq!(f, file_id);
            assert!(upload_url.contains(&format!("{id}")));
            assert_eq!(upload_url, format!("https://localhost:8080/upload/{id}"));
        }
        other => panic!("sent no message, or wrong message: {:?}", other),
    }
    assert!(state.requests.contains_key(&id));
    // the agent uploads: the waiting client receives the bytes
    assert_eq!(begin_upload(&mut state, id), Ok("client"));
    assert_eq!(wait_result(Wait::Data(b"some test data".to_vec())), Ok(b"some test data".to_vec()));
}

#[test]
fn test_download_disconnected() {
    let mut state: State<&str, &str> = State::new(String::from("https://localhost:8080"), 0);
    assert_eq!(begin_file_request(&mut state, 45, 34, "client", 0), None);
    assert_eq!(
        not_connected_body(),
        "requested resource not found, the server may not be connected"
    );
}

#[test]
fn test_metadata() {
    let mut state = online_state(45);
    let (id, message) = begin_metadata_request(&mut state, 45, 34, "client", 0).unwrap();
    assert_eq!(message, AgentMessage::MetadataReq { file_id: 34, upload_id: id });
    assert_eq!(state.requests.keys(), vec![id]);
}

#[test]
fn test_metadata_disconnected() {
    let mut state: State<&str, &str> = State::new(String::new(), 0);
    assert_eq!(begin_metadata_request(&mut state, 45, 34, "client", 0), None);
    assert_eq!(state.requests.len(), 0);
}

#[test]
fn test_upload() {
    let upload_id = 33;
    let mut state: State<&str, &str> = State::new(String::from("https://localhost:8080"), 0);
    state.requests.insert(upload_id, "waiting client", 0);
    assert_eq!(begin_upload(&mut state, upload_id), Ok("waiting client"));
    assert_eq!(upload_reply(true), (200, "successfully uploaded"));
    // a second upload for the same id finds nothing
    assert_eq!(begin_upload(&mut state, upload_id), Err(404));
    assert_eq!(upload_reply(false), (500, "upload failed"));
}

#[test]
fn test_full_file_transmission() {
    let mut state = online_state(8);
    let (id, _) = begin_file_request(&mut state, 8, 24, "client", 0).unwrap();
    let tx = begin_upload(&mut state, id).unwrap();
    assert_eq!(tx, "client");
    let mut collector = ByteCollector::new(b"hello, ".to_vec(), None);
    assert_eq!(collector.push(Ok(b"world".to_vec())), ChunkOutcome::Continue);
    assert_eq!(collector.finish(), b"hello, world".to_vec());
}

#[test]
fn test_file_download() {
    let mut state = online_state(3);
    let (id, message) = begin_file_request(&mut state, 3, 24, "client", 0).unwrap();
    assert_eq!(
        message,
        AgentMessage::UploadTo { file_id: 24, upload_url: upload_url("https://localhost:8080", id) }
    );
}

#[test]
fn waiting_outcomes() {
    assert_eq!(wait_result::<u8>(Wait::Closed), Err(404));
    assert_eq!(wait_result::<u8>(Wait::TimedOut), Err(404));
    assert_eq!(wait_result::<u8>(Wait::ChunkError), Err(408));
}

#[test]
fn abandoned_requests_are_removed_and_reported() {
    let mut state = online_state(1);
    let (id, _) = begin_metadata_request(&mut state, 1, 2, "client", 0).unwrap();
    let (was_there, message) = abandon_request(&mut state, id);
    assert!(was_there);
    assert_eq!(
        message,
        InternalComm::SendMessage(AgentMessage::Error {
            kind: ErrorKind::FailedFileUpload,
            reason: Some(String::from("failed to upload in time")),
        })
    );
    assert!(!state.requests.contains_key(&id));
    let (was_there, _) = abandon_request(&mut state, id);
    assert!(!was_there);
}

#[test]
fn collecting_respects_the_limit() {
    let mut c = ByteCollector::new(vec![1, 2, 3], Some(4));
    assert_eq!(c.push(Ok(vec![4])), ChunkOutcome::Continue);
    assert_eq!(
        c.push(Ok(vec![5])),
        ChunkOutcome::TooLarge {
            message: InternalComm::SendMessage(AgentMessage::Error {
                kind: ErrorKind::FailedFileUpload,
                reason: Some(String::from("file too large")),
            })
        }
    );
    let mut c = ByteCollector::new(vec![1, 2, 3, 4, 5, 6], Some(4));
    assert_eq!(c.push(Err(())), ChunkOutcome::Failed);
    assert_eq!(c.finish(), vec![1, 2, 3, 4, 5, 6]);
    assert_eq!(STATUS_PAYLOAD_LIMIT, 2_000_000);
}

#[test]
fn status_requests_and_payloads() {
    let mut state = online_state(6);
    let (id, m) = begin_status_request(&mut state, 6, "client", 0).unwrap();
    assert_eq!(m, AgentMessage::StatusReq { public_id: 6, upload_id: id });
    assert_eq!(begin_status_request(&mut state, 7, "client", 0), None);
    assert_eq!(status_payload_text(b"{\"ready\":true}".to_vec()), Some(String::from("{\"ready\":true}")));
    assert_eq!(status_payload_text(vec![0xff, 0xfe]), None);
    assert_eq!(agent_not_found_message(), "agent not found, or not authenticated");
    assert_eq!(not_text_payload_message(), "failed to convert payload to string");
    assert_eq!(ready_message(), "ready");
}

#[test]
fn requests_keep_the_server_address_and_start() {
    let mut state = online_state(9);
    state.start_time = 1234;
    let (id, _) = begin_file_request(&mut state, 9, 1, "client", 2000).expect("agent online");
    let (sid, _) = begin_status_request(&mut state, 9, "status client", 2500).expect("agent online");
    assert_eq!(begin_upload(&mut state, id), Ok("client"));
    assert_eq!(begin_upload(&mut state, sid), Ok("status client"));
    assert_eq!(begin_upload(&mut state, id), Err(404));
    assert_eq!(state.base_url, "https://localhost:8080");
    assert_eq!(state.start_time, 1234);
}
