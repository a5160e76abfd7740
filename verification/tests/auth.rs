use central_api_lib::db::{DbBackendError, MockDB};
use central_api_lib::endpoints::auth::{
    authorize, register_begin, register_on_check, register_on_restore, register_on_save,
    registration_body, AuthHeader, RegisterAction, RegisterReply, PASSCODE_LEN,
};

/// Runs a registration against the in-memory store.
fn register(db: &mut MockDB, password: Option<&str>, header: &AuthHeader) -> RegisterReply {
    let mut action = register_begin(password, header);
    loop {
        action = match action {
            RegisterAction::CheckId(id) => register_on_check(id, db.contains_entry(&id)),
            RegisterAction::Save(id, passcode) => {
                let previous = db.save_entry(id, passcode.clone());
                register_on_save(id, &passcode, previous)
            }
            RegisterAction::Restore(id, previous) => {
                return register_on_restore(db.save_entry(id, previous));
            }
            RegisterAction::Reply(reply) => return reply,
        };
    }
}

fn parse_body(body: &str) -> (u64, String) {
    let v: serde_json::Value = serde_json::from_str(body).expect("unabel to parse from json");
    (
        v["public_id"].as_u64().expect("a numeric id"),
        v["passcode"].as_str().expect("a passcode").to_string(),
    )
}

#[test]
fn auth_test_registering_api() {
    const CONVERSION_COUNT: u64 = 100_000;
    let mut db = MockDB::new();
    let mut keys = Vec::with_capacity(CONVERSION_COUNT as usize);
    for _ in 0..CONVERSION_COUNT {
        let reply = register(&mut db, None, &AuthHeader::Missing);
        assert_eq!(reply.status(), 201);
        match reply {
            RegisterReply::Created(body) => keys.push(parse_body(&body)),
            other => panic!("registered properly: {:?}", other),
        }
    }
    for (id, passcode) in &keys {
        assert!(db.validate_server(id, passcode.as_bytes()).expect("able to login"));
    }
}

#[test]
fn test_should_fail_unauthorized() {
    let mut db = MockDB::new();
    // no password
    let reply = register(&mut db, Some("password"), &AuthHeader::Missing);
    assert_eq!(reply, RegisterReply::Unauthorized);
    assert_eq!(reply.status(), 401);
    // invalid password
    let reply = register(
        &mut db,
        Some("password"),
        &AuthHeader::Text(String::from("Basic invalid")),
    );
    assert_eq!(reply.status(), 401);
}

#[test]
fn test_should_succeed_authorized() {
    let mut db = MockDB::new();
    let reply = register(
        &mut db,
        Some("password"),
        &AuthHeader::Text(String::from("Basic password")),
    );
    assert_eq!(reply.status(), 201);
}

#[test]
fn header_that_is_not_text_is_a_bad_request() {
    assert_eq!(authorize(Some("pw"), &AuthHeader::NotText), Some(RegisterReply::BadRequest));
    assert_eq!(authorize(None, &AuthHeader::NotText), None);
    assert_eq!(authorize(Some("pw"), &AuthHeader::Text(String::from("Basic pw"))), None);
    assert_eq!(
        authorize(Some("pw"), &AuthHeader::Text(String::from("basic pw"))),
        Some(RegisterReply::Unauthorized)
    );
}

#[test]
fn registration_body_is_exact() {
    assert_eq!(
        registration_body(1234, b"abcXYZ09"),
        "{\"public_id\":1234,\"passcode\":\"abcXYZ09\"}"
    );
}

#[test]
fn fresh_id_gets_an_alphanumeric_passcode() {
    match register_on_check(17, Ok(false)) {
        RegisterAction::Save(id, passcode) => {
            assert_eq!(id, 17);
            assert_eq!(passcode.len(), PASSCODE_LEN);
            assert!(passcode.iter().all(|b| b.is_ascii_alphanumeric()));
        }
        other => panic!("expected a save, got {:?}", other),
    }
    assert!(matches!(register_on_check(17, Ok(true)), RegisterAction::CheckId(_)));
    assert_eq!(
        register_on_check(17, Err(DbBackendError::QueryFailed(String::from("x")))),
        RegisterAction::Reply(RegisterReply::InternalServerError)
    );
}

#[test]
fn a_taken_id_is_restored_and_refused() {
    assert_eq!(
        register_on_save(3, b"new", Ok(Some(b"old".to_vec()))),
        RegisterAction::Restore(3, b"old".to_vec())
    );
    assert_eq!(register_on_restore(Ok(Some(b"new".to_vec()))), RegisterReply::InternalServerError);
    assert_eq!(
        register_on_save(3, b"new", Err(DbBackendError::AlreadyExist)),
        RegisterAction::Reply(RegisterReply::InternalServerError)
    );
    assert_eq!(RegisterReply::BadRequest.status(), 400);
    assert_eq!(RegisterReply::InternalServerError.status(), 500);
}
