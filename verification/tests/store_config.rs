use central_api_lib::common::{get_random_hex, hash};
use central_api_lib::config::{
    bind_error_message, parse_address, parse_decimal, parse_ipv4_address, parse_settings,
};
use central_api_lib::db::{
    bytes_equal, db_public_id, hash_passcode, secure_key_matches, validate_against,
    DbBackendError, MockDB,
};
use central_api_lib::error::HttpError;
use central_api_lib::models::NewAgent;
use central_api_lib::structs::{Agent, AgentRequest, AgentUpdateRequest};
use central_api_lib::text::{to_hex_lower, u64_to_decimal};

#[test]
fn mock_store_reads_back_writes() {
    let mut db = MockDB::new();
    assert_eq!(db.contains_entry(&4), Ok(false));
    assert_eq!(db.save_entry(4, b"one".to_vec()), Ok(None));
    assert_eq!(db.validate_server(&4, b"one"), Ok(true));
    assert_eq!(db.validate_server(&4, b"two"), Ok(false));
    assert_eq!(db.validate_server(&5, b"one"), Ok(false));
    assert_eq!(db.save_entry(4, b"two".to_vec()), Ok(Some(b"one".to_vec())));
    assert_eq!(db.validate_server(&4, b"two"), Ok(true));
    assert_eq!(db.update_last_seen(&4), Ok(()));
    assert_eq!(db.close(), Ok(()));
}

#[test]
fn passcodes_are_stored_hashed() {
    let key = hash_passcode(b"abc");
    assert_eq!(
        to_hex_lower(&key),
        "ba7816bf8f01cfea414140de5dae2223b00361a396177a9cb410ff61f20015ad"
    );
    assert!(secure_key_matches(&key, b"abc"));
    assert!(!secure_key_matches(&key, b"abd"));
    assert!(validate_against(&vec![key.clone()], b"abc"));
    assert!(!validate_against(&vec![], b"abc"));
    let row = NewAgent::from_registration(u64::MAX, b"abc", 1_700_000_000);
    assert_eq!(row.public_id, -1);
    assert_eq!(row.secure_key, key);
    assert_eq!(row.last_seen, 1_700_000_000);
    assert_eq!(db_public_id(5), 5);
    assert!(bytes_equal(b"xy", b"xy"));
    assert!(!bytes_equal(b"xy", b"x"));
}

#[test]
fn error_texts() {
    assert_eq!(DbBackendError::AlreadyExist.message(), "entry already exists");
    assert_eq!(
        DbBackendError::NoConnectionAvailable(String::from("e")).message(),
        "connection is unavailable due to error: e"
    );
    assert_eq!(
        DbBackendError::QueryFailed(String::from("q")).message(),
        "query failed due to error: q"
    );
    assert_eq!(
        DbBackendError::InitFailed(String::from("i")).message(),
        "initalise database failed due to error: i"
    );
    let e = HttpError::from_db_error(DbBackendError::AlreadyExist);
    assert_eq!(e, HttpError::Other(String::from("entry already exists")));
    assert_eq!(e.message(), "an error occured: entry already exists");
}

#[test]
fn decimal_numbers() {
    assert_eq!(u64_to_decimal(0), "0");
    assert_eq!(u64_to_decimal(18446744073709551615), "18446744073709551615");
    assert_eq!(parse_decimal("+42", u64::MAX), Some(42));
    assert_eq!(parse_decimal("18446744073709551615", u64::MAX), Some(u64::MAX));
    assert_eq!(parse_decimal("18446744073709551616", u64::MAX), None);
    assert_eq!(parse_decimal("65536", 65535), None);
    assert_eq!(parse_decimal("", 10), None);
    assert_eq!(parse_decimal("+", 10), None);
    assert_eq!(parse_decimal("-1", 10), None);
    assert_eq!(parse_decimal("1a", 10), None);
    for n in [0u64, 7, 10, 99, 123456789] {
        assert_eq!(parse_decimal(&u64_to_decimal(n), u64::MAX), Some(n));
    }
}

#[test]
fn ipv4_addresses() {
    assert_eq!(parse_ipv4_address("127.0.0.1"), Some([127, 0, 0, 1]));
    assert_eq!(parse_ipv4_address("255.255.255.255"), Some([255, 255, 255, 255]));
    assert_eq!(parse_ipv4_address("256.0.0.1"), None);
    assert_eq!(parse_ipv4_address("01.0.0.1"), None);
    assert_eq!(parse_ipv4_address("1.2.3"), None);
    assert_eq!(parse_ipv4_address("1.2.3.4.5"), None);
    assert_eq!(parse_ipv4_address("1..3.4"), None);
    assert_eq!(parse_ipv4_address("a.b.c.d"), None);
    assert_eq!(parse_ipv4_address(""), None);
    assert_eq!(parse_ipv4_address("0.0.0.0"), Some([0, 0, 0, 0]));
    assert_eq!(parse_ipv4_address("10.20.30.40"), Some([10, 20, 30, 40]));
    assert_eq!(parse_ipv4_address("1.2.3.-4"), None);
    assert_eq!(parse_ipv4_address(" 1.2.3.4"), None);
    assert_eq!(parse_ipv4_address("1.2.3.4 "), None);
    assert_eq!(parse_ipv4_address("1.2.3.1000"), None);
}

#[test]
fn addresses_and_settings() {
    assert_eq!(parse_address(None, Some("80")), Err(String::from("HOST must be set")));
    assert_eq!(
        parse_address(Some("localhost"), Some("80")),
        Err(String::from("HOST must be a valid IPv4 address"))
    );
    assert_eq!(parse_address(Some("0.0.0.0"), None), Err(String::from("PORT must be set")));
    assert_eq!(
        parse_address(Some("0.0.0.0"), Some("70000")),
        Err(String::from("PORT must be valid IPv4 address"))
    );
    assert_eq!(parse_address(Some("0.0.0.0"), Some("8080")), Ok(([0, 0, 0, 0], 8080)));
    assert_eq!(
        bind_error_message([127, 0, 0, 1], 80, "denied"),
        "failed to bind to 127.0.0.1:80 due to error: denied"
    );
    let s = String::from;
    assert_eq!(
        parse_settings(None, Some(s("b")), Some("1"), Some("2"), Some("3"), None).unwrap_err(),
        "DB_URL must be set"
    );
    assert_eq!(
        parse_settings(Some(s("d")), None, Some("1"), Some("2"), Some("3"), None).unwrap_err(),
        "BASE_URL must be set"
    );
    assert_eq!(
        parse_settings(Some(s("d")), Some(s("b")), None, Some("2"), Some("3"), None).unwrap_err(),
        "REQUEST_TIMEOUT must be set"
    );
    assert_eq!(
        parse_settings(Some(s("d")), Some(s("b")), Some("x"), Some("2"), Some("3"), None)
            .unwrap_err(),
        "REQUEST_TIMEOUT must be 64-bit integer"
    );
    assert_eq!(
        parse_settings(Some(s("d")), Some(s("b")), Some("1"), None, Some("3"), None).unwrap_err(),
        "AUTH_TIMEOUT must be set"
    );
    assert_eq!(
        parse_settings(Some(s("d")), Some(s("b")), Some("1"), Some("-2"), Some("3"), None)
            .unwrap_err(),
        "AUTH_TIMEOUT must be 64-bit integer"
    );
    assert_eq!(
        parse_settings(Some(s("d")), Some(s("b")), Some("1"), Some("2"), None, None).unwrap_err(),
        "PING_INTERVAL must be set"
    );
    assert_eq!(
        parse_settings(Some(s("d")), Some(s("b")), Some("1"), Some("2"), Some("3.0"), None)
            .unwrap_err(),
        "PING_INTERVAL must be 64-bit integer"
    );
    let ok = parse_settings(Some(s("d")), Some(s("b")), Some("1"), Some("2"), Some("3"), Some(s("p")))
        .unwrap();
    assert_eq!(ok.db_url, "d");
    assert_eq!(ok.base_url, "b");
    assert_eq!(ok.request_timeout_seconds, 1);
    assert_eq!(ok.auth_timeout_seconds, 2);
    assert_eq!(ok.ping_interval, 3);
    assert_eq!(ok.password, Some(s("p")));
}

#[test]
fn old_agent_records() {
    assert_eq!(
        hash("abc"),
        "ba7816bf8f01cfea414140de5dae2223b00361a396177a9cb410ff61f20015ad"
    );
    let r = get_random_hex(10);
    assert_eq!(r.len(), 10);
    assert!(r.chars().all(|c| c.is_ascii_alphanumeric()));
    let req = AgentRequest::generate();
    assert_eq!(req.public_id().len(), 6);
    assert_eq!(req.secure_key_plain().len(), 32);
    assert_eq!(req.secure_key_hashed(), hash(req.secure_key_plain()));
    let d = AgentRequest::default();
    assert_eq!(d.public_id().len(), 6);
    let agent = Agent::new(String::from("abc123"), 1, 2, hash("key"));
    assert_eq!(agent.public_id(), "abc123");
    assert!(agent.secure_key_matches("key"));
    assert!(!agent.secure_key_matches("other"));
    assert_eq!(agent.secure_key_hashed(), hash("key"));
    assert_eq!(AgentUpdateRequest::new(99).last_signin(), 99);
}

#[test]
fn hash_is_sixty_four_hex_digits() {
    assert_eq!(hash("").len(), 64);
    assert_eq!(hash("a much longer key than the digest itself").len(), 64);
}
