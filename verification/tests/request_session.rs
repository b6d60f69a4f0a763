use dynamo_llm::http::session::{extract_session, BAD_REQUEST, SESSION_HEADER, TENANT_HEADER};
use dynamo_llm::json::{JsonMember, JsonValue};
use dynamo_llm::storage::manager::InMemoryResponseStorage;
use dynamo_llm::storage::response_storage::ResponseStorage;

#[test]
fn test_valid_headers_extracted() {
    let session = extract_session(Some(b"tenant_123"), Some(b"session_456")).unwrap();
    let body_str = format!("tenant={}, session={}", session.tenant_id, session.session_id);
    assert!(body_str.contains("tenant=tenant_123"));
    assert!(body_str.contains("session=session_456"));
}

#[test]
fn test_missing_tenant_id() {
    assert_eq!(extract_session(None, Some(b"session_456")), Err(400));
}

#[test]
fn test_missing_session_id() {
    assert_eq!(extract_session(Some(b"tenant_123"), None), Err(400));
}

#[test]
fn test_empty_tenant_id() {
    assert_eq!(extract_session(Some(b""), Some(b"session_456")), Err(400));
}

#[test]
fn test_empty_session_id() {
    assert_eq!(extract_session(Some(b"tenant_123"), Some(b"")), Err(400));
}

#[test]
fn test_session_middleware_extraction() {
    let session = extract_session(Some(b"tenant_test_123"), Some(b"session_test_456")).unwrap();
    assert_eq!(session.tenant_id, "tenant_test_123");
    assert_eq!(session.session_id, "session_test_456");
}

#[test]
fn test_missing_tenant_header() {
    // Case 1: Missing x-tenant-id header entirely
    assert_eq!(extract_session(None, Some(b"session_test")), Err(BAD_REQUEST));
    // Case 2: Empty x-tenant-id header
    assert_eq!(
        extract_session(Some(b""), Some(b"session_test")),
        Err(BAD_REQUEST)
    );
    // Case 3: Missing x-session-id header
    assert_eq!(extract_session(Some(b"tenant_test"), None), Err(BAD_REQUEST));
}

#[test]
fn headers_hold_visible_text_only() {
    let session = extract_session(Some(b"a b\t~"), Some(b" ")).unwrap();
    assert_eq!(session.tenant_id, "a b\t~");
    assert_eq!(session.session_id, " ");
    for bad in [0x00u8, 0x0a, 0x1f, 0x7f, 0x80, 0xff] {
        assert_eq!(extract_session(Some(&[b'a', bad]), Some(b"s")), Err(400));
        assert_eq!(extract_session(Some(b"t"), Some(&[bad])), Err(400));
    }
    assert_eq!((TENANT_HEADER, SESSION_HEADER), ("x-tenant-id", "x-session-id"));
}

#[test]
fn test_response_storage_with_store_true() {
    let mut storage = InMemoryResponseStorage::new();
    let session =
        extract_session(Some(b"tenant_store_test"), Some(b"session_store_test")).unwrap();
    let response = JsonValue::Object(vec![
        JsonMember {
            name: "model".to_string(),
            value: JsonValue::String("test-model".to_string()),
        },
        JsonMember {
            name: "store".to_string(),
            value: JsonValue::Bool(true),
        },
    ]);

    let stored_id = storage
        .store_response(&session.tenant_id, &session.session_id, None, response, None)
        .unwrap();

    assert!(!stored_id.is_empty());
    assert!(storage
        .get_response("tenant_store_test", "session_store_test", &stored_id)
        .is_ok());
}
