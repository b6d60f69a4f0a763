use dynamo_llm::json::{JsonMember, JsonNumber, JsonValue};
use dynamo_llm::storage::manager::InMemoryResponseStorage;
use dynamo_llm::storage::records::StoredResponse;
use dynamo_llm::storage::response_storage::{
    expires_at, expiry_can_be_held, fork_step, select_for_fork, Contents, ForkStep,
    ResponseStorage, StorageError,
};
use dynamo_llm::storage::trace_replay::{replay_trace, ConversationTurn, ParsedTrace};
use dynamo_llm::time::Duration;

fn object(pairs: Vec<(&str, JsonValue)>) -> JsonValue {
    JsonValue::Object(
        pairs
            .into_iter()
            .map(|(name, value)| JsonMember {
                name: name.to_string(),
                value,
            })
            .collect(),
    )
}

fn text(s: &str) -> JsonValue {
    JsonValue::String(s.to_string())
}

fn number(n: u64) -> JsonValue {
    JsonValue::Number(JsonNumber::PosInt(n))
}

fn unix_seconds() -> u64 {
    std::time::SystemTime::now()
        .duration_since(std::time::UNIX_EPOCH)
        .unwrap()
        .as_secs()
}

#[test]
fn test_store_and_retrieve() {
    let mut storage = InMemoryResponseStorage::new();
    let response_data = object(vec![("message", text("Hello, world!"))]);

    let response_id = storage
        .store_response("tenant_a", "session_1", None, response_data.duplicate(), None)
        .unwrap();

    let retrieved = storage
        .get_response("tenant_a", "session_1", &response_id)
        .unwrap();

    assert_eq!(retrieved.tenant_id, "tenant_a");
    assert_eq!(retrieved.session_id, "session_1");
    assert_eq!(retrieved.response, response_data);
}

#[test]
fn response_storage_test_tenant_isolation() {
    let mut storage = InMemoryResponseStorage::new();
    let response_data = object(vec![("secret", text("tenant_a_data"))]);

    let response_id = storage
        .store_response("tenant_a", "session_1", None, response_data, None)
        .unwrap();

    // Tenant B should not be able to access tenant A's response
    let result = storage.get_response("tenant_b", "session_1", &response_id);

    assert!(matches!(result, Err(StorageError::NotFound)));
}

#[test]
fn response_storage_test_cross_session_access_within_tenant() {
    let mut storage = InMemoryResponseStorage::new();
    let response_data = object(vec![("data", text("session_1"))]);

    let response_id = storage
        .store_response("tenant_a", "session_1", None, response_data.duplicate(), None)
        .unwrap();

    // Same tenant, different session CAN access (session is metadata, not boundary)
    let result = storage.get_response("tenant_a", "session_2", &response_id);

    assert!(result.is_ok());
    let retrieved = result.unwrap();
    assert_eq!(retrieved.session_id, "session_1"); // Original session metadata preserved
    assert_eq!(retrieved.response, response_data);
}

#[test]
fn test_delete_response() {
    let mut storage = InMemoryResponseStorage::new();
    let response_data = object(vec![("data", text("test"))]);

    let response_id = storage
        .store_response("tenant_a", "session_1", None, response_data, None)
        .unwrap();

    // Delete the response
    storage
        .delete_response("tenant_a", "session_1", &response_id)
        .unwrap();

    // Should no longer exist
    let result = storage.get_response("tenant_a", "session_1", &response_id);

    assert!(matches!(result, Err(StorageError::NotFound)));
}

#[test]
fn test_ttl_expiration() {
    let mut storage = InMemoryResponseStorage::new();
    let response_data = object(vec![("data", text("expires soon"))]);

    let now_before = unix_seconds();

    // Store with 10-second TTL
    let response_id = storage
        .store_response(
            "tenant_a",
            "session_1",
            None,
            response_data,
            Some(Duration::from_secs(10)),
        )
        .unwrap();

    // Should NOT be expired yet
    let result = storage.get_response("tenant_a", "session_1", &response_id);

    assert!(result.is_ok());
    let stored = result.unwrap();
    assert!(stored.expires_at.is_some());
    assert!(stored.expires_at.unwrap() >= now_before + 10);
}

#[test]
fn test_list_responses() {
    let mut storage = InMemoryResponseStorage::new();

    // Store multiple responses in same session
    for i in 1..=5 {
        storage
            .store_response(
                "tenant_a",
                "session_1",
                None,
                object(vec![("turn", number(i))]),
                None,
            )
            .unwrap();
    }

    // Store response in different session
    storage
        .store_response(
            "tenant_a",
            "session_2",
            None,
            object(vec![("other", number(1))]),
            None,
        )
        .unwrap();

    let responses = storage
        .list_responses("tenant_a", "session_1", None, None)
        .unwrap();

    assert_eq!(responses.len(), 5);
}

#[test]
fn test_list_responses_with_limit() {
    let mut storage = InMemoryResponseStorage::new();

    for i in 1..=10 {
        storage
            .store_response(
                "tenant_a",
                "session_1",
                None,
                object(vec![("turn", number(i))]),
                None,
            )
            .unwrap();
    }

    let responses = storage
        .list_responses("tenant_a", "session_1", Some(3), None)
        .unwrap();

    assert_eq!(responses.len(), 3);
}

#[test]
fn test_list_responses_with_cursor() {
    let mut storage = InMemoryResponseStorage::new();

    // Store 10 responses with known IDs
    for i in 1..=10 {
        storage
            .store_response(
                "tenant_a",
                "session_1",
                Some(&format!("resp_{:02}", i)),
                object(vec![("turn", number(i))]),
                None,
            )
            .unwrap();
    }

    // Fetch first page (limit=3)
    let page1 = storage
        .list_responses("tenant_a", "session_1", Some(3), None)
        .unwrap();

    assert_eq!(page1.len(), 3);
    assert_eq!(page1[0].response_id, "resp_01");
    assert_eq!(page1[2].response_id, "resp_03");

    // Fetch second page using cursor (after resp_03)
    let page2 = storage
        .list_responses("tenant_a", "session_1", Some(3), Some("resp_03"))
        .unwrap();

    assert_eq!(page2.len(), 3);
    assert_eq!(page2[0].response_id, "resp_04");
    assert_eq!(page2[2].response_id, "resp_06");

    // Fetch third page
    let page3 = storage
        .list_responses("tenant_a", "session_1", Some(3), Some("resp_06"))
        .unwrap();

    assert_eq!(page3.len(), 3);
    assert_eq!(page3[0].response_id, "resp_07");
    assert_eq!(page3[2].response_id, "resp_09");

    // Fetch fourth page (only 1 remaining)
    let page4 = storage
        .list_responses("tenant_a", "session_1", Some(3), Some("resp_09"))
        .unwrap();

    assert_eq!(page4.len(), 1);
    assert_eq!(page4[0].response_id, "resp_10");

    // Fetch with cursor at end (should be empty)
    let page5 = storage
        .list_responses("tenant_a", "session_1", Some(3), Some("resp_10"))
        .unwrap();

    assert_eq!(page5.len(), 0);
}

#[test]
fn responses_stateful_integration_test_test_tenant_isolation() {
    let mut storage = InMemoryResponseStorage::new();

    // Store response for tenant A
    let response_a = object(vec![("data", text("tenant_a_secret")), ("value", number(42))]);
    let response_id = storage
        .store_response("tenant_a", "session_1", None, response_a.duplicate(), None)
        .unwrap();

    // Attempt to retrieve from tenant B - should fail (NotFound due to key mismatch)
    let result = storage.get_response("tenant_b", "session_1", &response_id);

    assert!(matches!(result, Err(StorageError::NotFound)));

    // Tenant A should be able to retrieve
    let retrieved = storage
        .get_response("tenant_a", "session_1", &response_id)
        .unwrap();

    assert_eq!(retrieved.tenant_id, "tenant_a");
    assert_eq!(retrieved.response, response_a);
}

#[test]
fn responses_stateful_integration_test_test_cross_session_access_within_tenant() {
    let mut storage = InMemoryResponseStorage::new();

    // Store response in session 1
    let response_data = object(vec![("data", text("session_1_data")), ("turn", number(1))]);
    let response_id = storage
        .store_response("tenant_a", "session_1", None, response_data.duplicate(), None)
        .unwrap();

    // Cross-session access within same tenant should SUCCEED
    // (session is metadata, not a security boundary — enables multi-agent workflows)
    let result = storage.get_response("tenant_a", "session_2", &response_id);

    assert!(result.is_ok());
    let retrieved = result.unwrap();
    assert_eq!(retrieved.session_id, "session_1"); // Original session metadata preserved
    assert_eq!(retrieved.response, response_data);

    // Session 1 should also still retrieve
    let retrieved = storage
        .get_response("tenant_a", "session_1", &response_id)
        .unwrap();

    assert_eq!(retrieved.session_id, "session_1");
    assert_eq!(retrieved.response, response_data);
}

#[test]
fn test_multi_turn_conversation() {
    let mut storage = InMemoryResponseStorage::new();
    let tenant_id = "tenant_conversation";
    let session_id = "session_multi_turn";

    // Simulate a multi-turn conversation
    let turns = vec![
        object(vec![("role", text("user")), ("content", text("What is 2+2?"))]),
        object(vec![
            ("role", text("assistant")),
            ("content", text("2+2 equals 4.")),
        ]),
        object(vec![
            ("role", text("user")),
            ("content", text("What about 3+3?")),
        ]),
        object(vec![
            ("role", text("assistant")),
            ("content", text("3+3 equals 6.")),
        ]),
    ];

    let mut stored_ids = Vec::new();

    // Store each turn
    for (idx, turn) in turns.iter().enumerate() {
        let response_id = storage
            .store_response(
                tenant_id,
                session_id,
                None,
                turn.duplicate(),
                Some(Duration::from_secs(3600)),
            )
            .unwrap();

        stored_ids.push(response_id.clone());

        // Verify immediate retrieval
        let retrieved = storage
            .get_response(tenant_id, session_id, &response_id)
            .unwrap();

        assert_eq!(retrieved.tenant_id, tenant_id);
        assert_eq!(retrieved.session_id, session_id);
        assert_eq!(retrieved.response, *turn);

        println!("Turn {}: stored with ID {}", idx, response_id);
    }

    // Verify all turns are still accessible
    assert_eq!(stored_ids.len(), turns.len());

    for (idx, response_id) in stored_ids.iter().enumerate() {
        let retrieved = storage
            .get_response(tenant_id, session_id, response_id)
            .unwrap();

        assert_eq!(retrieved.response, turns[idx]);
    }
}

#[test]
fn test_get_response_success() {
    let mut storage = InMemoryResponseStorage::new();

    // Store a response
    let response_data = object(vec![
        ("id", text("resp_get_test")),
        ("model", text("test-model")),
        (
            "output",
            JsonValue::Array(vec![object(vec![
                ("type", text("message")),
                ("content", text("Hello!")),
            ])]),
        ),
    ]);

    let response_id = storage
        .store_response(
            "tenant_get",
            "session_get",
            Some("resp_get_test"),
            response_data.duplicate(),
            None,
        )
        .unwrap();

    // Retrieve it
    let retrieved = storage
        .get_response("tenant_get", "session_get", &response_id)
        .unwrap();

    assert_eq!(retrieved.response_id, "resp_get_test");
    assert_eq!(retrieved.response, response_data);
}

#[test]
fn test_get_response_not_found() {
    let storage = InMemoryResponseStorage::new();

    let result = storage.get_response("tenant_notfound", "session_notfound", "nonexistent_id");

    assert!(matches!(result, Err(StorageError::NotFound)));
}

#[test]
fn test_delete_response_success() {
    let mut storage = InMemoryResponseStorage::new();

    // Store a response
    let response_id = storage
        .store_response(
            "tenant_del",
            "session_del",
            None,
            object(vec![("data", text("to_delete"))]),
            None,
        )
        .unwrap();

    // Verify it exists
    let exists = storage.get_response("tenant_del", "session_del", &response_id);
    assert!(exists.is_ok());

    // Delete it
    let delete_result = storage.delete_response("tenant_del", "session_del", &response_id);
    assert!(delete_result.is_ok());

    // Verify it's gone
    let after_delete = storage.get_response("tenant_del", "session_del", &response_id);
    assert!(matches!(after_delete, Err(StorageError::NotFound)));
}

#[test]
fn test_fork_session_full() {
    let mut storage = InMemoryResponseStorage::new();

    // Create original session with 3 responses
    for i in 1..=3 {
        storage
            .store_response(
                "tenant_clone",
                "original_session",
                Some(&format!("resp_{}", i)),
                object(vec![
                    ("turn", number(i)),
                    ("content", text(&format!("Message {}", i))),
                ]),
                None,
            )
            .unwrap();
    }

    // Clone to new session
    let cloned_count = storage
        .fork_session("tenant_clone", "original_session", "cloned_session", None)
        .unwrap();

    assert_eq!(cloned_count, 3);

    // Verify cloned session has all responses
    let cloned_responses = storage
        .list_responses("tenant_clone", "cloned_session", None, None)
        .unwrap();

    assert_eq!(cloned_responses.len(), 3);
}

#[test]
fn test_previous_response_id_retrieval() {
    let mut storage = InMemoryResponseStorage::new();

    // Simulate a first turn - store a response with output
    let first_response = object(vec![
        ("id", text("resp_turn1")),
        ("model", text("test-model")),
        (
            "output",
            JsonValue::Array(vec![object(vec![
                ("type", text("message")),
                ("role", text("assistant")),
                (
                    "content",
                    JsonValue::Array(vec![object(vec![
                        ("type", text("text")),
                        ("text", text("The answer is 4.")),
                    ])]),
                ),
            ])]),
        ),
    ]);

    storage
        .store_response(
            "tenant_session",
            "session_1",
            Some("resp_turn1"),
            first_response.duplicate(),
            None,
        )
        .unwrap();

    // Verify we can retrieve it (simulating what handler does)
    let retrieved = storage
        .get_response("tenant_session", "session_1", "resp_turn1")
        .unwrap();

    // Check we can extract output items
    let output_items = match retrieved.response.get("output") {
        Some(JsonValue::Array(items)) => items,
        _ => panic!("Should have output items"),
    };

    assert_eq!(output_items.len(), 1);
    assert_eq!(
        output_items[0].get("role").and_then(|r| r.as_str()),
        Some("assistant")
    );
}

#[test]
fn keys_that_look_alike_as_text_are_told_apart() {
    let mut storage = InMemoryResponseStorage::new();
    storage.store_response_at("a", "s", "b:responses:c", text("first"), None, 1);
    storage.store_response_at("a:responses:b", "s", "c", text("second"), None, 1);
    assert_eq!(
        InMemoryResponseStorage::make_key("a", "b:responses:c"),
        InMemoryResponseStorage::make_key("a:responses:b", "c")
    );
    assert_eq!(
        InMemoryResponseStorage::make_key("t", "r"),
        "t:responses:r"
    );
    assert_eq!(
        storage.get_response("a", "s", "b:responses:c").unwrap().response,
        text("first")
    );
    assert_eq!(
        storage.get_response("a:responses:b", "s", "c").unwrap().response,
        text("second")
    );
    assert_eq!(storage.list_responses("a", "s", None, None).unwrap().len(), 1);
}

#[test]
fn a_response_is_found_until_it_expires() {
    let mut storage = InMemoryResponseStorage::new();
    let ttl = Some(Duration::from_millis(10_999));
    storage.store_response_at("t", "s", "r", text("x"), ttl, 100);
    assert_eq!(
        storage.get_response_at("t", "s", "r", 110).unwrap().expires_at,
        Some(110)
    );
    assert!(matches!(
        storage.get_response_at("t", "s", "r", 111),
        Err(StorageError::NotFound)
    ));
    assert!(matches!(
        storage.get_response("t", "s", "r"),
        Err(StorageError::NotFound)
    ));
    assert_eq!(storage.list_responses("t", "s", None, None).unwrap().len(), 1);
    assert!(storage.delete_response("t", "s", "r").is_ok());
    assert!(matches!(
        storage.delete_response("t", "s", "r"),
        Err(StorageError::NotFound)
    ));
}

#[test]
fn a_time_to_live_that_cannot_be_held_is_refused() {
    let mut storage = InMemoryResponseStorage::new();
    let ttl = Some(Duration::from_secs(u64::MAX));
    assert!(!expiry_can_be_held(1, ttl));
    assert!(expiry_can_be_held(0, ttl));
    assert_eq!(expires_at(0, ttl), Some(u64::MAX));
    assert_eq!(expires_at(5, None), None);
    assert!(matches!(
        storage.store_response("t", "s", Some("r"), text("x"), ttl),
        Err(StorageError::BackendError(why)) if why == "time to live is too long to be held"
    ));
    assert!(storage.list_responses("t", "s", None, None).unwrap().is_empty());
}

#[test]
fn storing_again_replaces() {
    let mut storage = InMemoryResponseStorage::default();
    storage.store_response_at("t", "s1", "x", text("old"), None, 1);
    storage.store_response_at("t", "s1", "y", text("other"), None, 1);
    storage.store_response_at("u", "s1", "x", text("theirs"), None, 1);
    storage.store_response_at("t", "s2", "x", text("new"), None, 2);
    for session in ["s1", "s2", "s3"] {
        let found = storage.get_response("t", session, "x").unwrap();
        assert_eq!(found.response, text("new"));
        assert_eq!(found.session_id, "s2");
        assert_eq!(found.created_at, 2);
    }
    let first = storage.list_responses("t", "s1", None, None).unwrap();
    assert_eq!(first.len(), 1);
    assert_eq!(first[0].response_id, "y");
    assert_eq!(storage.list_responses("t", "s2", None, None).unwrap().len(), 1);
    assert_eq!(
        storage.get_response("u", "s1", "x").unwrap().response,
        text("theirs")
    );
}

#[test]
fn a_store_replaces_every_copy() {
    let mut storage = InMemoryResponseStorage::new();
    storage.store_response_at("t", "s1", "x", text("old"), None, 1);
    assert_eq!(storage.fork_session("t", "s1", "s2", None), Ok(1));
    storage
        .store_response("t", "s3", Some("x"), text("new"), None)
        .unwrap();
    for session in ["s1", "s2"] {
        assert!(storage.list_responses("t", session, None, None).unwrap().is_empty());
        let found = storage.get_response("t", session, "x").unwrap();
        assert_eq!(found.response, text("new"));
        assert_eq!(found.session_id, "s3");
    }
}

#[test]
fn a_session_finds_its_own_copy_first() {
    let mut storage = InMemoryResponseStorage::new();
    storage.store_response_at("t", "s1", "r", text("x"), Some(Duration::from_secs(5)), 1);
    assert_eq!(
        storage.store_copy_by_clock("t", "s2", "r", text("x"), Some(2)),
        Ok(())
    );
    assert_eq!(
        storage.store_copy_by_clock("t", "s3", "r", text("x"), None),
        Err(StorageError::BackendError(
            "System time error: the clock stands before the Unix epoch".to_string()
        ))
    );
    let found = |session: &str, now: u64| {
        storage
            .get_response_at("t", session, "r", now)
            .unwrap()
            .session_id
    };
    assert_eq!(found("s1", 3), "s1");
    assert_eq!(found("s2", 3), "s2");
    assert_eq!(found("s3", 3), "s2");
    assert_eq!(found("s1", 7), "s2");
    assert_eq!(found("s3", 7), "s2");
    assert!(storage.delete_response("t", "s3", "r").is_ok());
    for session in ["s1", "s2", "s3"] {
        assert!(matches!(
            storage.get_response_at("t", session, "r", 3),
            Err(StorageError::NotFound)
        ));
        assert!(storage.list_responses("t", session, None, None).unwrap().is_empty());
    }
}

#[test]
fn what_a_clock_says_decides_a_store_and_a_lookup() {
    let mut storage = InMemoryResponseStorage::new();
    let clock = "System time error: the clock stands before the Unix epoch";
    let ttl = Some(Duration::from_secs(10));
    assert_eq!(
        storage.store_response_by_clock("t", "s", "r", text("x"), ttl, None),
        Err(StorageError::BackendError(clock.to_string()))
    );
    assert_eq!(
        storage.store_response_by_clock("t", "s", "r", text("x"), ttl, Some(u64::MAX - 9)),
        Err(StorageError::BackendError(
            "time to live is too long to be held".to_string()
        ))
    );
    assert!(storage.list_responses("t", "s", None, None).unwrap().is_empty());
    assert_eq!(
        storage.store_response_by_clock("t", "s", "r", text("x"), ttl, Some(u64::MAX - 10)),
        Ok(())
    );
    assert_eq!(
        storage.get_response_by_clock("t", "s", "r", None),
        Err(StorageError::BackendError(clock.to_string()))
    );
    assert!(storage.get_response_by_clock("t", "s", "r", Some(u64::MAX)).is_ok());
    assert_eq!(
        storage.store_response_by_clock("t", "s", "q", text("y"), None, Some(1)),
        Ok(())
    );
    assert!(storage.get_response_by_clock("t", "s", "q", None).is_ok());
}

/// A storage that runs full.
struct Narrow {
    inner: InMemoryResponseStorage,
    room: usize,
}

impl ResponseStorage for Narrow {
    fn store_copy(
        &mut self,
        tenant_id: &str,
        session_id: &str,
        response_id: &str,
        response: JsonValue,
    ) -> Result<(), StorageError> {
        if self.room == 0 {
            return Err(StorageError::BackendError("full".to_string()));
        }
        self.room -= 1;
        self.inner
            .store_copy(tenant_id, session_id, response_id, response)
    }

    fn contents(&self) -> Contents {
        self.inner.contents()
    }

    fn well_formed(&self) -> bool {
        self.inner.well_formed()
    }

    fn store_response(
        &mut self,
        tenant_id: &str,
        session_id: &str,
        response_id: Option<&str>,
        response: JsonValue,
        ttl: Option<Duration>,
    ) -> Result<String, StorageError> {
        if self.room == 0 {
            return Err(StorageError::BackendError("full".to_string()));
        }
        self.room -= 1;
        self.inner
            .store_response(tenant_id, session_id, response_id, response, ttl)
    }

    fn get_response(
        &self,
        tenant_id: &str,
        session_id: &str,
        response_id: &str,
    ) -> Result<StoredResponse, StorageError> {
        self.inner.get_response(tenant_id, session_id, response_id)
    }

    fn delete_response(
        &mut self,
        tenant_id: &str,
        session_id: &str,
        response_id: &str,
    ) -> Result<(), StorageError> {
        self.inner.delete_response(tenant_id, session_id, response_id)
    }

    fn list_responses(
        &self,
        tenant_id: &str,
        session_id: &str,
        limit: Option<usize>,
        after: Option<&str>,
    ) -> Result<Vec<StoredResponse>, StorageError> {
        self.inner.list_responses(tenant_id, session_id, limit, after)
    }
}

#[test]
fn a_fork_stores_what_is_listed_and_ends_at_the_first_error() {
    let mut storage = Narrow {
        inner: InMemoryResponseStorage::new(),
        room: 2,
    };
    for (id, at) in [("a", 1), ("b", 2), ("c", 3)] {
        storage.inner.store_response_at("t", "from", id, text(id), None, at);
    }
    assert_eq!(
        storage.fork_session("t", "from", "to", None),
        Err(StorageError::BackendError("full".to_string()))
    );
    assert_eq!(storage.list_responses("t", "to", None, None).unwrap().len(), 2);
    assert_eq!(storage.list_responses("t", "from", None, None).unwrap().len(), 3);
    storage.room = 9;
    assert_eq!(storage.fork_session("t", "from", "all", None), Ok(3));
    assert_eq!(storage.fork_session("t", "from", "some", Some("b")), Ok(2));
    assert_eq!(storage.fork_session("t", "none", "some", None), Ok(0));
    let some = storage.list_responses("t", "some", None, None).unwrap();
    let ids: Vec<String> = some.into_iter().map(|r| r.response_id).collect();
    assert_eq!(ids, vec!["a", "b"]);
    assert_eq!(storage.list_responses("t", "from", None, None).unwrap().len(), 3);
}

#[test]
fn the_steps_of_a_fork() {
    let selection = vec![stored("a"), stored("b")];
    assert_eq!(fork_step(&selection, 0, None), ForkStep::Store(0));
    assert_eq!(fork_step(&selection, 1, None), ForkStep::Store(1));
    assert_eq!(fork_step(&selection, 2, None), ForkStep::Done(2));
    assert_eq!(
        fork_step(&selection, 1, Some(StorageError::NotFound)),
        ForkStep::Failed(StorageError::NotFound)
    );
}

#[test]
fn lists_are_ordered_by_time_then_identifier() {
    let mut storage = InMemoryResponseStorage::new();
    for (id, at) in [("c", 5), ("a", 7), ("b", 5), ("z", 1), ("B", 5)] {
        storage.store_response_at("t", "s", id, JsonValue::Null, None, at);
    }
    let ids: Vec<String> = storage
        .list_responses("t", "s", None, None)
        .unwrap()
        .into_iter()
        .map(|r| r.response_id)
        .collect();
    assert_eq!(ids, vec!["z", "B", "b", "c", "a"]);
    let rest = storage.list_responses("t", "s", Some(9), Some("b")).unwrap();
    assert_eq!(rest.len(), 2);
    let all = storage.list_responses("t", "s", None, Some("gone")).unwrap();
    assert_eq!(all.len(), 5);
    let none = storage.list_responses("t", "s", Some(0), None).unwrap();
    assert!(none.is_empty());
}

fn stored(id: &str) -> StoredResponse {
    StoredResponse {
        response_id: id.to_string(),
        tenant_id: "t".to_string(),
        session_id: "s".to_string(),
        response: JsonValue::Null,
        created_at: 0,
        expires_at: None,
    }
}

#[test]
fn a_fork_stops_at_the_given_response() {
    let list = vec![stored("a"), stored("b"), stored("c")];
    assert_eq!(select_for_fork(list, Some("b")).len(), 2);
    let list = vec![stored("a"), stored("b"), stored("c")];
    assert_eq!(select_for_fork(list, Some("x")).len(), 3);
    let list = vec![stored("a"), stored("b"), stored("c")];
    assert_eq!(select_for_fork(list, None).len(), 3);

    let mut storage = InMemoryResponseStorage::new();
    for (id, at) in [("a", 1), ("b", 2), ("c", 3)] {
        let ttl = Some(Duration::from_secs(5));
        storage.store_response_at("t", "from", id, text(id), ttl, at);
    }
    storage.store_response_at("u", "from", "a", text("other"), None, 1);
    assert_eq!(storage.fork_session("t", "from", "to", Some("b")).unwrap(), 2);
    let copies = storage.list_responses("t", "to", None, None).unwrap();
    assert_eq!(copies.len(), 2);
    for id in ["a", "b"] {
        let copy = storage.get_response("t", "to", id).unwrap();
        assert_eq!(copy.session_id, "to");
        assert_eq!(copy.response, text(id));
        assert_eq!(copy.expires_at, None);
    }
    let left = storage.list_responses("t", "from", None, None).unwrap();
    let kept: Vec<(String, u64, Option<u64>)> = left
        .into_iter()
        .map(|r| (r.response_id, r.created_at, r.expires_at))
        .collect();
    assert_eq!(
        kept,
        vec![
            ("a".to_string(), 1, Some(6)),
            ("b".to_string(), 2, Some(7)),
            ("c".to_string(), 3, Some(8)),
        ]
    );
    assert_eq!(
        storage.get_response("u", "from", "a").unwrap().session_id,
        "from"
    );
}

#[test]
fn a_fresh_identifier_is_a_random_uuid() {
    let mut storage = InMemoryResponseStorage::new();
    let id = storage
        .store_response("t", "s", None, JsonValue::Null, None)
        .unwrap();
    let bytes = id.as_bytes();
    assert_eq!(bytes.len(), 36);
    for (i, b) in bytes.iter().enumerate() {
        if i == 8 || i == 13 || i == 18 || i == 23 {
            assert_eq!(*b, b'-');
        } else {
            assert!(b.is_ascii_digit() || (b'a'..=b'f').contains(b));
        }
    }
    assert_eq!(bytes[14], b'4');
    assert!(matches!(bytes[19], b'8' | b'9' | b'a' | b'b'));
    let before = unix_seconds();
    let found = storage.get_response("t", "s", &id).unwrap();
    assert!(found.created_at <= before && found.created_at + 60 > before);
    let other = storage
        .store_response("t", "s", None, JsonValue::Null, None)
        .unwrap();
    assert_ne!(id, other);
}


#[test]
fn a_fork_leaves_the_source_session_as_it_was() {
    let mut storage = InMemoryResponseStorage::new();
    storage
        .store_response("t", "src", Some("r1"), number(1), None)
        .unwrap();
    assert_eq!(storage.fork_session("t", "src", "dst", None), Ok(1));
    let source = storage.list_responses("t", "src", None, None).unwrap();
    assert_eq!(source.len(), 1);
    assert_eq!(source[0].response_id, "r1");
    assert_eq!(source[0].session_id, "src");
    let target = storage.list_responses("t", "dst", None, None).unwrap();
    assert_eq!(target.len(), 1);
    assert_eq!(target[0].session_id, "dst");
    assert_eq!(target[0].response, number(1));
}

fn turn(id: &str, number: usize) -> ConversationTurn {
    ConversationTurn {
        turn_id: id.to_string(),
        turn_number: number,
        user_input: "question".to_string(),
        assistant_output: None,
        tool_calls: Vec::new(),
        timestamp: "now".to_string(),
    }
}

#[test]
fn a_replay_ends_with_the_error_of_the_turn_that_was_not_stored() {
    let trace = ParsedTrace {
        session_id: "s".to_string(),
        root_span_id: "root".to_string(),
        turns: vec![turn("a", 1), turn("b", 2), turn("c", 3)],
        raw_spans: Vec::new(),
    };
    let mut storage = Narrow {
        inner: InMemoryResponseStorage::new(),
        room: 2,
    };
    assert_eq!(
        replay_trace(&mut storage, &trace, "t"),
        Err(StorageError::BackendError("full".to_string()))
    );
    let kept = storage.list_responses("t", "s", None, None).unwrap();
    let ids: Vec<String> = kept.into_iter().map(|r| r.response_id).collect();
    assert_eq!(ids, vec!["resp_a", "resp_b"]);
    storage.room = 3;
    assert_eq!(replay_trace(&mut storage, &trace, "t").unwrap().turns_replayed, 3);
}

#[test]
fn all_pages_together_are_the_list() {
    let mut storage = InMemoryResponseStorage::new();
    for at in 0..7u64 {
        let id = format!("r{}", (at * 3) % 7);
        storage.store_response_at("t", "s", &id, number(at), None, at);
    }
    let list = storage.list_responses("t", "s", None, None).unwrap();
    assert_eq!(list.len(), 7);
    for limit in 1..9usize {
        let mut shown: Vec<StoredResponse> = Vec::new();
        for pages in 1..8usize {
            let cursor = shown.last().map(|r| r.response_id.clone());
            let next = storage
                .list_responses("t", "s", Some(limit), cursor.as_deref())
                .unwrap();
            shown.extend(next);
            assert_eq!(shown.len(), (pages * limit).min(7));
        }
        assert_eq!(shown, list);
    }
}

#[test]
fn what_is_held_alive_is_found_from_every_session() {
    let mut storage = InMemoryResponseStorage::new();
    storage.store_response_at("t", "s1", "r", text("x"), Some(Duration::from_secs(10)), 100);
    for session in ["s1", "s2", ""] {
        assert!(storage.get_response_at("t", session, "r", 109).is_ok());
        assert!(storage.get_response_at("t", session, "r", 200).is_err());
        assert!(storage.get_response_at("u", session, "r", 109).is_err());
    }
}

#[test]
fn a_clone_is_the_same() {
    let value = JsonValue::Array(vec![object(vec![("a", text("x")), ("b", number(1))])]);
    assert_eq!(value.clone(), value);
    let one = stored("a");
    assert_eq!(one.clone(), one);
    assert_eq!(turn("a", 1).clone(), turn("a", 1));
}
