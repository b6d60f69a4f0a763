use dynamo_llm::json::JsonValue;
use dynamo_llm::storage::records::StoredResponse;
use dynamo_llm::storage::redis_storage::{
    accept_retrieved, assemble_list, copy_keys, first_command, index_key, next_command,
    response_key, response_keys, sessions_key, sessions_to_clear, sessions_to_read, StoreCommand,
    StoreReply,
};
use dynamo_llm::storage::response_storage::StorageError;

#[test]
fn keys_in_redis() {
    assert_eq!(response_key("t", "s", "r"), "t:s:responses:r");
    assert_eq!(index_key("t", "s"), "t:s:response_ids");
    let ids = vec!["a".to_string(), "b".to_string()];
    assert_eq!(
        response_keys("t", "s", &ids),
        vec!["t:s:responses:a", "t:s:responses:b"]
    );
    assert_eq!(sessions_key("t", "r"), "t:responses:r:in:sessions");
    assert_eq!(
        copy_keys("t", &ids, "r"),
        vec!["t:a:responses:r", "t:b:responses:r"]
    );
}

fn run(ttl: Option<u64>, index: StoreReply, sessions: StoreReply) -> Vec<StoreCommand> {
    let mut commands = Vec::new();
    let mut command = first_command(ttl);
    while command != StoreCommand::Finish {
        commands.push(command);
        let reply = match command {
            StoreCommand::ReadIndexTtl => &index,
            StoreCommand::ReadSessionsTtl => &sessions,
            _ => &StoreReply::Done,
        };
        command = next_command(ttl, command, reply).unwrap();
    }
    commands
}

#[test]
fn the_commands_of_a_store() {
    assert_eq!(
        run(None, StoreReply::Done, StoreReply::Done),
        vec![
            StoreCommand::Write,
            StoreCommand::AddToIndex { end: None },
            StoreCommand::PersistIndex,
            StoreCommand::AddToSessions { end: None },
            StoreCommand::PersistSessions,
        ]
    );
    let kept = vec![
        StoreCommand::WriteFor { seconds: 60 },
        StoreCommand::ReadIndexTtl,
        StoreCommand::AddToIndex { end: None },
        StoreCommand::ReadSessionsTtl,
        StoreCommand::AddToSessions { end: None },
    ];
    let extended = vec![
        StoreCommand::WriteFor { seconds: 60 },
        StoreCommand::ReadIndexTtl,
        StoreCommand::AddToIndex { end: Some(60) },
        StoreCommand::ExpireIndex { seconds: 60 },
        StoreCommand::ReadSessionsTtl,
        StoreCommand::AddToSessions { end: Some(60) },
        StoreCommand::ExpireSessions { seconds: 60 },
    ];
    for left in [-2, 0, 59] {
        assert_eq!(
            run(Some(60), StoreReply::Left(left), StoreReply::Left(left)),
            extended
        );
    }
    for left in [-1, 60, 90] {
        assert_eq!(
            run(Some(60), StoreReply::Left(left), StoreReply::Left(left)),
            kept
        );
    }
    assert_eq!(
        run(
            Some(60),
            StoreReply::Failed("gone".to_string()),
            StoreReply::Failed("gone".to_string())
        ),
        kept
    );
    assert_eq!(
        run(Some(60), StoreReply::Left(-1), StoreReply::Left(-2)),
        vec![
            StoreCommand::WriteFor { seconds: 60 },
            StoreCommand::ReadIndexTtl,
            StoreCommand::AddToIndex { end: None },
            StoreCommand::ReadSessionsTtl,
            StoreCommand::AddToSessions { end: Some(60) },
            StoreCommand::ExpireSessions { seconds: 60 },
        ]
    );
}

#[test]
fn an_index_that_is_kept_for_good_gets_no_end() {
    let after = next_command(Some(10), StoreCommand::ReadIndexTtl, &StoreReply::Left(-1));
    assert_eq!(after, Ok(StoreCommand::AddToIndex { end: None }));
    let then = next_command(
        Some(10),
        StoreCommand::AddToIndex { end: None },
        &StoreReply::Done,
    );
    assert_eq!(then, Ok(StoreCommand::ReadSessionsTtl));
}

#[test]
fn a_command_that_fails_ends_a_store() {
    let failed = StoreReply::Failed("down".to_string());
    for (command, text) in [
        (StoreCommand::Write, "Failed to store response: down"),
        (
            StoreCommand::WriteFor { seconds: 1 },
            "Failed to store response: down",
        ),
        (
            StoreCommand::AddToIndex { end: None },
            "Failed to add to index: down",
        ),
        (
            StoreCommand::ExpireIndex { seconds: 1 },
            "Failed to set index TTL: down",
        ),
        (StoreCommand::PersistIndex, "Failed to persist index: down"),
        (
            StoreCommand::AddToSessions { end: Some(1) },
            "Failed to add to sessions: down",
        ),
        (
            StoreCommand::ExpireSessions { seconds: 1 },
            "Failed to set sessions TTL: down",
        ),
        (
            StoreCommand::PersistSessions,
            "Failed to persist sessions: down",
        ),
    ] {
        assert_eq!(
            next_command(Some(1), command, &failed),
            Err(StorageError::BackendError(text.to_string()))
        );
    }
}

fn stored(id: &str, tenant: &str, session: &str, at: u64, expires: Option<u64>) -> StoredResponse {
    StoredResponse {
        response_id: id.to_string(),
        tenant_id: tenant.to_string(),
        session_id: session.to_string(),
        response: JsonValue::Null,
        created_at: at,
        expires_at: expires,
    }
}

fn no_clock() -> Result<u64, String> {
    Err("no clock".to_string())
}

#[test]
fn what_is_read_must_be_what_was_asked_for() {
    let ends = vec![stored("r", "t", "s", 1, Some(5))];
    let ok = accept_retrieved(&ends, "t", "s", "r", Ok(5));
    assert_eq!(ok, Ok(stored("r", "t", "s", 1, Some(5))));
    let late = accept_retrieved(&ends, "t", "s", "r", Ok(6));
    assert_eq!(late, Err(StorageError::NotFound));
    let clock = accept_retrieved(&ends, "t", "s", "r", no_clock());
    assert_eq!(
        clock,
        Err(StorageError::BackendError(
            "System time error: no clock".to_string()
        ))
    );
    let other = vec![stored("r", "u", "s", 1, None)];
    assert_eq!(
        accept_retrieved(&other, "t", "s", "r", no_clock()),
        Err(StorageError::NotFound)
    );
    let forever = vec![stored("r", "t", "s", 1, None)];
    assert!(accept_retrieved(&forever, "t", "s", "r", no_clock()).is_ok());
    assert_eq!(
        accept_retrieved(&Vec::new(), "t", "s", "r", Ok(1)),
        Err(StorageError::NotFound)
    );
}

#[test]
fn another_session_of_the_tenant_may_read() {
    let one = vec![stored("r1", "tenant_a", "session_1", 1, None)];
    let read = accept_retrieved(&one, "tenant_a", "session_2", "r1", Ok(1)).unwrap();
    assert_eq!(read.session_id, "session_1");
    assert_eq!(
        accept_retrieved(&one, "tenant_b", "session_1", "r1", Ok(1)),
        Err(StorageError::NotFound)
    );
    let copies = vec![
        stored("r", "t", "a", 5, None),
        stored("r", "t", "b", 7, None),
        stored("r", "t", "c", 7, None),
        stored("r", "t", "d", 9, Some(9)),
    ];
    let shown = |session: &str, now: u64| {
        accept_retrieved(&copies, "t", session, "r", Ok(now))
            .unwrap()
            .session_id
    };
    assert_eq!(shown("a", 8), "a");
    assert_eq!(shown("b", 8), "b");
    assert_eq!(shown("x", 8), "d");
    assert_eq!(shown("x", 10), "c");
    assert_eq!(shown("d", 10), "c");
}

#[test]
fn a_list_from_what_was_read() {
    let read = vec![
        stored("c", "t", "s", 2, None),
        stored("b", "t", "s", 2, Some(9)),
        stored("a", "t", "s", 3, None),
        stored("old", "t", "s", 1, Some(8)),
        stored("other", "u", "s", 1, None),
        stored("elsewhere", "t", "x", 1, None),
    ];
    let ids: Vec<String> = assemble_list(read, "t", "s", 9, None, None)
        .into_iter()
        .map(|r| r.response_id)
        .collect();
    assert_eq!(ids, vec!["b", "c", "a"]);
    let read = vec![
        stored("c", "t", "s", 2, None),
        stored("b", "t", "s", 2, None),
        stored("a", "t", "s", 3, None),
    ];
    let page = assemble_list(read, "t", "s", 9, Some(1), Some("b"));
    assert_eq!(page.len(), 1);
    assert_eq!(page[0].response_id, "c");
}

#[test]
fn a_response_is_looked_for_where_it_is_known_and_where_it_is_asked_for() {
    let known = || vec!["a".to_string(), "b".to_string()];
    assert_eq!(sessions_to_read(known(), "b"), vec!["a", "b"]);
    assert_eq!(sessions_to_read(known(), "c"), vec!["a", "b", "c"]);
    assert_eq!(sessions_to_read(Vec::new(), "c"), vec!["c"]);
}

#[test]
fn a_store_clears_all_sessions_but_its_own() {
    let known = vec!["a".to_string(), "b".to_string(), "c".to_string()];
    assert_eq!(sessions_to_clear(&known, "b"), vec!["a", "c"]);
    assert_eq!(sessions_to_clear(&known, "d"), vec!["a", "b", "c"]);
    assert!(sessions_to_clear(&vec!["a".to_string()], "a").is_empty());
    for session in sessions_to_read(known.clone(), "d") {
        let cleared = sessions_to_clear(&known, "d").contains(&session);
        assert_eq!(cleared, session != "d");
    }
}
