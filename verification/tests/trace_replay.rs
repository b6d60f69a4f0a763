use dynamo_llm::json::{JsonMember, JsonNumber, JsonValue};
use dynamo_llm::storage::manager::InMemoryResponseStorage;
use dynamo_llm::storage::response_storage::{ResponseStorage, StorageError};
use dynamo_llm::storage::trace_replay::{
    assemble_trace, build_turn_response, parse_trace_content, replay_step, replay_trace,
    ConversationTurn, ParsedTrace, ReplayStep, TraceParseError, TraceSpan,
};
use serde_json::Value;

const SAMPLE_TRACE: &str = r#"{"id": "root-123", "span_id": "root-123", "root_span_id": "root-123", "created": "2026-02-03T02:52:03.000Z", "input": "Session: test", "metadata": {"session_id": "root-123"}, "span_attributes": {"name": "Test Session", "type": "task"}}
{"id": "turn-1", "span_id": "turn-1", "root_span_id": "root-123", "span_parents": ["root-123"], "created": "2026-02-03T02:52:04.000Z", "input": "Hello, how are you?", "span_attributes": {"name": "Turn 1", "type": "task"}}
{"id": "llm-1", "span_id": "llm-1", "root_span_id": "root-123", "span_parents": ["turn-1"], "created": "2026-02-03T02:52:05.000Z", "input": [{"role": "user", "content": "Hello"}], "output": {"role": "assistant", "content": "I'm doing well!"}, "span_attributes": {"name": "llm", "type": "llm"}}"#;

fn plain(value: &Value) -> JsonValue {
    match value {
        Value::Null => JsonValue::Null,
        Value::Bool(b) => JsonValue::Bool(*b),
        Value::Number(n) => JsonValue::Number(match (n.as_u64(), n.as_i64()) {
            (Some(u), _) => JsonNumber::PosInt(u),
            (_, Some(i)) => JsonNumber::NegInt(i),
            _ => JsonNumber::Float {
                bits: n.as_f64().unwrap().to_bits(),
            },
        }),
        Value::String(s) => JsonValue::String(s.clone()),
        Value::Array(items) => JsonValue::Array(items.iter().map(plain).collect()),
        Value::Object(map) => JsonValue::Object(members(map)),
    }
}

fn members(map: &serde_json::Map<String, Value>) -> Vec<JsonMember> {
    map.iter()
        .map(|(name, value)| JsonMember {
            name: name.clone(),
            value: plain(value),
        })
        .collect()
}

fn text_field(value: &Value, name: &str) -> Result<String, String> {
    match value.get(name).and_then(|v| v.as_str()) {
        Some(s) => Ok(s.to_string()),
        None => Err(format!("missing field `{}`", name)),
    }
}

fn table(value: &Value, name: &str) -> Vec<JsonMember> {
    match value.get(name).and_then(|v| v.as_object()) {
        Some(map) => members(map),
        None => Vec::new(),
    }
}

fn decode(line: &str) -> Result<TraceSpan, String> {
    let value: Value = serde_json::from_str(line).map_err(|e| e.to_string())?;
    Ok(TraceSpan {
        id: text_field(&value, "id")?,
        span_id: text_field(&value, "span_id")?,
        root_span_id: text_field(&value, "root_span_id")?,
        span_parents: match value.get("span_parents").and_then(|v| v.as_array()) {
            Some(list) => list
                .iter()
                .map(|v| v.as_str().unwrap_or("").to_string())
                .collect(),
            None => Vec::new(),
        },
        created: text_field(&value, "created")?,
        input: value.get("input").map(plain).unwrap_or(JsonValue::Null),
        output: value.get("output").map(plain),
        metadata: table(&value, "metadata"),
        span_attributes: table(&value, "span_attributes"),
        metrics: table(&value, "metrics"),
    })
}

#[test]
fn test_parse_trace_content() {
    let result = parse_trace_content(SAMPLE_TRACE, &decode);
    assert!(result.is_ok());

    let trace = result.unwrap();
    assert_eq!(trace.session_id, "root-123");
    assert_eq!(trace.turns.len(), 1);
    assert_eq!(trace.turns[0].user_input, "Hello, how are you?");
    assert_eq!(
        trace.turns[0].assistant_output,
        Some("I'm doing well!".to_string())
    );
}

#[test]
fn test_parse_empty_trace() {
    let result = parse_trace_content("", &decode);
    assert!(matches!(result, Err(TraceParseError::EmptyTrace)));
}

#[test]
fn test_parse_invalid_json() {
    let result = parse_trace_content("not valid json", &decode);
    assert!(matches!(result, Err(TraceParseError::JsonError(1, _))));
}

#[test]
fn blank_lines_are_skipped_but_counted() {
    let content = format!("\n  \t\r\n{}\r\n\nnope", SAMPLE_TRACE);
    match parse_trace_content(&content, &decode) {
        Err(TraceParseError::JsonError(line, why)) => {
            assert_eq!(line, 7);
            assert!(!why.is_empty());
        }
        other => panic!("unexpected {:?}", other),
    }
    assert!(matches!(
        parse_trace_content(" \n\t\n", &decode),
        Err(TraceParseError::EmptyTrace)
    ));
}

fn span(id: &str, parents: Vec<&str>, kind: &str, name: &str) -> TraceSpan {
    TraceSpan {
        id: id.to_string(),
        span_id: id.to_string(),
        root_span_id: "root".to_string(),
        span_parents: parents.iter().map(|p| p.to_string()).collect(),
        created: format!("at {}", id),
        input: JsonValue::Null,
        output: None,
        metadata: Vec::new(),
        span_attributes: vec![
            JsonMember {
                name: "type".to_string(),
                value: JsonValue::String(kind.to_string()),
            },
            JsonMember {
                name: "name".to_string(),
                value: JsonValue::String(name.to_string()),
            },
        ],
        metrics: Vec::new(),
    }
}

fn object(pairs: Vec<(&str, JsonValue)>) -> JsonValue {
    JsonValue::Object(
        pairs
            .into_iter()
            .map(|(name, value)| JsonMember {
                name: name.to_string(),
                value,
            })
            .collect(),
    )
}

fn text(s: &str) -> JsonValue {
    JsonValue::String(s.to_string())
}

#[test]
fn spans_without_a_root_are_refused() {
    let spans = vec![span("a", vec!["b"], "task", "Turn 1")];
    assert!(matches!(
        assemble_trace(spans),
        Err(TraceParseError::NoRootSpan)
    ));
    assert!(matches!(
        assemble_trace(Vec::new()),
        Err(TraceParseError::EmptyTrace)
    ));
}

#[test]
fn a_span_above_itself_is_the_root() {
    let spans = vec![
        span("a", vec!["root"], "task", "Turn 1"),
        span("root", vec!["x", "root"], "task", "Session"),
    ];
    let trace = assemble_trace(spans).unwrap();
    assert_eq!(trace.root_span_id, "root");
    assert_eq!(trace.session_id, "root");
    assert_eq!(trace.turns.len(), 1);
}

#[test]
fn turns_hold_what_their_spans_tell() {
    let mut turn = span("t1", vec!["root"], "task", "Turn one");
    turn.input = JsonValue::Array(vec![
        text("user"),
        object(vec![("role", text("system")), ("content", text("no"))]),
        object(vec![("role", text("user")), ("content", JsonValue::Null)]),
        object(vec![("role", text("user")), ("content", text("ask"))]),
        object(vec![("role", text("user")), ("content", text("later"))]),
    ]);
    let mut first = span("l1", vec!["t1"], "llm", "");
    first.output = Some(object(vec![("content", text("draft"))]));
    let mut last = span("l2", vec!["t1"], "llm", "");
    last.output = Some(object(vec![("content", text("answer"))]));
    let mut none = span("l3", vec!["t1"], "llm", "");
    none.output = Some(object(vec![("content", JsonValue::Bool(true))]));
    let mut tool = span("w1", vec!["t1"], "tool", "");
    tool.input = text("in");
    tool.output = Some(text("out"));
    tool.metadata = vec![JsonMember {
        name: "tool_name".to_string(),
        value: text("search"),
    }];
    let unnamed = span("w2", vec!["t1"], "tool", "");
    let trace = assemble_trace(vec![
        span("root", vec![], "task", "Turn 0"),
        turn,
        first,
        last,
        none,
        tool,
        unnamed,
        span("t2", vec!["root"], "task", "Turn two"),
        span("t3", vec!["root"], "tool", "Turn three"),
        span("t4", vec!["root"], "task", "turn four"),
        span("t5", vec!["t1"], "task", "Turn five"),
    ])
    .unwrap();
    assert_eq!(trace.raw_spans.len(), 11);
    assert_eq!(trace.turns.len(), 2);
    let t = &trace.turns[0];
    assert_eq!(t.turn_number, 1);
    assert_eq!(t.user_input, "ask");
    assert_eq!(t.assistant_output, Some("answer".to_string()));
    assert_eq!(t.timestamp, "at t1");
    assert_eq!(t.tool_calls.len(), 2);
    assert_eq!(t.tool_calls[0].tool_name, "search");
    assert_eq!(t.tool_calls[0].input, text("in"));
    assert_eq!(t.tool_calls[0].output, Some(text("out")));
    assert_eq!(t.tool_calls[1].tool_name, "unknown");
    let t = &trace.turns[1];
    assert_eq!(t.turn_number, 2);
    assert_eq!(t.turn_id, "t2");
    assert_eq!(t.user_input, "");
    assert_eq!(t.assistant_output, None);
}

fn turn(id: &str, number: usize) -> ConversationTurn {
    ConversationTurn {
        turn_id: id.to_string(),
        turn_number: number,
        user_input: "q".to_string(),
        assistant_output: Some("a".to_string()),
        tool_calls: Vec::new(),
        timestamp: "now".to_string(),
    }
}

#[test]
fn a_turn_becomes_a_response() {
    let value = build_turn_response(&turn("x", 3), Some("resp_w"));
    let want = object(vec![
        ("id", text("resp_x")),
        ("object", text("response")),
        ("created_at", text("now")),
        (
            "output",
            JsonValue::Array(vec![object(vec![
                ("type", text("message")),
                ("role", text("assistant")),
                ("content", text("a")),
            ])]),
        ),
        (
            "metadata",
            object(vec![
                ("turn_number", JsonValue::Number(JsonNumber::PosInt(3))),
                ("user_input", text("q")),
                ("tool_calls_count", JsonValue::Number(JsonNumber::PosInt(0))),
                ("previous_response_id", text("resp_w")),
            ]),
        ),
    ]);
    assert_eq!(value, want);
}

#[test]
fn a_replay_chains_the_turns() {
    let trace = ParsedTrace {
        session_id: "session".to_string(),
        root_span_id: "root".to_string(),
        turns: vec![turn("a", 1), turn("b", 2), turn("c", 3)],
        raw_spans: Vec::new(),
    };
    let mut storage = InMemoryResponseStorage::new();
    let result = replay_trace(&mut storage, &trace, "tenant").unwrap();
    assert_eq!(result.session_id, "session");
    assert_eq!(result.tenant_id, "tenant");
    assert_eq!(result.turns_replayed, 3);
    assert_eq!(result.response_ids, vec!["resp_a", "resp_b", "resp_c"]);

    let mut previous = JsonValue::Null;
    for id in ["resp_a", "resp_b", "resp_c"] {
        let stored = storage.get_response("tenant", "session", id).unwrap();
        assert_eq!(stored.session_id, "session");
        assert_eq!(stored.expires_at, None);
        let metadata = stored.response.get("metadata").unwrap();
        assert_eq!(metadata.get("previous_response_id").unwrap(), &previous);
        previous = text(id);
    }
    assert!(storage.get_response("other", "session", "resp_a").is_err());
}

#[test]
fn a_trace_without_turns_is_replayed() {
    let trace = ParsedTrace {
        session_id: "session".to_string(),
        root_span_id: "root".to_string(),
        turns: Vec::new(),
        raw_spans: Vec::new(),
    };
    let mut storage = InMemoryResponseStorage::new();
    let result = replay_trace(&mut storage, &trace, "tenant").unwrap();
    assert_eq!(result.turns_replayed, 0);
    assert!(result.response_ids.is_empty());
}

#[test]
fn the_steps_of_a_replay() {
    let trace = ParsedTrace {
        session_id: "session".to_string(),
        root_span_id: "root".to_string(),
        turns: vec![turn("a", 1), turn("b", 2)],
        raw_spans: Vec::new(),
    };
    let mut stored: Vec<String> = Vec::new();
    match replay_step(&trace, "tenant", &stored, None) {
        ReplayStep::Store {
            response_id,
            response,
        } => {
            assert_eq!(response_id, "resp_a");
            assert_eq!(response, build_turn_response(&trace.turns[0], None));
        }
        _ => panic!("the first turn is stored"),
    }
    stored.push("given".to_string());
    match replay_step(&trace, "tenant", &stored, None) {
        ReplayStep::Store {
            response_id,
            response,
        } => {
            assert_eq!(response_id, "resp_b");
            assert_eq!(response, build_turn_response(&trace.turns[1], Some("given")));
        }
        _ => panic!("the second turn is stored"),
    }
    let failed = Some(StorageError::BackendError("full".to_string()));
    match replay_step(&trace, "tenant", &stored, failed) {
        ReplayStep::Failed(e) => assert_eq!(e, StorageError::BackendError("full".to_string())),
        _ => panic!("the error ends the replay"),
    }
    stored.push("other".to_string());
    match replay_step(&trace, "tenant", &stored, None) {
        ReplayStep::Done(result) => {
            assert_eq!(result.session_id, "session");
            assert_eq!(result.tenant_id, "tenant");
            assert_eq!(result.turns_replayed, 2);
            assert_eq!(result.response_ids, vec!["given", "other"]);
        }
        _ => panic!("all turns are stored"),
    }
}
