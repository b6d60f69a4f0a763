use dynamo_llm::json::JsonValue;
use dynamo_llm::responses::events::{
    get_event_type, ChoiceDelta, FunctionCallDelta, OutputItem, OutputStatus, Response,
    ResponseStreamEvent, Status, StreamChunk, ToolCallDelta,
};
use dynamo_llm::responses::stream_converter::ResponseStreamConverter;

fn text_chunk(content: &str) -> StreamChunk {
    StreamChunk {
        choices: vec![ChoiceDelta {
            content: Some(content.to_string()),
            tool_calls: None,
        }],
    }
}

fn tool(index: u32, id: Option<&str>, name: Option<&str>, args: Option<&str>) -> ToolCallDelta {
    ToolCallDelta {
        index,
        id: id.map(|s| s.to_string()),
        function: Some(FunctionCallDelta {
            name: name.map(|s| s.to_string()),
            arguments: args.map(|s| s.to_string()),
        }),
    }
}

fn tool_chunk(tools: Vec<ToolCallDelta>) -> StreamChunk {
    StreamChunk {
        choices: vec![ChoiceDelta {
            content: None,
            tool_calls: Some(tools),
        }],
    }
}

fn types(events: &[ResponseStreamEvent]) -> Vec<&'static str> {
    events.iter().map(get_event_type).collect()
}

fn fixed() -> ResponseStreamConverter {
    ResponseStreamConverter::with_ids(
        "m".to_string(),
        "resp_1".to_string(),
        "msg_1".to_string(),
        7,
    )
}

#[test]
fn test_streaming_response_storage_callback() {
    let mut converter = ResponseStreamConverter::new("test-model".to_string());
    let response_id = converter.response_id().to_string();
    converter = converter.with_storage_callback();

    // Simulate streaming: emit start events
    let _start_events = converter.emit_start_events();

    // Process chunks
    let _events1 = converter.process_chunk(&text_chunk("Hello, "));
    let _events2 = converter.process_chunk(&text_chunk("world!"));

    // Emit end events (this hands out the response for storage)
    let end = converter.emit_end_events();
    let stored: Response = match end.to_store {
        Some(response) => response,
        None => panic!("Response should have been captured"),
    };
    assert_eq!(stored.id, response_id);

    assert!(!stored.output.is_empty(), "Output should not be empty");
    let message = match &stored.output[0] {
        OutputItem::Message(message) => message,
        OutputItem::FunctionCall(_) => panic!("Should have a message output item"),
    };
    assert_eq!(message.content.len(), 1);
    assert_eq!(
        message.content[0].text, "Hello, world!",
        "Accumulated text should match"
    );

    // It is handed out once only.
    assert!(converter.emit_end_events().to_store.is_none());
}

#[test]
fn test_streaming_without_store_flag_no_callback() {
    let mut converter = ResponseStreamConverter::new("test-model".to_string());
    let _start_events = converter.emit_start_events();
    let _events = converter.process_chunk(&text_chunk("Test content"));
    let end = converter.emit_end_events();

    // Should still emit proper end events
    assert!(
        !end.events.is_empty(),
        "Should emit end events even without storage callback"
    );
    assert!(end.to_store.is_none());
}

#[test]
fn a_text_stream_gives_its_events_in_order() {
    let mut converter = fixed();
    let mut events = converter.emit_start_events();
    events.extend(converter.process_chunk(&text_chunk("a")));
    events.extend(converter.process_chunk(&text_chunk("")));
    events.extend(converter.process_chunk(&text_chunk("b")));
    events.extend(converter.emit_end_events_at(9).events);
    assert_eq!(
        types(&events),
        vec![
            "response.created",
            "response.in_progress",
            "response.output_item.added",
            "response.content_part.added",
            "response.output_text.delta",
            "response.output_text.delta",
            "response.output_text.done",
            "response.content_part.done",
            "response.output_item.done",
            "response.completed",
        ]
    );
    let mut numbers = Vec::new();
    for event in &events {
        numbers.push(match event {
            ResponseStreamEvent::ResponseCreated { sequence_number, .. } => *sequence_number,
            ResponseStreamEvent::ResponseInProgress { sequence_number, .. } => *sequence_number,
            ResponseStreamEvent::ResponseCompleted { sequence_number, .. } => *sequence_number,
            ResponseStreamEvent::ResponseOutputItemAdded { sequence_number, .. } => {
                *sequence_number
            }
            ResponseStreamEvent::ResponseContentPartAdded { sequence_number, .. } => {
                *sequence_number
            }
            ResponseStreamEvent::ResponseOutputTextDelta { sequence_number, .. } => {
                *sequence_number
            }
            ResponseStreamEvent::ResponseOutputTextDone { sequence_number, .. } => *sequence_number,
            ResponseStreamEvent::ResponseContentPartDone { sequence_number, .. } => {
                *sequence_number
            }
            ResponseStreamEvent::ResponseOutputItemDone { sequence_number, .. } => *sequence_number,
            other => panic!("unexpected {:?}", other),
        });
    }
    assert_eq!(numbers, (0..10).collect::<Vec<u64>>());
    match &events[9] {
        ResponseStreamEvent::ResponseCompleted { response, .. } => {
            assert_eq!(response.completed_at, Some(9));
            assert_eq!(response.created_at, 7);
            assert_eq!(response.status, Status::Completed);
            assert_eq!(response.model, "m");
            assert_eq!(response.object, "response");
            assert_eq!(response.temperature, Some(1000));
            assert_eq!(response.top_p, Some(1000));
            assert_eq!(response.frequency_penalty, Some(0));
            assert_eq!(response.metadata, Some(JsonValue::Object(Vec::new())));
            assert_eq!(response.output.len(), 1);
        }
        other => panic!("unexpected {:?}", other),
    }
    match &events[0] {
        ResponseStreamEvent::ResponseCreated { response, .. } => {
            assert_eq!(response.completed_at, None);
            assert_eq!(response.status, Status::InProgress);
            assert!(response.output.is_empty());
        }
        other => panic!("unexpected {:?}", other),
    }
}

#[test]
fn an_empty_stream_only_starts_and_completes() {
    let mut converter = fixed();
    let mut events = converter.emit_start_events();
    events.extend(converter.process_chunk(&StreamChunk { choices: Vec::new() }));
    events.extend(converter.emit_end_events_at(1).events);
    assert_eq!(
        types(&events),
        vec!["response.created", "response.in_progress", "response.completed"]
    );
}

#[test]
fn tool_calls_are_announced_with_their_first_arguments() {
    let mut converter = fixed();
    let ids = vec!["fc_0".to_string(), "fc_1".to_string()];
    let events = converter.process_chunk_with_ids(
        &tool_chunk(vec![tool(1, Some("call_b"), Some("g"), None)]),
        &ids,
    );
    assert!(events.is_empty());
    let events = converter.process_chunk_with_ids(
        &tool_chunk(vec![
            tool(1, None, None, Some("{")),
            tool(1, None, None, Some("}")),
        ]),
        &Vec::new(),
    );
    assert_eq!(
        types(&events),
        vec![
            "response.output_item.added",
            "response.function_call_arguments.delta",
            "response.function_call_arguments.delta",
        ]
    );
    match &events[0] {
        ResponseStreamEvent::ResponseOutputItemAdded { output_index, item, .. } => {
            assert_eq!(*output_index, 1);
            match item {
                OutputItem::FunctionCall(call) => {
                    assert_eq!(call.id, Some("fc_1".to_string()));
                    assert_eq!(call.call_id, "call_b");
                    assert_eq!(call.name, "g");
                    assert_eq!(call.arguments, "");
                    assert_eq!(call.status, Some(OutputStatus::InProgress));
                }
                other => panic!("unexpected {:?}", other),
            }
        }
        other => panic!("unexpected {:?}", other),
    }
    let events = converter.process_chunk_with_ids(&text_chunk("x"), &Vec::new());
    match &events[0] {
        ResponseStreamEvent::ResponseOutputItemAdded { output_index, .. } => {
            assert_eq!(*output_index, 2);
        }
        other => panic!("unexpected {:?}", other),
    }
    // The call that never got arguments is not closed, nor part of the output.
    let end = converter.emit_end_events_at(5);
    assert_eq!(
        types(&end.events),
        vec![
            "response.output_text.done",
            "response.content_part.done",
            "response.output_item.done",
            "response.function_call_arguments.done",
            "response.output_item.done",
            "response.completed",
        ]
    );
    match &end.events[3] {
        ResponseStreamEvent::ResponseFunctionCallArgumentsDone { arguments, name, .. } => {
            assert_eq!(arguments, "{}");
            assert_eq!(name, &Some("g".to_string()));
        }
        other => panic!("unexpected {:?}", other),
    }
    match &end.events[5] {
        ResponseStreamEvent::ResponseCompleted { response, .. } => {
            assert_eq!(response.output.len(), 2);
        }
        other => panic!("unexpected {:?}", other),
    }
}

#[test]
fn fresh_identifiers_have_their_prefixes() {
    let mut converter = ResponseStreamConverter::new("m".to_string());
    assert!(converter.response_id().starts_with("resp_"));
    assert_eq!(converter.response_id().len(), 5 + 32);
    assert_ne!(
        converter.response_id(),
        ResponseStreamConverter::new("m".to_string()).response_id()
    );
    let chunk = tool_chunk(vec![tool(0, Some("c"), Some("f"), Some("{}"))]);
    assert!(converter.can_process(&chunk));
    assert!(converter.can_end());
    let events = converter.process_chunk(&chunk);
    match &events[0] {
        ResponseStreamEvent::ResponseOutputItemAdded { item, .. } => match item {
            OutputItem::FunctionCall(call) => {
                let id = call.id.clone().unwrap();
                assert!(id.starts_with("fc_"));
                assert_eq!(id.len(), 3 + 32);
                assert_eq!(id.as_bytes()[3 + 12], b'4');
            }
            other => panic!("unexpected {:?}", other),
        },
        other => panic!("unexpected {:?}", other),
    }
    let far = tool_chunk(vec![tool(u32::MAX, None, None, None)]);
    assert!(!converter.can_process(&far));
}

#[test]
fn how_a_stream_is_cut_does_not_matter() {
    let ids = vec!["fc_0".to_string()];
    let mut whole = fixed();
    let mut both = text_chunk("a");
    both.choices.push(ChoiceDelta {
        content: Some("b".to_string()),
        tool_calls: Some(vec![tool(0, None, None, Some("1"))]),
    });
    let at_once = whole.process_chunk_with_ids(&both, &ids);

    let mut cut = fixed();
    let mut in_parts = cut.process_chunk_with_ids(&text_chunk("a"), &Vec::new());
    in_parts.extend(cut.process_chunk_with_ids(
        &StreamChunk {
            choices: vec![ChoiceDelta {
                content: Some("b".to_string()),
                tool_calls: Some(vec![tool(0, None, None, Some("1"))]),
            }],
        },
        &ids,
    ));
    assert_eq!(at_once, in_parts);
    assert_eq!(
        whole.emit_end_events_at(1).events,
        cut.emit_end_events_at(1).events
    );
}

#[test]
fn every_event_has_its_name() {
    let mut converter = fixed();
    let response = match converter.emit_start_events().remove(0) {
        ResponseStreamEvent::ResponseCreated { response, .. } => response,
        other => panic!("unexpected {:?}", other),
    };
    let failed = ResponseStreamEvent::ResponseFailed {
        sequence_number: 0,
        response,
    };
    assert_eq!(get_event_type(&failed), "response.failed");
    assert_eq!(
        get_event_type(&ResponseStreamEvent::Other { sequence_number: 0 }),
        "unknown"
    );
}

#[test]
fn items_are_announced_once_and_end_with_all_that_was_passed_on() {
    let mut converter = fixed();
    let mut events = converter.emit_start_events();
    for chunk in [
        tool_chunk(vec![tool(1, Some("early"), None, None)]),
        text_chunk("a"),
        tool_chunk(vec![tool(1, Some("c1"), Some("f"), Some(""))]),
        text_chunk("b"),
        tool_chunk(vec![tool(0, Some("c0"), Some("g"), Some("x")), tool(1, None, None, Some("{"))]),
        tool_chunk(vec![tool(1, None, Some("late"), Some("}"))]),
    ] {
        events.extend(converter.process_chunk(&chunk));
    }
    let mut added: Vec<(u32, String)> = Vec::new();
    let mut text = String::new();
    let mut arguments = vec![String::new(); 3];
    for event in &events {
        match event {
            ResponseStreamEvent::ResponseOutputItemAdded {
                output_index, item, ..
            } => match item {
                OutputItem::Message(m) => added.push((*output_index, m.id.clone())),
                OutputItem::FunctionCall(c) => {
                    assert_eq!(c.arguments, "");
                    added.push((*output_index, c.call_id.clone()));
                }
            },
            ResponseStreamEvent::ResponseOutputTextDelta { delta, item_id, .. } => {
                assert_eq!(item_id, "msg_1");
                text.push_str(delta);
            }
            ResponseStreamEvent::ResponseFunctionCallArgumentsDelta {
                output_index, delta, ..
            } => arguments[*output_index as usize].push_str(delta),
            _ => {}
        }
    }
    assert_eq!(
        added,
        vec![
            (2, "msg_1".to_string()),
            (1, "c1".to_string()),
            (0, "c0".to_string()),
        ]
    );
    assert_eq!(text, "ab");
    assert_eq!(arguments, vec!["x", "{}", ""]);
    let end = converter.emit_end_events_at(9);
    assert_eq!(
        types(&end.events),
        vec![
            "response.output_text.done",
            "response.content_part.done",
            "response.output_item.done",
            "response.function_call_arguments.done",
            "response.output_item.done",
            "response.function_call_arguments.done",
            "response.output_item.done",
            "response.completed",
        ]
    );
    match &end.events[5] {
        ResponseStreamEvent::ResponseFunctionCallArgumentsDone {
            arguments,
            name,
            output_index,
            ..
        } => {
            assert_eq!(arguments, "{}");
            assert_eq!(name, &Some("late".to_string()));
            assert_eq!(*output_index, 1);
        }
        _ => panic!("the second call ends here"),
    }
}

#[test]
fn a_stream_without_text_or_arguments_only_completes() {
    let mut converter = fixed();
    converter.emit_start_events();
    let none = converter.process_chunk(&tool_chunk(vec![tool(0, Some("c"), Some("f"), None)]));
    assert!(none.is_empty());
    assert!(converter.process_chunk(&text_chunk("")).is_empty());
    let end = converter.emit_end_events_at(9);
    assert_eq!(types(&end.events), vec!["response.completed"]);
    match &end.events[0] {
        ResponseStreamEvent::ResponseCompleted { response, .. } => {
            assert!(response.output.is_empty());
        }
        _ => panic!("the response is completed"),
    }
}
