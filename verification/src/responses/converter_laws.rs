//! What holds of a converter over all its calls, from the first events to the last,
//! stated on the chunks that go in and the events that come out.

use crate::responses::events;
use crate::responses::events::{
    get_event_type, AssistantRole, Delta, Item, OutputItem, OutputStatus, Response,
    ResponseStreamEvent, ServiceTier, Status, StreamChunk, StreamEvent, TextPart,
    TextResponseFormatConfiguration, ToolCallDelta, ToolChoiceOptions, ToolDelta, Truncation,
};
use crate::responses::stream_converter;
use crate::responses::stream_converter::{ConverterState, ResponseStreamConverter, StreamEnd};
use crate::responses::stream_laws;
use crate::responses::stream_laws::{
    after_stream, announced_calls, brings_arguments, brought_arguments, latest_id, latest_name,
    stream_events, stream_text, stream_tools, untouched,
};
use vstd::prelude::*;

verus! {

/// Every event has its own name on the wire.
pub proof fn event_names(event: &ResponseStreamEvent, name: &'static str)
    requires
        call_ensures(get_event_type, (event,), name),
    ensures
        event is ResponseCreated ==> name@ == "response.created"@,
        event is ResponseInProgress ==> name@ == "response.in_progress"@,
        event is ResponseCompleted ==> name@ == "response.completed"@,
        event is ResponseFailed ==> name@ == "response.failed"@,
        event is ResponseIncomplete ==> name@ == "response.incomplete"@,
        event is ResponseQueued ==> name@ == "response.queued"@,
        event is ResponseOutputItemAdded ==> name@ == "response.output_item.added"@,
        event is ResponseContentPartAdded ==> name@ == "response.content_part.added"@,
        event is ResponseOutputTextDelta ==> name@ == "response.output_text.delta"@,
        event is ResponseOutputTextDone ==> name@ == "response.output_text.done"@,
        event is ResponseContentPartDone ==> name@ == "response.content_part.done"@,
        event is ResponseOutputItemDone ==> name@ == "response.output_item.done"@,
        event is ResponseFunctionCallArgumentsDelta ==> name@
            == "response.function_call_arguments.delta"@,
        event is ResponseFunctionCallArgumentsDone ==> name@
            == "response.function_call_arguments.done"@,
        event is Other ==> name@ == "unknown"@,
{
}

/// Whether a response is in the given state and has in all else what a response has
/// by default: nothing that a request would bring.
pub open spec fn is_response(
    response: Response,
    id: Seq<char>,
    model: Seq<char>,
    created_at: u64,
    completed_at: Option<u64>,
    status: Status,
) -> bool {
    &&& response.id@ == id
    &&& response.object@ == "response"@
    &&& response.model@ == model
    &&& response.created_at == created_at
    &&& response.completed_at == completed_at
    &&& response.status == status
    &&& response.background == Some(false)
    &&& response.parallel_tool_calls == Some(true)
    &&& response.store == Some(true)
    &&& response.temperature == Some(1000i64)
    &&& response.top_p == Some(1000i64)
    &&& response.frequency_penalty == Some(0i64)
    &&& response.presence_penalty == Some(0i64)
    &&& response.top_logprobs == Some(0u8)
    &&& response.tool_choice == Some(ToolChoiceOptions::Auto)
    &&& response.truncation == Some(Truncation::Disabled)
    &&& response.service_tier == Some(ServiceTier::Auto)
    &&& response.text matches Some(text) && text.format == TextResponseFormatConfiguration::Text
        && text.verbosity is None
    &&& response.tools matches Some(tools) && tools@.len() == 0
    &&& response.metadata matches Some(crate::json::JsonValue::Object(members)) && members@.len()
        == 0
    &&& response.error is None
    &&& response.incomplete_details is None
    &&& response.instructions is None
    &&& response.previous_response_id is None
    &&& response.conversation is None
    &&& response.billing is None
    &&& response.max_output_tokens is None
    &&& response.max_tool_calls is None
    &&& response.prompt is None
    &&& response.prompt_cache_key is None
    &&& response.prompt_cache_retention is None
    &&& response.reasoning is None
    &&& response.safety_identifier is None
    &&& response.usage is None
}

proof fn response_view_holds(response: Response)
    requires
        response@.default_settings,
    ensures
        is_response(
            response,
            response@.id,
            response@.model,
            response@.created_at,
            response@.completed_at,
            response@.status,
        ) == (response@.object == "response"@),
        response.output@.len() == response@.output.len(),
        forall|k: int|
            0 <= k < response.output@.len() ==> (#[trigger] response.output@[k])@
                == response@.output[k],
{
    broadcast use {crate::json::json_views_items, crate::json::member_views_items};

    assert(crate::json::json_views(response.tools->0@).len() == response.tools->0@.len());
    let members = response.metadata->0->Object_0@;
    assert(crate::json::member_views(members).len() == members.len());
}

/// Whether an item is a message of the assistant with one piece of text, or with
/// none yet.
pub open spec fn is_message(
    item: OutputItem,
    id: Seq<char>,
    text: Option<Seq<char>>,
    status: OutputStatus,
) -> bool {
    item matches OutputItem::Message(message) && {
        &&& message.id@ == id
        &&& message.role == AssistantRole::Assistant
        &&& message.status == status
        &&& text is None ==> message.content@.len() == 0
        &&& text matches Some(s) ==> message.content@.len() == 1 && message.content@[0].text@ == s
            && message.content@[0].annotations@.len() == 0
    }
}

/// Whether an item is a function call.
pub open spec fn is_call(
    item: OutputItem,
    call_id: Seq<char>,
    name: Seq<char>,
    arguments: Seq<char>,
    status: OutputStatus,
) -> bool {
    item matches OutputItem::FunctionCall(call) && {
        &&& call.id is Some
        &&& call.call_id@ == call_id
        &&& call.name@ == name
        &&& call.arguments@ == arguments
        &&& call.status == Some(status)
    }
}

/// The first events say that a response exists and that it is in progress, both
/// without output, with the next two numbers.
pub proof fn start_holds(
    converter: &mut ResponseStreamConverter,
    res: Vec<ResponseStreamEvent>,
)
    requires
        call_ensures(ResponseStreamConverter::emit_start_events, (converter,), res),
    ensures
        ({
            let before = old(converter)@;
            let good = |r: Response|
                is_response(
                    r,
                    before.response_id,
                    before.model,
                    before.created_at,
                    None,
                    Status::InProgress,
                ) && r.output@.len() == 0;
            &&& res@.len() == 2
            &&& res@[0] matches ResponseStreamEvent::ResponseCreated { sequence_number, response }
                && sequence_number == before.sequence_number && good(response)
            &&& res@[1] matches ResponseStreamEvent::ResponseInProgress {
                sequence_number,
                response,
            } && sequence_number == before.sequence_number + 1 && good(response)
        }),
        final(converter)@ == (ConverterState {
            sequence_number: old(converter)@.sequence_number + 2,
            ..old(converter)@
        }),
{
    let views = events::events_view(res@);
    assert(views.len() == res@.len());
    assert(views[0] == res@[0]@ && views[1] == res@[1]@);
    response_view_holds(res@[0]->ResponseCreated_response);
    response_view_holds(res@[1]->ResponseInProgress_response);
}

/// The chunks as mathematics.
pub open spec fn chunk_views(chunks: Seq<StreamChunk>) -> Seq<Seq<Delta>> {
    Seq::new(chunks.len(), |i: int| chunks[i]@)
}

/// Whether processing chunks, one after the other, takes a converter through the
/// states and gives the events.
spec fn fed_all(
    chunks: Seq<StreamChunk>,
    states: Seq<ConverterState>,
    given: Seq<Vec<ResponseStreamEvent>>,
) -> bool {
    &&& states.len() == chunks.len() + 1
    &&& given.len() == chunks.len()
    &&& forall|i: int|
        0 <= i < chunks.len() ==> fed(
            #[trigger] states[i],
            chunks[i],
            states[i + 1],
            given[i],
        )
}

spec fn fed(
    before: ConverterState,
    chunk: StreamChunk,
    after: ConverterState,
    given: Vec<ResponseStreamEvent>,
) -> bool {
    exists|fresh: Seq<Seq<char>>| #[trigger]
        stream_converter::processed(
            before,
            chunk@,
            fresh,
            after,
            events::events_view(given@),
        )
}

/// The events of several calls, one after the other.
pub open spec fn all_given(given: Seq<Vec<ResponseStreamEvent>>) -> Seq<ResponseStreamEvent>
    decreases given.len(),
{
    if given.len() == 0 {
        Seq::empty()
    } else {
        all_given(given.drop_last()) + given.last()@
    }
}

proof fn fresh_prefix(
    start: ConverterState,
    chunks: Seq<Seq<Delta>>,
    fresh: Seq<Seq<Seq<char>>>,
    more: Seq<Seq<char>>,
)
    requires
        chunks.len() <= fresh.len(),
    ensures
        after_stream(start, chunks, fresh.push(more)) == after_stream(start, chunks, fresh),
        stream_events(start, chunks, fresh.push(more)) == stream_events(start, chunks, fresh),
    decreases chunks.len(),
{
    if chunks.len() > 0 {
        fresh_prefix(start, chunks.drop_last(), fresh, more);
        assert(fresh.push(more)[chunks.len() - 1] == fresh[chunks.len() - 1]);
    }
}

proof fn fed_is_stream(
    chunks: Seq<StreamChunk>,
    states: Seq<ConverterState>,
    given: Seq<Vec<ResponseStreamEvent>>,
) -> (fresh: Seq<Seq<Seq<char>>>)
    requires
        fed_all(chunks, states, given),
    ensures
        fresh.len() == chunks.len(),
        states.last() == after_stream(states[0], chunk_views(chunks), fresh),
        events::events_view(all_given(given)) == stream_events(
            states[0],
            chunk_views(chunks),
            fresh,
        ),
    decreases chunks.len(),
{
    let views = chunk_views(chunks);
    if chunks.len() == 0 {
        assert(events::events_view(all_given(given)) =~= Seq::empty());
        Seq::empty()
    } else {
        let n = chunks.len() - 1;
        let rest = chunks.drop_last();
        let before = states.drop_last();
        assert forall|i: int| 0 <= i < rest.len() implies fed(
            #[trigger] before[i],
            rest[i],
            before[i + 1],
            given.drop_last()[i],
        ) by {
            assert(fed(states[i], chunks[i], states[i + 1], given[i]));
        }
        let fresh = fed_is_stream(rest, before, given.drop_last());
        assert(views.drop_last() =~= chunk_views(rest));
        assert(before.last() == states[n]);
        assert(fed(states[n], chunks[n], states[n + 1], given[n]));
        let more = choose|more: Seq<Seq<char>>|
            #[trigger] stream_converter::processed(
                states[n],
                chunks[n]@,
                more,
                states[n + 1],
                events::events_view(given[n]@),
            );
        fresh_prefix(states[0], views.drop_last(), fresh, more);
        assert(views.last() == chunks[n]@);
        assert(fresh.push(more)[n] == more);
        assert(events::events_view(all_given(given)) =~= events::events_view(
            all_given(given.drop_last()),
        ) + events::events_view(given[n]@));
        fresh.push(more)
    }
}

/// The chunks of a stream bring text and tool calls as they hold them: a choice
/// without text brings none, and one without tool calls none of these.
pub proof fn chunk_view_holds(chunk: StreamChunk)
    ensures
        chunk@.len() == chunk.choices@.len(),
        forall|i: int|
            #![trigger chunk@[i]]
            0 <= i < chunk.choices@.len() ==> {
                let choice = chunk.choices@[i];
                &&& choice.content matches Some(text) ==> chunk@[i].content == text@
                &&& choice.content is None ==> chunk@[i].content.len() == 0
                &&& choice.tool_calls is None ==> chunk@[i].tools.len() == 0
                &&& choice.tool_calls matches Some(calls) ==> {
                    &&& chunk@[i].tools.len() == calls@.len()
                    &&& forall|k: int|
                        0 <= k < calls@.len() ==> tool_holds(
                            #[trigger] calls@[k],
                            chunk@[i].tools[k],
                        )
                }
            },
{
}

/// Whether a tool call as mathematics has what the tool call in a chunk has.
pub open spec fn tool_holds(call: ToolCallDelta, tool: ToolDelta) -> bool {
    &&& tool.index == call.index
    &&& call.id matches Some(id) ==> tool.id == Some(id@)
    &&& call.id is None ==> tool.id is None
    &&& call.function is None ==> tool.name is None && tool.arguments is None
    &&& call.function matches Some(f) ==> {
        &&& f.name matches Some(name) ==> tool.name == Some(name@)
        &&& f.name is None ==> tool.name is None
        &&& f.arguments matches Some(args) ==> tool.arguments == Some(args@)
        &&& f.arguments is None ==> tool.arguments is None
    }
}

/// At the end of a stream, `response.completed` comes last. Its output is the
/// message, with all the text that the chunks brought, where they brought any; and
/// behind it each function call for which they brought arguments, in the order of
/// the calls' numbers, with all the pieces of its arguments put together, the latest
/// call identifier and the latest name.
pub proof fn completed_output_holds(
    chunks: Seq<StreamChunk>,
    converters: Seq<&mut ResponseStreamConverter>,
    given: Seq<Vec<ResponseStreamEvent>>,
    converter: &mut ResponseStreamConverter,
    now: u64,
    end: StreamEnd,
)
    requires
        converters.len() == chunks.len(),
        given.len() == chunks.len(),
        forall|i: int|
            0 <= i < chunks.len() ==> call_ensures(
                ResponseStreamConverter::process_chunk,
                (#[trigger] converters[i], &chunks[i]),
                given[i],
            ),
        forall|i: int|
            0 <= i < chunks.len() ==> final(#[trigger] converters[i])@ == (if i + 1
                < converters.len() {
                converters[i + 1]@
            } else {
                old(converter)@
            }),
        untouched(start_of(converters, old(converter)@)),
        call_ensures(ResponseStreamConverter::emit_end_events_at, (converter, now), end),
    ensures
        end.events@.len() > 0,
        ({
            let start = start_of(converters, old(converter)@);
            &&& end.events@.last() matches ResponseStreamEvent::ResponseCompleted {
                sequence_number,
                response,
            } && response_completes(response, start, now) && output_holds(
                response.output@,
                chunks,
                start,
            )
            &&& end.to_store is Some <==> start.stores
            &&& end.to_store matches Some(response) ==> response_completes(response, start, now)
                && output_holds(response.output@, chunks, start)
        }),
        !final(converter)@.stores,
{
    let states = states_of(converters, converter@);
    assert forall|i: int| 0 <= i < chunks.len() implies fed(
        #[trigger] states[i],
        chunks[i],
        states[i + 1],
        given[i],
    ) by {
        assert(states[i] == converters[i]@);
        assert(final(converters[i])@ == states[i + 1]);
        assert(call_ensures(
            ResponseStreamConverter::process_chunk,
            (converters[i], &chunks[i]),
            given[i],
        ));
    }
    let fresh = fed_is_stream(chunks, states, given);
    let views = chunk_views(chunks);
    let list = events::events_view(end.events@);
    assert(list.len() == end.events@.len());
    assert(list.last() == end.events@.last()@);
    stream_laws::stream_keeps_identity(states[0], views, fresh);
    let response = end.events@.last()->ResponseCompleted_response;
    completed_response_holds(chunks, states[0], fresh, now, response);
    if let Some(kept) = end.to_store {
        completed_response_holds(chunks, states[0], fresh, now, kept);
    }
}

/// The state in which the first of several calls finds a converter.
pub open spec fn start_of(
    converters: Seq<&mut ResponseStreamConverter>,
    last: ConverterState,
) -> ConverterState {
    if converters.len() > 0 {
        converters[0]@
    } else {
        last
    }
}

spec fn states_of(
    converters: Seq<&mut ResponseStreamConverter>,
    last: ConverterState,
) -> Seq<ConverterState> {
    Seq::new(
        converters.len() + 1,
        |i: int|
            if i < converters.len() {
                converters[i]@
            } else {
                last
            },
    )
}

/// Whether a response completes the one that a converter started.
pub open spec fn response_completes(
    response: Response,
    start: ConverterState,
    now: u64,
) -> bool {
    is_response(
        response,
        start.response_id,
        start.model,
        start.created_at,
        Some(now),
        Status::Completed,
    )
}

/// Whether an output is the message and the function calls that chunks brought.
pub open spec fn output_holds(
    output: Seq<OutputItem>,
    chunks: Seq<StreamChunk>,
    start: ConverterState,
) -> bool {
    let text = stream_text(chunk_views(chunks));
    let tools = stream_tools(chunk_views(chunks));
    let first: int = if text.len() > 0 {
        1
    } else {
        0
    };
    &&& text.len() > 0 ==> output.len() > 0 && is_message(
        output[0],
        start.message_item_id,
        Some(text),
        OutputStatus::Completed,
    )
    &&& exists|order: Seq<int>| #[trigger]
        lists_calls(order, tools) && output.len() == first + order.len() && forall|j: int|
            first <= j < output.len() ==> is_call(
                #[trigger] output[j],
                latest_id(tools, order[j - first]),
                latest_name(tools, order[j - first]),
                brought_arguments(tools, order[j - first]),
                OutputStatus::Completed,
            )
}

/// Whether numbers are in ascending order, and are exactly those of the function
/// calls for which tool calls bring arguments.
pub open spec fn lists_calls(order: Seq<int>, tools: Seq<ToolDelta>) -> bool {
    &&& forall|a: int, b: int|
        0 <= a < b < order.len() ==> #[trigger] order[a] < #[trigger] order[b]
    &&& forall|a: int| 0 <= a < order.len() ==> brings_arguments(tools, #[trigger] order[a])
    &&& forall|i: int| #[trigger] brings_arguments(tools, i) ==> order.contains(i)
}

proof fn brought_is_mentioned(tools: Seq<ToolDelta>, i: int) -> (k: int)
    requires
        brings_arguments(tools, i),
    ensures
        0 <= k < tools.len(),
        tools[k].index == i,
    decreases tools.len(),
{
    if tools.last().index == i && tools.last().arguments is Some {
        tools.len() - 1
    } else {
        brought_is_mentioned(tools.drop_last(), i)
    }
}

proof fn announced_are_listed(state: ConverterState, tools: Seq<ToolDelta>)
    requires
        stream_laws::calls_described(state, tools),
    ensures
        lists_calls(announced_calls(tools, state.calls.len() as int), tools),
{
    let n = state.calls.len() as int;
    stream_laws::announced_calls_ascend(tools, n);
    let order = announced_calls(tools, n);
    assert forall|i: int| #[trigger] brings_arguments(tools, i) implies order.contains(i) by {
        let k = brought_is_mentioned(tools, i);
        assert(tools[k].index < state.calls.len());
    }
}

proof fn completed_response_holds(
    chunks: Seq<StreamChunk>,
    start: ConverterState,
    fresh: Seq<Seq<Seq<char>>>,
    now: u64,
    response: Response,
)
    requires
        untouched(start),
        response@ == after_stream(start, chunk_views(chunks), fresh).final_response(now),
    ensures
        is_response(
            response,
            start.response_id,
            start.model,
            start.created_at,
            Some(now),
            Status::Completed,
        ),
        output_holds(response.output@, chunks, start),
{
    let views = chunk_views(chunks);
    let ended = after_stream(start, views, fresh);
    let tools = stream_tools(views);
    let text = stream_text(views);
    stream_laws::stream_keeps_identity(start, views, fresh);
    stream_laws::stream_end_order(start, views, fresh, now);
    stream_laws::stream_describes_calls(start, views, fresh);
    response_view_holds(response);
    announced_are_listed(ended, tools);
    stream_laws::announced_calls_ascend(tools, ended.calls.len() as int);
    let order = announced_calls(tools, ended.calls.len() as int);
    let first: int = if text.len() > 0 {
        1
    } else {
        0
    };
    let output = response.output@;
    assert(output.len() == first + order.len());
    if text.len() > 0 {
        assert(output[0]@ == response@.output[0]);
        message_view_holds(output[0], text);
    }
    assert forall|j: int| first <= j < output.len() implies is_call(
        #[trigger] output[j],
        latest_id(tools, order[j - first]),
        latest_name(tools, order[j - first]),
        brought_arguments(tools, order[j - first]),
        OutputStatus::Completed,
    ) by {
        let i = order[j - first];
        assert(stream_laws::described(ended.calls[i], tools, i));
        assert(output[j]@ == response@.output[j]);
    }
    assert(lists_calls(order, tools));
}

proof fn message_view_holds(item: OutputItem, text: Seq<char>)
    requires
        item@ is Message,
        item@->content.len() == 1,
        item@->content[0] == (TextPart {
            text,
            annotations: Seq::empty(),
            logprobs: Some(Seq::empty()),
        }),
    ensures
        is_message(item, item@->Message_id, Some(text), item@->Message_status) == (item@->role
            == AssistantRole::Assistant),
{
    let message = item->Message_0;
    assert(item@->content[0] == message.content@[0]@);
    crate::json::json_views_items(message.content@[0].annotations@);
}

/// Whether the events that close a function call are its whole arguments and the
/// whole call.
pub open spec fn closes_call(
    done: ResponseStreamEvent,
    item_done: ResponseStreamEvent,
    tools: Seq<ToolDelta>,
    i: int,
) -> bool {
    &&& done matches ResponseStreamEvent::ResponseFunctionCallArgumentsDone {
        item_id,
        output_index,
        arguments,
        name,
        ..
    } && arguments@ == brought_arguments(tools, i) && (name matches Some(n) && n@ == latest_name(
        tools,
        i,
    ))
    &&& item_done matches ResponseStreamEvent::ResponseOutputItemDone { output_index, item, .. }
        && output_index == done->ResponseFunctionCallArgumentsDone_output_index && is_call(
        item,
        latest_id(tools, i),
        latest_name(tools, i),
        brought_arguments(tools, i),
        OutputStatus::Completed,
    ) && item->FunctionCall_0.id->0@ == done->ResponseFunctionCallArgumentsDone_item_id@
}

/// Whether the events that close the message are its whole text.
pub open spec fn closes_message(
    text_done: ResponseStreamEvent,
    part_done: ResponseStreamEvent,
    item_done: ResponseStreamEvent,
    id: Seq<char>,
    text: Seq<char>,
) -> bool {
    &&& text_done matches ResponseStreamEvent::ResponseOutputTextDone {
        item_id,
        content_index,
        text: all,
        ..
    } && item_id@ == id && content_index == 0 && all@ == text
    &&& part_done matches ResponseStreamEvent::ResponseContentPartDone {
        item_id,
        content_index,
        part,
        ..
    } && item_id@ == id && content_index == 0 && part.text@ == text
    &&& item_done matches ResponseStreamEvent::ResponseOutputItemDone { item, .. } && is_message(
        item,
        id,
        Some(text),
        OutputStatus::Completed,
    )
    &&& text_done->ResponseOutputTextDone_output_index
        == part_done->ResponseContentPartDone_output_index
    &&& text_done->ResponseOutputTextDone_output_index
        == item_done->ResponseOutputItemDone_output_index
}

/// The number of an event.
pub open spec fn number_of(event: ResponseStreamEvent) -> u64 {
    match event {
        ResponseStreamEvent::ResponseCreated { sequence_number, .. } => sequence_number,
        ResponseStreamEvent::ResponseInProgress { sequence_number, .. } => sequence_number,
        ResponseStreamEvent::ResponseCompleted { sequence_number, .. } => sequence_number,
        ResponseStreamEvent::ResponseFailed { sequence_number, .. } => sequence_number,
        ResponseStreamEvent::ResponseIncomplete { sequence_number, .. } => sequence_number,
        ResponseStreamEvent::ResponseQueued { sequence_number, .. } => sequence_number,
        ResponseStreamEvent::ResponseOutputItemAdded { sequence_number, .. } => sequence_number,
        ResponseStreamEvent::ResponseContentPartAdded { sequence_number, .. } => sequence_number,
        ResponseStreamEvent::ResponseOutputTextDelta { sequence_number, .. } => sequence_number,
        ResponseStreamEvent::ResponseOutputTextDone { sequence_number, .. } => sequence_number,
        ResponseStreamEvent::ResponseContentPartDone { sequence_number, .. } => sequence_number,
        ResponseStreamEvent::ResponseOutputItemDone { sequence_number, .. } => sequence_number,
        ResponseStreamEvent::ResponseFunctionCallArgumentsDelta { sequence_number, .. } =>
            sequence_number,
        ResponseStreamEvent::ResponseFunctionCallArgumentsDone { sequence_number, .. } =>
            sequence_number,
        ResponseStreamEvent::Other { sequence_number } => sequence_number,
    }
}

/// A stream ends, where the chunks brought text, with three events that close the
/// message and hold all of the text; then, for each function call for which they
/// brought arguments and in the order of the calls' numbers, with two that hold all
/// of its arguments, the latest name and the latest call identifier; then with one
/// that completes the response. They are numbered one after the other.
pub proof fn closing_events_hold(
    chunks: Seq<StreamChunk>,
    converters: Seq<&mut ResponseStreamConverter>,
    given: Seq<Vec<ResponseStreamEvent>>,
    converter: &mut ResponseStreamConverter,
    now: u64,
    end: StreamEnd,
) -> (order: Seq<int>)
    requires
        converters.len() == chunks.len(),
        given.len() == chunks.len(),
        forall|i: int|
            0 <= i < chunks.len() ==> call_ensures(
                ResponseStreamConverter::process_chunk,
                (#[trigger] converters[i], &chunks[i]),
                given[i],
            ),
        forall|i: int|
            0 <= i < chunks.len() ==> final(#[trigger] converters[i])@ == (if i + 1
                < converters.len() {
                converters[i + 1]@
            } else {
                old(converter)@
            }),
        untouched(start_of(converters, old(converter)@)),
        call_ensures(ResponseStreamConverter::emit_end_events_at, (converter, now), end),
    ensures
        ({
            let start = start_of(converters, old(converter)@);
            let text = stream_text(chunk_views(chunks));
            let tools = stream_tools(chunk_views(chunks));
            let first: int = if text.len() > 0 {
                3
            } else {
                0
            };
            &&& lists_calls(order, tools)
            &&& end.events@.len() == first + 2 * order.len() + 1
            &&& text.len() > 0 ==> closes_message(
                end.events@[0],
                end.events@[1],
                end.events@[2],
                start.message_item_id,
                text,
            )
            &&& forall|j: int|
                0 <= j < order.len() ==> closes_call(
                    end.events@[first + 2 * j],
                    end.events@[first + 2 * j + 1],
                    tools,
                    #[trigger] order[j],
                )
            &&& forall|k: int|
                0 <= k < end.events@.len() ==> number_of(#[trigger] end.events@[k]) == old(
                    converter,
                )@.sequence_number + k
        }),
{
    let states = states_of(converters, converter@);
    assert forall|i: int| 0 <= i < chunks.len() implies fed(
        #[trigger] states[i],
        chunks[i],
        states[i + 1],
        given[i],
    ) by {
        assert(states[i] == converters[i]@);
        assert(final(converters[i])@ == states[i + 1]);
        assert(call_ensures(
            ResponseStreamConverter::process_chunk,
            (converters[i], &chunks[i]),
            given[i],
        ));
    }
    let fresh = fed_is_stream(chunks, states, given);
    let start = states[0];
    let views = chunk_views(chunks);
    let ended = after_stream(start, views, fresh);
    let tools = stream_tools(views);
    let text = stream_text(views);
    let number = ended.sequence_number;
    let list = events::events_view(end.events@);
    assert(list.len() == end.events@.len());
    let order = closing_views(start, views, fresh, now);
    let first: int = if text.len() > 0 {
        3
    } else {
        0
    };
    if text.len() > 0 {
        assert(list[0] == end.events@[0]@);
        assert(list[1] == end.events@[1]@);
        assert(list[2] == end.events@[2]@);
        message_view_holds(end.events@[2]->ResponseOutputItemDone_item, text);
    }
    assert forall|j: int| 0 <= j < order.len() implies closes_call(
        end.events@[first + 2 * j],
        end.events@[first + 2 * j + 1],
        tools,
        #[trigger] order[j],
    ) by {
        assert(list[first + 2 * j] == end.events@[first + 2 * j]@);
        assert(list[first + 2 * j + 1] == end.events@[first + 2 * j + 1]@);
        call_closed_holds(
            end.events@[first + 2 * j],
            end.events@[first + 2 * j + 1],
            tools,
            order[j],
        );
    }
    stream_converter::end_numbering(ended, now);
    assert forall|k: int| 0 <= k < end.events@.len() implies number_of(#[trigger] end.events@[k])
        == number + k by {
        assert(list[k].number() == number + k);
        assert(list[k] == end.events@[k]@);
    }
    order
}

proof fn call_end_at(
    calls: Seq<stream_converter::CallState>,
    order: Seq<int>,
    number: int,
    j: int,
)
    requires
        0 <= j < order.len(),
    ensures
        ({
            let all = stream_laws::calls_end(calls, order, number);
            let call = calls[order[j]];
            &&& all.len() == 2 * order.len()
            &&& all[2 * j] == (StreamEvent::ArgumentsDone {
                sequence_number: number + 2 * j,
                item_id: call.item_id,
                output_index: call.output_index,
                arguments: call.arguments,
                name: Some(call.name),
            })
            &&& all[2 * j + 1] == (StreamEvent::ItemDone {
                sequence_number: number + 2 * j + 1,
                output_index: call.output_index,
                item: Item::FunctionCall {
                    id: Some(call.item_id),
                    call_id: call.call_id,
                    name: call.name,
                    arguments: call.arguments,
                    status: Some(OutputStatus::Completed),
                },
            })
        }),
    decreases order.len(),
{
    let rest = order.drop_last();
    let before = stream_laws::calls_end(calls, rest, number);
    let last = stream_laws::call_end(calls[order.last()], number + 2 * (order.len() - 1));
    let all = stream_laws::calls_end(calls, order, number);
    assert(all == before + last);
    assert(last.len() == 2);
    calls_end_len(calls, rest, number);
    if j < order.len() - 1 {
        call_end_at(calls, rest, number, j);
        assert(all[2 * j] == before[2 * j]);
        assert(all[2 * j + 1] == before[2 * j + 1]);
        assert(rest[j] == order[j]);
    } else {
        assert(all[2 * j] == last[0]);
        assert(all[2 * j + 1] == last[1]);
    }
}

proof fn calls_end_len(
    calls: Seq<stream_converter::CallState>,
    order: Seq<int>,
    number: int,
)
    ensures
        stream_laws::calls_end(calls, order, number).len() == 2 * order.len(),
    decreases order.len(),
{
    if order.len() > 0 {
        calls_end_len(calls, order.drop_last(), number);
    }
}

/// The last events of a stream as mathematics, place by place.
proof fn closing_views(
    start: ConverterState,
    views: Seq<Seq<Delta>>,
    fresh: Seq<Seq<Seq<char>>>,
    now: u64,
) -> (order: Seq<int>)
    requires
        untouched(start),
    ensures
        ({
            let ended = after_stream(start, views, fresh);
            let tools = stream_tools(views);
            let text = stream_text(views);
            let list = ended.end_events(now);
            let first: int = if text.len() > 0 {
                3
            } else {
                0
            };
            let number = ended.sequence_number;
            &&& lists_calls(order, tools)
            &&& list.len() == first + 2 * order.len() + 1
            &&& text.len() > 0 ==> {
                &&& list[0] == (StreamEvent::TextDone {
                    sequence_number: number,
                    item_id: start.message_item_id,
                    output_index: ended.message_output_index,
                    content_index: 0,
                    text,
                    logprobs: Some(Seq::empty()),
                })
                &&& list[1] == (StreamEvent::PartDone {
                    sequence_number: number + 1,
                    item_id: start.message_item_id,
                    output_index: ended.message_output_index,
                    content_index: 0,
                    part: whole_part(text),
                })
                &&& list[2] == (StreamEvent::ItemDone {
                    sequence_number: number + 2,
                    output_index: ended.message_output_index,
                    item: Item::Message {
                        id: start.message_item_id,
                        role: AssistantRole::Assistant,
                        content: seq![whole_part(text)],
                        status: OutputStatus::Completed,
                    },
                })
            }
            &&& forall|j: int|
                0 <= j < order.len() ==> call_closed(
                    list[first + 2 * j],
                    list[first + 2 * j + 1],
                    tools,
                    #[trigger] order[j],
                )
        }),
{
    let ended = after_stream(start, views, fresh);
    let tools = stream_tools(views);
    let text = stream_text(views);
    let list = ended.end_events(now);
    let number = ended.sequence_number;
    stream_laws::stream_end_order(start, views, fresh, now);
    stream_laws::stream_describes_calls(start, views, fresh);
    announced_are_listed(ended, tools);
    stream_laws::announced_calls_ascend(tools, ended.calls.len() as int);
    let order = announced_calls(tools, ended.calls.len() as int);
    let first: int = if text.len() > 0 {
        3
    } else {
        0
    };
    let calls = stream_laws::calls_end(ended.calls, order, number + first);
    assert forall|j: int| 0 <= j < order.len() implies call_closed(
        list[first + 2 * j],
        list[first + 2 * j + 1],
        tools,
        #[trigger] order[j],
    ) by {
        let i = order[j];
        call_end_at(ended.calls, order, number + first, j);
        assert(stream_laws::described(ended.calls[i], tools, i));
        assert(list[first + 2 * j] == calls[2 * j]);
        assert(list[first + 2 * j + 1] == calls[2 * j + 1]);
        assert(call_closed_at(
            list[first + 2 * j],
            list[first + 2 * j + 1],
            tools,
            i,
            number + first + 2 * j,
            ended.calls[i].item_id,
            ended.calls[i].output_index,
        ));
    }
    order
}

spec fn whole_part(text: Seq<char>) -> TextPart {
    TextPart { text, annotations: Seq::empty(), logprobs: Some(Seq::empty()) }
}

spec fn call_closed(
    done: StreamEvent,
    item_done: StreamEvent,
    tools: Seq<ToolDelta>,
    i: int,
) -> bool {
    exists|number: int, id: Seq<char>, place: int|
        #![trigger call_closed_at(done, item_done, tools, i, number, id, place)]
        call_closed_at(done, item_done, tools, i, number, id, place)
}

spec fn call_closed_at(
    done: StreamEvent,
    item_done: StreamEvent,
    tools: Seq<ToolDelta>,
    i: int,
    number: int,
    id: Seq<char>,
    place: int,
) -> bool {
    &&& done == (StreamEvent::ArgumentsDone {
        sequence_number: number,
        item_id: id,
        output_index: place,
        arguments: brought_arguments(tools, i),
        name: Some(latest_name(tools, i)),
    })
    &&& item_done == (StreamEvent::ItemDone {
        sequence_number: number + 1,
        output_index: place,
        item: Item::FunctionCall {
            id: Some(id),
            call_id: latest_id(tools, i),
            name: latest_name(tools, i),
            arguments: brought_arguments(tools, i),
            status: Some(OutputStatus::Completed),
        },
    })
}

proof fn call_closed_holds(
    done: ResponseStreamEvent,
    item_done: ResponseStreamEvent,
    tools: Seq<ToolDelta>,
    i: int,
)
    requires
        call_closed(done@, item_done@, tools, i),
    ensures
        closes_call(done, item_done, tools, i),
{
    let (number, id, place) = choose|number: int, id: Seq<char>, place: int|
        #![trigger call_closed_at(done@, item_done@, tools, i, number, id, place)]
        call_closed_at(done@, item_done@, tools, i, number, id, place);
    assert(call_closed_at(done@, item_done@, tools, i, number, id, place));
}

/// The text that events pass on, one after the other.
pub open spec fn text_given(list: Seq<ResponseStreamEvent>) -> Seq<char>
    decreases list.len(),
{
    if list.len() == 0 {
        Seq::empty()
    } else {
        text_given(list.drop_last()) + (match list.last() {
            ResponseStreamEvent::ResponseOutputTextDelta { delta, .. } => delta@,
            _ => Seq::empty(),
        })
    }
}

/// The arguments that events pass on under an item's identifier, one after the
/// other.
pub open spec fn arguments_given(list: Seq<ResponseStreamEvent>, place: u32) -> Seq<char>
    decreases list.len(),
{
    if list.len() == 0 {
        Seq::empty()
    } else {
        arguments_given(list.drop_last(), place) + (match list.last() {
            ResponseStreamEvent::ResponseFunctionCallArgumentsDelta { output_index, delta, .. } =>
                if output_index == place {
                delta@
            } else {
                Seq::empty()
            },
            _ => Seq::empty(),
        })
    }
}

proof fn given_is_passed(list: Seq<ResponseStreamEvent>, place: u32)
    ensures
        text_given(list) == stream_converter::passed_text(events::events_view(list)),
        arguments_given(list, place) == stream_converter::passed_arguments(
            events::events_view(list),
            place as int,
        ),
    decreases list.len(),
{
    let views = events::events_view(list);
    if list.len() > 0 {
        given_is_passed(list.drop_last(), place);
        assert(views.drop_last() =~= events::events_view(list.drop_last()));
        assert(views.last() == list.last()@);
    }
}

/// Over a stream, the events pass on all the text that the chunks brought, in order,
/// and for each function call all the pieces of its arguments, in order and under its
/// place in the output. They are numbered one after the other.
pub proof fn deltas_hold(
    chunks: Seq<StreamChunk>,
    converters: Seq<&mut ResponseStreamConverter>,
    given: Seq<Vec<ResponseStreamEvent>>,
    converter: &mut ResponseStreamConverter,
    i: int,
    place: u32,
)
    requires
        converters.len() == chunks.len(),
        given.len() == chunks.len(),
        forall|i: int|
            0 <= i < chunks.len() ==> call_ensures(
                ResponseStreamConverter::process_chunk,
                (#[trigger] converters[i], &chunks[i]),
                given[i],
            ),
        forall|i: int|
            0 <= i < chunks.len() ==> final(#[trigger] converters[i])@ == (if i + 1
                < converters.len() {
                converters[i + 1]@
            } else {
                old(converter)@
            }),
        untouched(start_of(converters, old(converter)@)),
        0 <= i < old(converter)@.calls.len(),
        old(converter)@.calls[i].output_index == place,
    ensures
        text_given(all_given(given)) == stream_text(chunk_views(chunks)),
        arguments_given(all_given(given), place) == brought_arguments(
            stream_tools(chunk_views(chunks)),
            i,
        ),
        forall|k: int|
            0 <= k < all_given(given).len() ==> number_of(#[trigger] all_given(given)[k])
                == start_of(converters, old(converter)@).sequence_number + k,
{
    let states = states_of(converters, converter@);
    assert forall|i: int| 0 <= i < chunks.len() implies fed(
        #[trigger] states[i],
        chunks[i],
        states[i + 1],
        given[i],
    ) by {
        assert(states[i] == converters[i]@);
        assert(final(converters[i])@ == states[i + 1]);
        assert(call_ensures(
            ResponseStreamConverter::process_chunk,
            (converters[i], &chunks[i]),
            given[i],
        ));
    }
    let fresh = fed_is_stream(chunks, states, given);
    let start = states[0];
    let views = chunk_views(chunks);
    let all = all_given(given);
    let list = events::events_view(all);
    given_is_passed(all, place);
    stream_laws::stream_end_holds_all(start, views, fresh, i);
    stream_laws::stream_numbering(start, views, fresh);
    assert forall|k: int| 0 <= k < all.len() implies number_of(#[trigger] all[k])
        == start.sequence_number + k by {
        assert(list[k] == all[k]@);
        assert(list[k].number() == start.sequence_number + k);
    }
}

/// A converter starts without text, without function calls and with the number zero;
/// storing is asked for by `with_storage_callback` alone.
pub proof fn converter_starts_empty(
    model: String,
    response_id: String,
    message_item_id: String,
    created_at: u64,
    converter: ResponseStreamConverter,
    asked: ResponseStreamConverter,
)
    requires
        call_ensures(
            ResponseStreamConverter::with_ids,
            (model, response_id, message_item_id, created_at),
            converter,
        ),
        call_ensures(ResponseStreamConverter::with_storage_callback, (converter,), asked),
    ensures
        untouched(converter@),
        converter@.sequence_number == 0,
        converter@.model == model@,
        converter@.response_id == response_id@,
        converter@.message_item_id == message_item_id@,
        converter@.created_at == created_at,
        !converter@.stores,
        asked@ == (ConverterState { stores: true, ..converter@ }),
{
}

/// A new converter is for the model that is named, with identifiers of its own, and
/// has seen nothing.
pub proof fn new_converter_starts_empty(model: String, converter: ResponseStreamConverter)
    requires
        call_ensures(ResponseStreamConverter::new, (model,), converter),
    ensures
        untouched(converter@),
        converter@.sequence_number == 0,
        converter@.model == model@,
        !converter@.stores,
        "resp_"@.is_prefix_of(converter@.response_id),
        "msg_"@.is_prefix_of(converter@.message_item_id),
{
    assert("resp_"@ =~= converter@.response_id.subrange(0, "resp_"@.len() as int));
    assert("msg_"@ =~= converter@.message_item_id.subrange(0, "msg_"@.len() as int));
}

/// A stream that ends at what the system clock says ends just as at some time.
pub proof fn ends_at_some_time(
    converter: &mut ResponseStreamConverter,
    other: &mut ResponseStreamConverter,
    end: StreamEnd,
) -> (now: u64)
    requires
        old(other)@ == old(converter)@,
        call_ensures(ResponseStreamConverter::emit_end_events, (converter,), end),
    ensures
        forall|at: StreamEnd| #[trigger]
            call_ensures(ResponseStreamConverter::emit_end_events_at, (other, now), at) ==> {
                &&& events::events_view(end.events@) == events::events_view(at.events@)
                &&& end.to_store is Some <==> at.to_store is Some
                &&& end.to_store is Some ==> end.to_store->0@ == at.to_store->0@
                &&& final(other)@ == final(converter)@
            },
{
    choose|now: u64|
        {
            &&& events::events_view(end.events@) == #[trigger] converter@.end_events(now)
            &&& end.to_store matches Some(response) ==> response@ == converter@.final_response(now)
        }
}

} // verus!
