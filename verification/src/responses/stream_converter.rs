//! Converts a stream of chat completion chunks into Responses API events.
//!
//! The events come in the order `response.created`, `response.in_progress`,
//! `response.output_item.added`, `response.content_part.added`, any number of
//! `response.output_text.delta`, `response.output_text.done`,
//! `response.content_part.done`, `response.output_item.done`,
//! `response.completed`.

use crate::clock::{read_unix_seconds, seconds_or_epoch};
use crate::ids;
use crate::json::{JsonMember, JsonValue};
use crate::responses::events;
use crate::responses::events::{
    AssistantRole, ChoiceDelta, Delta, FunctionToolCall, Item, OutputItem, OutputMessage,
    OutputStatus, OutputTextContent, Response, ResponseStreamEvent, ResponseTextParam,
    ResponseView, ServiceTier, Status, StreamChunk, StreamEvent, TextPart,
    TextResponseFormatConfiguration, ToolCallDelta, ToolChoiceOptions, ToolDelta, Truncation,
};
use crate::text;
use crate::text::owned;
use vstd::prelude::*;

verus! {

/// What is known of a function call in the stream.
struct FunctionCallState {
    item_id: String,
    call_id: String,
    name: String,
    accumulated_args: String,
    output_index: u32,
    started: bool,
}

/// State machine that converts a chat completion stream into Responses API
/// events.
pub struct ResponseStreamConverter {
    response_id: String,
    model: String,
    created_at: u64,
    sequence_number: u64,
    message_item_id: String,
    message_started: bool,
    message_output_index: u32,
    accumulated_text: String,
    function_call_items: Vec<FunctionCallState>,
    current_fc_index: Option<usize>,
    next_output_index: u32,
    storage_requested: bool,
}

/// A function call as mathematics.
#[verifier::ext_equal]
pub struct CallState {
    /// The identifier of the output item.
    pub item_id: Seq<char>,
    /// The call's identifier.
    pub call_id: Seq<char>,
    /// The function's name.
    pub name: Seq<char>,
    /// The arguments so far.
    pub arguments: Seq<char>,
    /// The item's place in the output.
    pub output_index: int,
    /// Whether the item has been announced.
    pub started: bool,
}

/// A converter as mathematics.
#[verifier::ext_equal]
pub struct ConverterState {
    /// The response's identifier.
    pub response_id: Seq<char>,
    /// The model's name.
    pub model: Seq<char>,
    /// When the response was created.
    pub created_at: u64,
    /// The number of the next event.
    pub sequence_number: int,
    /// The identifier of the message item.
    pub message_item_id: Seq<char>,
    /// Whether the message has been announced.
    pub message_started: bool,
    /// The message's place in the output.
    pub message_output_index: int,
    /// The text so far.
    pub text: Seq<char>,
    /// The function calls.
    pub calls: Seq<CallState>,
    /// The function call that was last added to.
    pub current_call: Option<int>,
    /// The place in the output that is free.
    pub next_output_index: int,
    /// Whether the completed response is to be handed out for storage.
    pub stores: bool,
}

impl FunctionCallState {
    spec fn view(&self) -> CallState {
        CallState {
            item_id: self.item_id@,
            call_id: self.call_id@,
            name: self.name@,
            arguments: self.accumulated_args@,
            output_index: self.output_index as int,
            started: self.started,
        }
    }
}

spec fn calls_view(calls: Seq<FunctionCallState>) -> Seq<CallState> {
    Seq::new(calls.len(), |i: int| calls[i].view())
}

/// A piece of text without annotations, with an empty list of log
/// probabilities.
pub open spec fn plain_part(text: Seq<char>) -> TextPart {
    TextPart { text, annotations: Seq::empty(), logprobs: Some(Seq::empty()) }
}

impl ConverterState {
    /// A converter before its first event.
    pub open spec fn fresh(
        model: Seq<char>,
        response_id: Seq<char>,
        message_item_id: Seq<char>,
        created_at: u64,
    ) -> ConverterState {
        ConverterState {
            response_id,
            model,
            created_at,
            sequence_number: 0,
            message_item_id,
            message_started: false,
            message_output_index: 0,
            text: Seq::empty(),
            calls: Seq::empty(),
            current_call: None,
            next_output_index: 0,
            stores: false,
        }
    }

    /// No two output items share a place, and no place at or after the next
    /// free one is taken.
    pub open spec fn places_distinct(self) -> bool {
        &&& self.calls.len() + (if self.message_started {
            1int
        } else {
            0
        }) == self.next_output_index
        &&& self.message_started ==> 0 <= self.message_output_index < self.next_output_index
        &&& forall|i: int|
            0 <= i < self.calls.len() ==> 0 <= (#[trigger] self.calls[i]).output_index
                < self.next_output_index
        &&& self.message_started ==> forall|i: int|
            0 <= i < self.calls.len() ==> (#[trigger] self.calls[i]).output_index
                != self.message_output_index
        &&& forall|i: int, j: int|
            0 <= i < j < self.calls.len() ==> (#[trigger] self.calls[i]).output_index != (
            #[trigger] self.calls[j]).output_index
    }

    /// The message item at some stage.
    pub open spec fn message(self, content: Seq<TextPart>, status: OutputStatus) -> Item {
        Item::Message {
            id: self.message_item_id,
            role: AssistantRole::Assistant,
            content,
            status,
        }
    }

    /// The response at some stage; `now` is when it is looked at.
    pub open spec fn response(self, status: Status, output: Seq<Item>, now: u64) -> ResponseView {
        ResponseView {
            id: self.response_id,
            object: "response"@,
            created_at: self.created_at,
            completed_at: if status == Status::Completed {
                Some(now)
            } else {
                None
            },
            status,
            model: self.model,
            output,
            default_settings: true,
        }
    }

    /// The first events of a stream.
    pub open spec fn start_events(self) -> Seq<StreamEvent> {
        let response = self.response(Status::InProgress, Seq::empty(), 0);
        seq![
            StreamEvent::Created { sequence_number: self.sequence_number, response },
            StreamEvent::InProgress { sequence_number: self.sequence_number + 1, response },
        ]
    }

    /// The converter with `n` more events given out.
    pub open spec fn numbered(self, n: int) -> ConverterState {
        ConverterState { sequence_number: self.sequence_number + n, ..self }
    }

    /// The converter once the message is announced.
    pub open spec fn with_message(self) -> ConverterState {
        if self.message_started {
            self
        } else {
            ConverterState {
                message_started: true,
                message_output_index: self.next_output_index,
                next_output_index: self.next_output_index + 1,
                sequence_number: self.sequence_number + 2,
                ..self
            }
        }
    }

    /// The events that announce the message, if it has not been announced.
    pub open spec fn message_events(self) -> Seq<StreamEvent> {
        if self.message_started {
            Seq::empty()
        } else {
            seq![
                StreamEvent::ItemAdded {
                    sequence_number: self.sequence_number,
                    output_index: self.next_output_index,
                    item: self.message(Seq::empty(), OutputStatus::InProgress),
                },
                StreamEvent::PartAdded {
                    sequence_number: self.sequence_number + 1,
                    item_id: self.message_item_id,
                    output_index: self.next_output_index,
                    content_index: 0,
                    part: plain_part(Seq::empty()),
                },
            ]
        }
    }

    /// The converter after more text. Empty text changes nothing.
    pub open spec fn after_text(self, content: Seq<char>) -> ConverterState {
        if content.len() == 0 {
            self
        } else {
            let opened = self.with_message();
            ConverterState {
                text: opened.text + content,
                sequence_number: opened.sequence_number + 1,
                ..opened
            }
        }
    }

    /// The events for more text.
    pub open spec fn text_events(self, content: Seq<char>) -> Seq<StreamEvent> {
        if content.len() == 0 {
            Seq::empty()
        } else {
            let opened = self.with_message();
            self.message_events().push(
                StreamEvent::TextDelta {
                    sequence_number: opened.sequence_number,
                    item_id: opened.message_item_id,
                    output_index: opened.message_output_index,
                    content_index: 0,
                    delta: content,
                    logprobs: Some(Seq::empty()),
                },
            )
        }
    }

    /// The converter with at least `n` function calls. `fresh` holds the
    /// identifiers of the calls from number `base` on.
    pub open spec fn with_calls(self, n: int, base: int, fresh: Seq<Seq<char>>) -> ConverterState {
        let len = self.calls.len() as int;
        if n <= len {
            self
        } else {
            ConverterState {
                calls: self.calls + Seq::new(
                    (n - len) as nat,
                    |i: int|
                        CallState {
                            item_id: fresh[len + i - base],
                            call_id: Seq::empty(),
                            name: Seq::empty(),
                            arguments: Seq::empty(),
                            output_index: self.next_output_index + i,
                            started: false,
                        },
                ),
                next_output_index: self.next_output_index + (n - len),
                ..self
            }
        }
    }

    /// The call that a tool call adds to, with the names that it brings.
    pub open spec fn named_call(self, tool: ToolDelta) -> CallState {
        let call = self.calls[tool.index as int];
        CallState {
            call_id: match tool.id {
                Some(id) => id,
                None => call.call_id,
            },
            name: match tool.name {
                Some(name) => name,
                None => call.name,
            },
            ..call
        }
    }

    /// The converter after a tool call.
    pub open spec fn after_tool(self, tool: ToolDelta, base: int, fresh: Seq<Seq<char>>) -> ConverterState {
        let opened = self.with_calls(tool.index as int + 1, base, fresh);
        let call = opened.named_call(tool);
        match tool.arguments {
            None => ConverterState {
                calls: opened.calls.update(tool.index as int, call),
                current_call: Some(tool.index as int),
                ..opened
            },
            Some(args) => ConverterState {
                calls: opened.calls.update(
                    tool.index as int,
                    CallState { arguments: call.arguments + args, started: true, ..call },
                ),
                current_call: Some(tool.index as int),
                sequence_number: opened.sequence_number + (if call.started {
                    1int
                } else {
                    2
                }),
                ..opened
            },
        }
    }

    /// The events for a tool call.
    pub open spec fn tool_events(self, tool: ToolDelta, base: int, fresh: Seq<Seq<char>>) -> Seq<StreamEvent> {
        let call = self.with_calls(tool.index as int + 1, base, fresh).named_call(tool);
        match tool.arguments {
            None => Seq::empty(),
            Some(args) => {
                let added = if call.started {
                    Seq::empty()
                } else {
                    seq![
                        StreamEvent::ItemAdded {
                            sequence_number: self.sequence_number,
                            output_index: call.output_index,
                            item: call_item(call, Seq::empty(), OutputStatus::InProgress),
                        },
                    ]
                };
                added.push(
                    StreamEvent::ArgumentsDelta {
                        sequence_number: self.sequence_number + added.len(),
                        item_id: call.item_id,
                        output_index: call.output_index,
                        delta: args,
                    },
                )
            },
        }
    }

    /// The converter after several tool calls.
    pub open spec fn after_tools(self, tools: Seq<ToolDelta>, base: int, fresh: Seq<Seq<char>>) -> ConverterState
        decreases tools.len(),
    {
        if tools.len() == 0 {
            self
        } else {
            self.after_tools(tools.drop_last(), base, fresh).after_tool(tools.last(), base, fresh)
        }
    }

    /// The events for several tool calls.
    pub open spec fn tools_events(self, tools: Seq<ToolDelta>, base: int, fresh: Seq<Seq<char>>) -> Seq<StreamEvent>
        decreases tools.len(),
    {
        if tools.len() == 0 {
            Seq::empty()
        } else {
            self.tools_events(tools.drop_last(), base, fresh) + self.after_tools(
                tools.drop_last(),
                base,
                fresh,
            ).tool_events(tools.last(), base, fresh)
        }
    }

    /// The converter after what a chunk adds to one choice.
    pub open spec fn after_delta(self, delta: Delta, base: int, fresh: Seq<Seq<char>>) -> ConverterState {
        self.after_text(delta.content).after_tools(delta.tools, base, fresh)
    }

    /// The events for what a chunk adds to one choice.
    pub open spec fn delta_events(self, delta: Delta, base: int, fresh: Seq<Seq<char>>) -> Seq<StreamEvent> {
        self.text_events(delta.content) + self.after_text(delta.content).tools_events(
            delta.tools,
            base,
            fresh,
        )
    }

    /// The converter after a chunk.
    pub open spec fn after_chunk(self, chunk: Seq<Delta>, base: int, fresh: Seq<Seq<char>>) -> ConverterState
        decreases chunk.len(),
    {
        if chunk.len() == 0 {
            self
        } else {
            self.after_chunk(chunk.drop_last(), base, fresh).after_delta(chunk.last(), base, fresh)
        }
    }

    /// The events for a chunk.
    pub open spec fn chunk_events(self, chunk: Seq<Delta>, base: int, fresh: Seq<Seq<char>>) -> Seq<StreamEvent>
        decreases chunk.len(),
    {
        if chunk.len() == 0 {
            Seq::empty()
        } else {
            self.chunk_events(chunk.drop_last(), base, fresh) + self.after_chunk(
                chunk.drop_last(),
                base,
                fresh,
            ).delta_events(chunk.last(), base, fresh)
        }
    }

    /// The output items: the message, then the function calls that have been
    /// announced.
    pub open spec fn output_items(self) -> Seq<Item> {
        let message = if self.message_started {
            seq![self.message(seq![plain_part(self.text)], OutputStatus::Completed)]
        } else {
            Seq::empty()
        };
        message + call_items(self.calls)
    }

    /// The events that close the message, if it was announced.
    pub open spec fn message_end_events(self) -> Seq<StreamEvent> {
        if self.message_started {
            seq![
                StreamEvent::TextDone {
                    sequence_number: self.sequence_number,
                    item_id: self.message_item_id,
                    output_index: self.message_output_index,
                    content_index: 0,
                    text: self.text,
                    logprobs: Some(Seq::empty()),
                },
                StreamEvent::PartDone {
                    sequence_number: self.sequence_number + 1,
                    item_id: self.message_item_id,
                    output_index: self.message_output_index,
                    content_index: 0,
                    part: plain_part(self.text),
                },
                StreamEvent::ItemDone {
                    sequence_number: self.sequence_number + 2,
                    output_index: self.message_output_index,
                    item: self.message(seq![plain_part(self.text)], OutputStatus::Completed),
                },
            ]
        } else {
            Seq::empty()
        }
    }

    /// The last events of a stream but one.
    pub open spec fn closing_events(self) -> Seq<StreamEvent> {
        let message = self.message_end_events();
        message + calls_end_events(self.calls, self.sequence_number + message.len())
    }

    /// The response at the end of the stream.
    pub open spec fn final_response(self, now: u64) -> ResponseView {
        self.response(Status::Completed, self.output_items(), now)
    }

    /// The last events of a stream.
    pub open spec fn end_events(self, now: u64) -> Seq<StreamEvent> {
        let closing = self.closing_events();
        closing.push(
            StreamEvent::Completed {
                sequence_number: self.sequence_number + closing.len(),
                response: self.final_response(now),
            },
        )
    }

    /// The converter once the stream has ended.
    pub open spec fn after_end(self) -> ConverterState {
        ConverterState {
            sequence_number: self.sequence_number + self.closing_events().len() + 1,
            stores: false,
            ..self
        }
    }
}

/// The output item of a function call.
pub open spec fn call_item(call: CallState, arguments: Seq<char>, status: OutputStatus) -> Item {
    Item::FunctionCall {
        id: Some(call.item_id),
        call_id: call.call_id,
        name: call.name,
        arguments,
        status: Some(status),
    }
}

/// The output items of the function calls that have been announced.
pub open spec fn call_items(calls: Seq<CallState>) -> Seq<Item>
    decreases calls.len(),
{
    if calls.len() == 0 {
        Seq::empty()
    } else if calls.last().started {
        call_items(calls.drop_last()).push(
            call_item(calls.last(), calls.last().arguments, OutputStatus::Completed),
        )
    } else {
        call_items(calls.drop_last())
    }
}

/// The events that close the function calls that have been announced, numbered
/// from `number` on.
pub open spec fn calls_end_events(calls: Seq<CallState>, number: int) -> Seq<StreamEvent>
    decreases calls.len(),
{
    if calls.len() == 0 {
        Seq::empty()
    } else if calls.last().started {
        let before = calls_end_events(calls.drop_last(), number);
        let call = calls.last();
        before.push(
            StreamEvent::ArgumentsDone {
                sequence_number: number + before.len(),
                item_id: call.item_id,
                output_index: call.output_index,
                arguments: call.arguments,
                name: Some(call.name),
            },
        ).push(
            StreamEvent::ItemDone {
                sequence_number: number + before.len() + 1,
                output_index: call.output_index,
                item: call_item(call, call.arguments, OutputStatus::Completed),
            },
        )
    } else {
        calls_end_events(calls.drop_last(), number)
    }
}

/// How many function calls a sequence of tool calls speaks of: one more than
/// its highest index.
pub open spec fn tools_span(tools: Seq<ToolDelta>) -> nat
    decreases tools.len(),
{
    if tools.len() == 0 {
        0
    } else {
        let before = tools_span(tools.drop_last());
        if tools.last().index + 1 > before {
            tools.last().index + 1
        } else {
            before
        }
    }
}

/// How many function calls a chunk speaks of.
pub open spec fn chunk_span(chunk: Seq<Delta>) -> nat
    decreases chunk.len(),
{
    if chunk.len() == 0 {
        0
    } else {
        let before = chunk_span(chunk.drop_last());
        let last = tools_span(chunk.last().tools);
        if last > before {
            last
        } else {
            before
        }
    }
}

/// The most events that a chunk can give: three for each choice and two for
/// each tool call.
pub open spec fn chunk_event_bound(chunk: Seq<Delta>) -> nat
    decreases chunk.len(),
{
    if chunk.len() == 0 {
        0
    } else {
        chunk_event_bound(chunk.drop_last()) + 3 + 2 * chunk.last().tools.len()
    }
}

/// Whether events are numbered one after the other, from `first` on.
pub open spec fn consecutive(events: Seq<StreamEvent>, first: int) -> bool {
    forall|i: int| 0 <= i < events.len() ==> (#[trigger] events[i]).number() == first + i
}

/// The larger of two numbers.
pub open spec fn larger(a: int, b: int) -> int {
    if a < b {
        b
    } else {
        a
    }
}

proof fn text_numbering(state: ConverterState, content: Seq<char>)
    ensures
        consecutive(state.text_events(content), state.sequence_number),
        state.after_text(content).sequence_number == state.sequence_number + state.text_events(
            content,
        ).len(),
        state.text_events(content).len() <= 3,
{
}

proof fn tool_numbering(state: ConverterState, tool: ToolDelta, base: int, fresh: Seq<Seq<char>>)
    ensures
        consecutive(state.tool_events(tool, base, fresh), state.sequence_number),
        state.after_tool(tool, base, fresh).sequence_number == state.sequence_number
            + state.tool_events(tool, base, fresh).len(),
        state.tool_events(tool, base, fresh).len() <= 2,
{
}

proof fn tools_numbering(
    state: ConverterState,
    tools: Seq<ToolDelta>,
    base: int,
    fresh: Seq<Seq<char>>,
)
    ensures
        consecutive(state.tools_events(tools, base, fresh), state.sequence_number),
        state.after_tools(tools, base, fresh).sequence_number == state.sequence_number
            + state.tools_events(tools, base, fresh).len(),
        state.tools_events(tools, base, fresh).len() <= 2 * tools.len(),
    decreases tools.len(),
{
    if tools.len() > 0 {
        let before = state.after_tools(tools.drop_last(), base, fresh);
        tools_numbering(state, tools.drop_last(), base, fresh);
        tool_numbering(before, tools.last(), base, fresh);
    }
}

/// The events for a chunk are numbered one after the other, from the
/// converter's next number on, and the converter goes on with the number after
/// the last of them.
pub proof fn chunk_numbering(
    state: ConverterState,
    chunk: Seq<Delta>,
    base: int,
    fresh: Seq<Seq<char>>,
)
    ensures
        consecutive(state.chunk_events(chunk, base, fresh), state.sequence_number),
        state.after_chunk(chunk, base, fresh).sequence_number == state.sequence_number
            + state.chunk_events(chunk, base, fresh).len(),
        state.chunk_events(chunk, base, fresh).len() <= chunk_event_bound(chunk),
    decreases chunk.len(),
{
    if chunk.len() > 0 {
        let before = state.after_chunk(chunk.drop_last(), base, fresh);
        let delta = chunk.last();
        chunk_numbering(state, chunk.drop_last(), base, fresh);
        text_numbering(before, delta.content);
        tools_numbering(before.after_text(delta.content), delta.tools, base, fresh);
    }
}

pub(crate) proof fn text_keeps_places(state: ConverterState, content: Seq<char>)
    requires
        state.places_distinct(),
    ensures
        state.after_text(content).places_distinct(),
        state.after_text(content).calls == state.calls,
{
}

pub(crate) proof fn tool_keeps_places(
    state: ConverterState,
    tool: ToolDelta,
    base: int,
    fresh: Seq<Seq<char>>,
)
    requires
        state.places_distinct(),
    ensures
        state.after_tool(tool, base, fresh).places_distinct(),
        state.after_tool(tool, base, fresh).calls.len() == larger(
            state.calls.len() as int,
            tool.index as int + 1,
        ),
{
    let opened = state.with_calls(tool.index as int + 1, base, fresh);
    assert(opened.places_distinct());
    let after = state.after_tool(tool, base, fresh);
    assert forall|i: int| 0 <= i < after.calls.len() implies (#[trigger] after.calls[i]).output_index
        == opened.calls[i].output_index by {}
}

proof fn tools_keep_places(
    state: ConverterState,
    tools: Seq<ToolDelta>,
    base: int,
    fresh: Seq<Seq<char>>,
)
    requires
        state.places_distinct(),
    ensures
        state.after_tools(tools, base, fresh).places_distinct(),
        state.after_tools(tools, base, fresh).calls.len() == larger(
            state.calls.len() as int,
            tools_span(tools) as int,
        ),
    decreases tools.len(),
{
    if tools.len() > 0 {
        tools_keep_places(state, tools.drop_last(), base, fresh);
        tool_keeps_places(
            state.after_tools(tools.drop_last(), base, fresh),
            tools.last(),
            base,
            fresh,
        );
    }
}

/// No chunk makes two output items share a place, and after it there are as
/// many function calls as the chunk speaks of, if there were not more.
pub proof fn chunk_keeps_places(
    state: ConverterState,
    chunk: Seq<Delta>,
    base: int,
    fresh: Seq<Seq<char>>,
)
    requires
        state.places_distinct(),
    ensures
        state.after_chunk(chunk, base, fresh).places_distinct(),
        state.after_chunk(chunk, base, fresh).calls.len() == larger(
            state.calls.len() as int,
            chunk_span(chunk) as int,
        ),
    decreases chunk.len(),
{
    if chunk.len() > 0 {
        let before = state.after_chunk(chunk.drop_last(), base, fresh);
        chunk_keeps_places(state, chunk.drop_last(), base, fresh);
        text_keeps_places(before, chunk.last().content);
        tools_keep_places(
            before.after_text(chunk.last().content),
            chunk.last().tools,
            base,
            fresh,
        );
    }
}

impl ResponseStreamConverter {
    /// The converter as mathematics.
    pub closed spec fn view(&self) -> ConverterState {
        ConverterState {
            response_id: self.response_id@,
            model: self.model@,
            created_at: self.created_at,
            sequence_number: self.sequence_number as int,
            message_item_id: self.message_item_id@,
            message_started: self.message_started,
            message_output_index: self.message_output_index as int,
            text: self.accumulated_text@,
            calls: calls_view(self.function_call_items@),
            current_call: match self.current_fc_index {
                Some(i) => Some(i as int),
                None => None,
            },
            next_output_index: self.next_output_index as int,
            stores: self.storage_requested,
        }
    }

    /// Takes the next event number.
    fn next_seq(&mut self) -> (res: u64)
        requires
            old(self)@.sequence_number < u64::MAX,
        ensures
            res == old(self)@.sequence_number,
            final(self)@ == old(self)@.numbered(1),
            final(self).function_call_items@ == old(self).function_call_items@,
    {
        let seq: u64 = self.sequence_number;
        self.sequence_number = self.sequence_number + 1;
        assert(self@ =~= old(self)@.numbered(1));
        seq
    }

    /// Adds text: announces the message where that has not been done, and
    /// passes the text on.
    fn push_text(&mut self, content: &str, events: &mut Vec<ResponseStreamEvent>)
        requires
            old(self)@.sequence_number + 3 <= u64::MAX,
            old(self)@.message_started || old(self)@.next_output_index < u32::MAX,
        ensures
            final(self)@ == old(self)@.after_text(content@),
            events::events_view(final(events)@) == events::events_view(old(events)@)
                + old(self)@.text_events(content@),
    {
        if content.unicode_len() == 0 {
            assert(events::events_view(events@) =~= events::events_view(old(events)@)
                + old(self)@.text_events(content@));
            return ;
        }
        if !self.message_started {
            self.message_started = true;
            self.message_output_index = self.next_output_index;
            let output_index: u32 = self.message_output_index;
            self.next_output_index = self.next_output_index + 1;
            let added: u64 = self.next_seq();
            events.push(
                ResponseStreamEvent::ResponseOutputItemAdded {
                    sequence_number: added,
                    output_index,
                    item: OutputItem::Message(
                        OutputMessage {
                            id: self.message_item_id.clone(),
                            content: Vec::new(),
                            role: AssistantRole::Assistant,
                            status: OutputStatus::InProgress,
                        },
                    ),
                },
            );
            let part: u64 = self.next_seq();
            events.push(
                ResponseStreamEvent::ResponseContentPartAdded {
                    sequence_number: part,
                    item_id: self.message_item_id.clone(),
                    output_index,
                    content_index: 0,
                    part: text_part(""),
                },
            );
        }
        assert(self@ =~= old(self)@.with_message());
        proof {
            reveal_strlit("");
            assert(""@ =~= Seq::<char>::empty());
            assert(events::events_view(events@) =~~= events::events_view(old(events)@)
                + old(self)@.message_events());
        }
        let ghost opened = events@;
        self.accumulated_text.append(content);
        let seq: u64 = self.next_seq();
        events.push(
            ResponseStreamEvent::ResponseOutputTextDelta {
                sequence_number: seq,
                item_id: self.message_item_id.clone(),
                output_index: self.message_output_index,
                content_index: 0,
                delta: owned(content),
                logprobs: Some(Vec::new()),
            },
        );
        proof {
            assert(self@ =~= old(self)@.after_text(content@));
            let delta = StreamEvent::TextDelta {
                sequence_number: seq as int,
                item_id: self@.message_item_id,
                output_index: self@.message_output_index,
                content_index: 0,
                delta: content@,
                logprobs: Some(Seq::empty()),
            };
            assert(events@.last()@ =~~= delta);
            assert(events::events_view(events@) =~= events::events_view(opened).push(delta));
            assert(events::events_view(events@) =~= events::events_view(old(events)@)
                + old(self)@.text_events(content@));
        }
    }
}

impl FunctionCallState {
    /// Takes over the names that a tool call brings.
    fn take_names(&mut self, tool: &ToolCallDelta)
        ensures
            final(self)@ == (CallState {
                call_id: match tool@.id {
                    Some(id) => id,
                    None => old(self)@.call_id,
                },
                name: match tool@.name {
                    Some(name) => name,
                    None => old(self)@.name,
                },
                ..old(self)@
            }),
    {
        match &tool.id {
            Some(id) => {
                self.call_id = id.clone();
            },
            None => {},
        }
        match &tool.function {
            Some(func) => match &func.name {
                Some(name) => {
                    self.name = name.clone();
                },
                None => {},
            },
            None => {},
        }
    }

    /// Adds to the arguments, which announces the call.
    fn take_arguments(&mut self, args: &str)
        ensures
            final(self)@ == (CallState {
                arguments: old(self)@.arguments + args@,
                started: true,
                ..old(self)@
            }),
    {
        self.started = true;
        self.accumulated_args.append(args);
    }

    /// The call's output item.
    fn item(&self, arguments: &str, status: OutputStatus) -> (res: OutputItem)
        ensures
            res@ == call_item(self@, arguments@, status),
    {
        OutputItem::FunctionCall(
            FunctionToolCall {
                id: Some(self.item_id.clone()),
                call_id: self.call_id.clone(),
                name: self.name.clone(),
                arguments: owned(arguments),
                status: Some(status),
            },
        )
    }
}

impl ResponseStreamConverter {
    /// Sees to it that there are at least `n` function calls.
    fn open_calls(&mut self, n: usize, base: usize, fresh: &Vec<String>)
        requires
            base <= old(self)@.calls.len(),
            n <= base + fresh.len(),
            old(self)@.next_output_index + (n - old(self)@.calls.len()) <= u32::MAX,
        ensures
            final(self)@ == old(self)@.with_calls(n as int, base as int, text::texts(fresh@)),
    {
        let ghost before = self@;
        assert(before =~= before.with_calls(before.calls.len() as int, base as int, text::texts(fresh@)));
        while self.function_call_items.len() < n
            invariant
                base <= before.calls.len() <= self.function_call_items.len(),
                n <= base + fresh.len(),
                before.next_output_index + (n - before.calls.len()) <= u32::MAX,
                self@ == before.with_calls(
                    self.function_call_items.len() as int,
                    base as int,
                    text::texts(fresh@),
                ),
                self.function_call_items.len() <= n || self.function_call_items.len()
                    == before.calls.len(),
            decreases n - self.function_call_items.len(),
        {
            let ghost prior = self@;
            let len = self.function_call_items.len();
            let output_index: u32 = self.next_output_index;
            self.next_output_index = self.next_output_index + 1;
            self.function_call_items.push(
                FunctionCallState {
                    item_id: fresh[len - base].clone(),
                    call_id: String::new(),
                    name: String::new(),
                    accumulated_args: String::new(),
                    output_index,
                    started: false,
                },
            );
            proof {
                let next = before.with_calls(len + 1, base as int, text::texts(fresh@));
                assert(self@.calls =~= prior.calls.push(self@.calls.last()));
                assert(self@.calls.last() =~= next.calls[len as int]);
                assert(self@ =~= next);
            }
        }
    }

    /// Adds a tool call.
    fn push_tool(
        &mut self,
        tool: &ToolCallDelta,
        base: usize,
        fresh: &Vec<String>,
        events: &mut Vec<ResponseStreamEvent>,
    )
        requires
            base <= old(self)@.calls.len(),
            tool.index < base + fresh.len(),
            tool.index < usize::MAX,
            old(self)@.next_output_index + (tool.index + 1 - old(self)@.calls.len()) <= u32::MAX,
            old(self)@.sequence_number + 2 <= u64::MAX,
        ensures
            final(self)@ == old(self)@.after_tool(tool@, base as int, text::texts(fresh@)),
            events::events_view(final(events)@) == events::events_view(old(events)@)
                + old(self)@.tool_events(tool@, base as int, text::texts(fresh@)),
    {
        let index: usize = tool.index as usize;
        let ghost opened = self@.with_calls(index + 1, base as int, text::texts(fresh@));
        let ghost named = opened.named_call(tool@);
        self.open_calls(index + 1, base, fresh);
        assert(self@.calls.len() == self.function_call_items@.len());
        self.function_call_items[index].take_names(tool);
        self.current_fc_index = Some(index);
        let ghost renamed = ConverterState {
            calls: opened.calls.update(index as int, named),
            current_call: Some(index as int),
            ..opened
        };
        assert(self@ =~= renamed);
        let args: &str = match &tool.function {
            Some(func) => match &func.arguments {
                Some(args) => args.as_str(),
                None => {
                    assert(events::events_view(events@) =~= events::events_view(old(events)@)
                        + old(self)@.tool_events(tool@, base as int, text::texts(fresh@)));
                    return ;
                },
            },
            None => {
                assert(events::events_view(events@) =~= events::events_view(old(events)@)
                    + old(self)@.tool_events(tool@, base as int, text::texts(fresh@)));
                return ;
            },
        };
        if !self.function_call_items[index].started {
            let seq: u64 = self.next_seq();
            let call = &self.function_call_items[index];
            let item = call.item("", OutputStatus::InProgress);
            events.push(
                ResponseStreamEvent::ResponseOutputItemAdded {
                    sequence_number: seq,
                    output_index: call.output_index,
                    item,
                },
            );
        }
        proof {
            reveal_strlit("");
            assert(""@ =~= Seq::<char>::empty());
        }
        let ghost announced = events@;
        let seq: u64 = self.next_seq();
        self.function_call_items[index].take_arguments(args);
        let call = &self.function_call_items[index];
        events.push(
            ResponseStreamEvent::ResponseFunctionCallArgumentsDelta {
                sequence_number: seq,
                item_id: call.item_id.clone(),
                output_index: call.output_index,
                delta: owned(args),
            },
        );
        proof {
            let filled = CallState {
                arguments: named.arguments + args@,
                started: true,
                ..named
            };
            assert(self@.calls[index as int] =~= filled);
            assert(self@.calls =~= opened.calls.update(index as int, filled));
            assert(self@ =~= old(self)@.after_tool(tool@, base as int, text::texts(fresh@)));
            assert(events::events_view(events@) =~= events::events_view(announced).push(
                events@.last()@,
            ));
            assert(events::events_view(events@) =~~= events::events_view(old(events)@)
                + old(self)@.tool_events(tool@, base as int, text::texts(fresh@)));
        }
    }
}

proof fn tool_below_span(tools: Seq<ToolDelta>, i: int)
    requires
        0 <= i < tools.len(),
    ensures
        tools[i].index < tools_span(tools),
        tools_span(tools.take(i)) <= tools_span(tools),
    decreases tools.len(),
{
    if i < tools.len() - 1 {
        tool_below_span(tools.drop_last(), i);
        assert(tools.drop_last().take(i) =~= tools.take(i));
    } else {
        assert(tools.drop_last() =~= tools.take(i));
    }
}

proof fn delta_below_span(chunk: Seq<Delta>, i: int)
    requires
        0 <= i < chunk.len(),
    ensures
        tools_span(chunk[i].tools) <= chunk_span(chunk),
        chunk_span(chunk.take(i)) <= chunk_span(chunk),
        chunk_event_bound(chunk.take(i)) + 3 + 2 * chunk[i].tools.len() <= chunk_event_bound(chunk),
    decreases chunk.len(),
{
    if i < chunk.len() - 1 {
        delta_below_span(chunk.drop_last(), i);
        assert(chunk.drop_last().take(i) =~= chunk.take(i));
    } else {
        assert(chunk.drop_last() =~= chunk.take(i));
    }
}

impl ConverterState {
    /// Whether the numbers of events and of output items leave room for a
    /// chunk.
    pub open spec fn has_room(self, chunk: Seq<Delta>) -> bool {
        &&& self.sequence_number + chunk_event_bound(chunk) <= u64::MAX
        &&& larger(self.calls.len() as int, chunk_span(chunk) as int) < u32::MAX
    }
}

impl ResponseStreamConverter {
    /// Adds the tool calls of a choice.
    fn push_tools(
        &mut self,
        tools: &Vec<ToolCallDelta>,
        base: usize,
        fresh: &Vec<String>,
        events: &mut Vec<ResponseStreamEvent>,
    )
        requires
            old(self)@.places_distinct(),
            base <= old(self)@.calls.len(),
            tools_span(events::tools_view(tools@)) <= base + fresh.len(),
            larger(
                old(self)@.calls.len() as int,
                tools_span(events::tools_view(tools@)) as int,
            ) < u32::MAX,
            old(self)@.sequence_number + 2 * tools.len() <= u64::MAX,
        ensures
            final(self)@ == old(self)@.after_tools(
                events::tools_view(tools@),
                base as int,
                text::texts(fresh@),
            ),
            events::events_view(final(events)@) == events::events_view(old(events)@)
                + old(self)@.tools_events(
                events::tools_view(tools@),
                base as int,
                text::texts(fresh@),
            ),
    {
        let ghost before = self@;
        let ghost earlier = events::events_view(events@);
        let ghost all = events::tools_view(tools@);
        let ghost ids = text::texts(fresh@);
        let mut i: usize = 0;
        assert(events::events_view(events@) =~= earlier + before.tools_events(
            all.take(0),
            base as int,
            ids,
        ));
        while i < tools.len()
            invariant
                i <= tools.len(),
                all == events::tools_view(tools@),
                ids == text::texts(fresh@),
                before.places_distinct(),
                base <= before.calls.len(),
                tools_span(all) <= base + fresh.len(),
                larger(before.calls.len() as int, tools_span(all) as int) < u32::MAX,
                before.sequence_number + 2 * tools.len() <= u64::MAX,
                self@ == before.after_tools(all.take(i as int), base as int, ids),
                events::events_view(events@) == earlier + before.tools_events(
                    all.take(i as int),
                    base as int,
                    ids,
                ),
            decreases tools.len() - i,
        {
            proof {
                tools_keep_places(before, all.take(i as int), base as int, ids);
                tools_numbering(before, all.take(i as int), base as int, ids);
                tool_below_span(all, i as int);
            }
            self.push_tool(&tools[i], base, fresh, events);
            proof {
                assert(all.take(i + 1).drop_last() =~= all.take(i as int));
                assert(events::events_view(events@) =~= earlier + before.tools_events(
                    all.take(i + 1),
                    base as int,
                    ids,
                ));
            }
            i = i + 1;
        }
        assert(all.take(tools.len() as int) =~= all);
    }

    /// Adds what a chunk brings to one choice.
    fn push_delta(
        &mut self,
        delta: &ChoiceDelta,
        base: usize,
        fresh: &Vec<String>,
        events: &mut Vec<ResponseStreamEvent>,
    )
        requires
            old(self)@.places_distinct(),
            base <= old(self)@.calls.len(),
            tools_span(delta@.tools) <= base + fresh.len(),
            larger(old(self)@.calls.len() as int, tools_span(delta@.tools) as int) < u32::MAX,
            old(self)@.sequence_number + 3 + 2 * delta@.tools.len() <= u64::MAX,
        ensures
            final(self)@ == old(self)@.after_delta(delta@, base as int, text::texts(fresh@)),
            events::events_view(final(events)@) == events::events_view(old(events)@)
                + old(self)@.delta_events(delta@, base as int, text::texts(fresh@)),
    {
        let ghost before = self@;
        let ghost earlier = events::events_view(events@);
        let ghost ids = text::texts(fresh@);
        proof {
            text_keeps_places(before, delta@.content);
            text_numbering(before, delta@.content);
        }
        match &delta.content {
            Some(content) => {
                self.push_text(content.as_str(), events);
            },
            None => {
                assert(events::events_view(events@) =~= earlier + before.text_events(
                    delta@.content,
                ));
            },
        }
        match &delta.tool_calls {
            Some(tools) => {
                self.push_tools(tools, base, fresh, events);
            },
            None => {},
        }
        assert(events::events_view(events@) =~= earlier + before.delta_events(
            delta@,
            base as int,
            ids,
        ));
    }

    /// Processes a chunk, given identifiers for the function calls that are
    /// new in it.
    pub fn process_chunk_with_ids(&mut self, chunk: &StreamChunk, fresh: &Vec<String>) -> (res:
        Vec<ResponseStreamEvent>)
        requires
            old(self)@.places_distinct(),
            old(self)@.has_room(chunk@),
            chunk_span(chunk@) <= old(self)@.calls.len() + fresh.len(),
        ensures
            final(self)@ == old(self)@.after_chunk(
                chunk@,
                old(self)@.calls.len() as int,
                text::texts(fresh@),
            ),
            events::events_view(res@) == old(self)@.chunk_events(
                chunk@,
                old(self)@.calls.len() as int,
                text::texts(fresh@),
            ),
            final(self)@.places_distinct(),
    {
        let base: usize = self.function_call_items.len();
        let mut events: Vec<ResponseStreamEvent> = Vec::new();
        let ghost before = self@;
        let ghost all = chunk@;
        let ghost ids = text::texts(fresh@);
        let mut i: usize = 0;
        assert(base == before.calls.len());
        assert(events::events_view(events@) =~= before.chunk_events(all.take(0), base as int, ids));
        while i < chunk.choices.len()
            invariant
                i <= chunk.choices.len(),
                all == chunk@,
                ids == text::texts(fresh@),
                base == before.calls.len(),
                before.places_distinct(),
                before.has_room(all),
                chunk_span(all) <= base + fresh.len(),
                self@ == before.after_chunk(all.take(i as int), base as int, ids),
                events::events_view(events@) == before.chunk_events(
                    all.take(i as int),
                    base as int,
                    ids,
                ),
            decreases chunk.choices.len() - i,
        {
            proof {
                chunk_keeps_places(before, all.take(i as int), base as int, ids);
                chunk_numbering(before, all.take(i as int), base as int, ids);
                delta_below_span(all, i as int);
            }
            self.push_delta(&chunk.choices[i], base, fresh, &mut events);
            proof {
                assert(all.take(i + 1).drop_last() =~= all.take(i as int));
                assert(events::events_view(events@) =~= before.chunk_events(
                    all.take(i + 1),
                    base as int,
                    ids,
                ));
            }
            i = i + 1;
        }
        proof {
            assert(all.take(chunk.choices.len() as int) =~= all);
            chunk_keeps_places(before, all, base as int, ids);
        }
        events
    }
}

/// Whether a chunk was processed with the given identifiers for its new
/// function calls.
pub open spec fn processed(
    before: ConverterState,
    chunk: Seq<Delta>,
    fresh: Seq<Seq<char>>,
    after: ConverterState,
    events: Seq<StreamEvent>,
) -> bool {
    &&& chunk_span(chunk) <= before.calls.len() + fresh.len()
    &&& forall|i: int| 0 <= i < fresh.len() ==> ids::prefixed_id(#[trigger] fresh[i], "fc_"@)
    &&& after == before.after_chunk(chunk, before.calls.len() as int, fresh)
    &&& events == before.chunk_events(chunk, before.calls.len() as int, fresh)
}

/// How many function calls a chunk speaks of.
fn count_calls(chunk: &StreamChunk) -> (res: u64)
    ensures
        res == chunk_span(chunk@),
        res <= u32::MAX + 1,
{
    let ghost all = chunk@;
    let mut span: u64 = 0;
    let mut i: usize = 0;
    while i < chunk.choices.len()
        invariant
            i <= chunk.choices.len(),
            all == chunk@,
            span == chunk_span(all.take(i as int)),
            span <= u32::MAX + 1,
        decreases chunk.choices.len() - i,
    {
        let ghost before = span;
        assert(all.take(i + 1).drop_last() =~= all.take(i as int));
        match &chunk.choices[i].tool_calls {
            Some(tools) => {
                let ghost here = events::tools_view(tools@);
                let mut j: usize = 0;
                while j < tools.len()
                    invariant
                        j <= tools.len(),
                        here == events::tools_view(tools@),
                        span == larger(before as int, tools_span(here.take(j as int)) as int),
                        span <= u32::MAX + 1,
                    decreases tools.len() - j,
                {
                    assert(here.take(j + 1).drop_last() =~= here.take(j as int));
                    let reach: u64 = tools[j].index as u64 + 1;
                    if reach > span {
                        span = reach;
                    }
                    j = j + 1;
                }
                assert(here.take(tools.len() as int) =~= here);
            },
            None => {},
        }
        i = i + 1;
    }
    assert(all.take(chunk.choices.len() as int) =~= all);
    span
}

/// Whether a chunk gives at most `room` events.
fn events_within(chunk: &StreamChunk, room: u64) -> (res: bool)
    ensures
        res == (chunk_event_bound(chunk@) <= room),
{
    let ghost all = chunk@;
    let mut left: u64 = room;
    let mut i: usize = 0;
    while i < chunk.choices.len()
        invariant
            i <= chunk.choices.len(),
            all == chunk@,
            left == room - chunk_event_bound(all.take(i as int)),
        decreases chunk.choices.len() - i,
    {
        proof {
            delta_below_span(all, i as int);
            assert(all.take(i + 1).drop_last() =~= all.take(i as int));
        }
        let count: u64 = match &chunk.choices[i].tool_calls {
            Some(tools) => tools.len() as u64,
            None => 0,
        };
        if left < 3 || count > (left - 3) / 2 {
            return false;
        }
        left = left - 3 - 2 * count;
        i = i + 1;
    }
    assert(all.take(chunk.choices.len() as int) =~= all);
    true
}

impl ResponseStreamConverter {
    /// A converter that answers with the given identifiers and time of
    /// creation.
    pub fn with_ids(
        model: String,
        response_id: String,
        message_item_id: String,
        created_at: u64,
    ) -> (res: Self)
        ensures
            res@ == ConverterState::fresh(model@, response_id@, message_item_id@, created_at),
            res@.places_distinct(),
    {
        let res = ResponseStreamConverter {
            response_id,
            model,
            created_at,
            sequence_number: 0,
            message_item_id,
            message_started: false,
            message_output_index: 0,
            accumulated_text: String::new(),
            function_call_items: Vec::new(),
            current_fc_index: None,
            next_output_index: 0,
            storage_requested: false,
        };
        assert(res@ =~= ConverterState::fresh(model@, response_id@, message_item_id@, created_at));
        res
    }

    /// A converter for a new response of `model`. The time of creation is what
    /// the system clock says.
    pub fn new(model: String) -> (res: Self)
        ensures
            res@ == ConverterState::fresh(
                model@,
                res@.response_id,
                res@.message_item_id,
                res@.created_at,
            ),
            res@.places_distinct(),
            ids::prefixed_id(res@.response_id, "resp_"@),
            ids::prefixed_id(res@.message_item_id, "msg_"@),
    {
        let created_at: u64 = seconds_or_epoch(read_unix_seconds());
        let response_id = ids::new_prefixed_id("resp_");
        let message_item_id = ids::new_prefixed_id("msg_");
        Self::with_ids(model, response_id, message_item_id, created_at)
    }

    /// Asks for the completed response to be handed out for storage when the
    /// stream ends.
    pub fn with_storage_callback(self) -> (res: Self)
        ensures
            res@ == (ConverterState { stores: true, ..self@ }),
    {
        let mut res = self;
        res.storage_requested = true;
        assert(res@ =~= (ConverterState { stores: true, ..self@ }));
        res
    }

    /// The identifier of the response.
    pub fn response_id(&self) -> (res: &str)
        ensures
            res@ == self@.response_id,
    {
        self.response_id.as_str()
    }

    /// Whether there is room for a chunk.
    pub fn can_process(&self, chunk: &StreamChunk) -> (res: bool)
        ensures
            res == self@.has_room(chunk@),
    {
        let span: u64 = count_calls(chunk);
        let limit: u64 = u32::MAX as u64;
        assert(self@.calls.len() == self.function_call_items@.len());
        events_within(chunk, u64::MAX - self.sequence_number) && span < limit && (
        self.function_call_items.len() as u64) < limit
    }

    /// Processes a chunk and returns the events that it gives.
    pub fn process_chunk(&mut self, chunk: &StreamChunk) -> (res: Vec<ResponseStreamEvent>)
        requires
            old(self)@.places_distinct(),
            old(self)@.has_room(chunk@),
        ensures
            final(self)@.places_distinct(),
            exists|fresh: Seq<Seq<char>>|
                #[trigger] processed(
                    old(self)@,
                    chunk@,
                    fresh,
                    final(self)@,
                    events::events_view(res@),
                ),
    {
        let span: u64 = count_calls(chunk);
        let len: u64 = self.function_call_items.len() as u64;
        assert(self@.calls.len() == self.function_call_items@.len());
        let mut fresh: Vec<String> = Vec::new();
        while len < span && (fresh.len() as u64) < span - len
            invariant
                len < span ==> fresh.len() <= span - len,
                forall|i: int|
                    0 <= i < fresh.len() ==> ids::prefixed_id(
                        (#[trigger] text::texts(fresh@)[i]),
                        "fc_"@,
                    ),
            decreases span - len - fresh.len(),
        {
            let id = ids::new_prefixed_id("fc_");
            let ghost before = fresh@;
            fresh.push(id);
            assert(text::texts(fresh@) =~= text::texts(before).push(id@));
        }
        let res = self.process_chunk_with_ids(chunk, &fresh);
        assert(processed(
            old(self)@,
            chunk@,
            text::texts(fresh@),
            self@,
            events::events_view(res@),
        ));
        res
    }
}

/// The text that a chunk brings, choice after choice.
pub open spec fn chunk_text(chunk: Seq<Delta>) -> Seq<char>
    decreases chunk.len(),
{
    if chunk.len() == 0 {
        Seq::empty()
    } else {
        chunk_text(chunk.drop_last()) + chunk.last().content
    }
}

/// The text that events pass on, one after the other.
pub open spec fn passed_text(events: Seq<StreamEvent>) -> Seq<char>
    decreases events.len(),
{
    if events.len() == 0 {
        Seq::empty()
    } else {
        passed_text(events.drop_last()) + (match events.last() {
            StreamEvent::TextDelta { delta, .. } => delta,
            _ => Seq::empty(),
        })
    }
}

/// The arguments that events pass on for the item at `place`, one after the
/// other.
pub open spec fn passed_arguments(events: Seq<StreamEvent>, place: int) -> Seq<char>
    decreases events.len(),
{
    if events.len() == 0 {
        Seq::empty()
    } else {
        passed_arguments(events.drop_last(), place) + (match events.last() {
            StreamEvent::ArgumentsDelta { output_index, delta, .. } => if output_index == place {
                delta
            } else {
                Seq::empty()
            },
            _ => Seq::empty(),
        })
    }
}

pub(crate) proof fn passed_text_adds(a: Seq<StreamEvent>, b: Seq<StreamEvent>)
    ensures
        passed_text(a + b) == passed_text(a) + passed_text(b),
    decreases b.len(),
{
    if b.len() == 0 {
        assert(a + b =~= a);
    } else {
        passed_text_adds(a, b.drop_last());
        assert((a + b).drop_last() =~= a + b.drop_last());
        assert(passed_text(a + b) =~= passed_text(a) + passed_text(b));
    }
}

pub(crate) proof fn passed_arguments_adds(a: Seq<StreamEvent>, b: Seq<StreamEvent>, place: int)
    ensures
        passed_arguments(a + b, place) == passed_arguments(a, place) + passed_arguments(b, place),
    decreases b.len(),
{
    if b.len() == 0 {
        assert(a + b =~= a);
    } else {
        passed_arguments_adds(a, b.drop_last(), place);
        assert((a + b).drop_last() =~= a + b.drop_last());
        assert(passed_arguments(a + b, place) =~= passed_arguments(a, place) + passed_arguments(
            b,
            place,
        ));
    }
}

proof fn text_step_passes(state: ConverterState, content: Seq<char>, place: int)
    ensures
        state.after_text(content).text == state.text + content,
        passed_text(state.text_events(content)) == content,
        passed_arguments(state.text_events(content), place) == Seq::<char>::empty(),
{
    reveal_with_fuel(passed_text, 4);
    reveal_with_fuel(passed_arguments, 4);
    let events = state.text_events(content);
    assert(state.after_text(content).text =~= state.text + content);
    assert(passed_text(events) =~= content);
    assert(passed_arguments(events, place) =~= Seq::<char>::empty());
}

proof fn tool_step_passes(
    state: ConverterState,
    tool: ToolDelta,
    base: int,
    fresh: Seq<Seq<char>>,
    i: int,
)
    requires
        state.places_distinct(),
        0 <= i < state.after_tool(tool, base, fresh).calls.len(),
    ensures
        state.after_tool(tool, base, fresh).text == state.text,
        passed_text(state.tool_events(tool, base, fresh)) == Seq::<char>::empty(),
        ({
            let after = state.after_tool(tool, base, fresh);
            let call = after.calls[i];
            &&& call.arguments == state.arguments_of(i) + passed_arguments(
                state.tool_events(tool, base, fresh),
                call.output_index,
            )
            &&& i < state.calls.len() ==> call.output_index == state.calls[i].output_index
        }),
{
    reveal_with_fuel(passed_text, 3);
    reveal_with_fuel(passed_arguments, 3);
    let opened = state.with_calls(tool.index as int + 1, base, fresh);
    assert(opened.places_distinct());
    let events = state.tool_events(tool, base, fresh);
    let after = state.after_tool(tool, base, fresh);
    assert(after.calls[i].output_index == opened.calls[i].output_index);
    assert(passed_text(events) =~= Seq::<char>::empty());
    assert(after.calls[i].arguments =~= state.arguments_of(i) + passed_arguments(
        events,
        after.calls[i].output_index,
    ));
}

impl ConverterState {
    /// The arguments of a function call so far; none before the call exists.
    pub open spec fn arguments_of(self, i: int) -> Seq<char> {
        if 0 <= i < self.calls.len() {
            self.calls[i].arguments
        } else {
            Seq::empty()
        }
    }
}

proof fn tools_step_passes(
    state: ConverterState,
    tools: Seq<ToolDelta>,
    base: int,
    fresh: Seq<Seq<char>>,
    i: int,
)
    requires
        state.places_distinct(),
        0 <= i < state.after_tools(tools, base, fresh).calls.len(),
    ensures
        state.after_tools(tools, base, fresh).text == state.text,
        passed_text(state.tools_events(tools, base, fresh)) == Seq::<char>::empty(),
        ({
            let call = state.after_tools(tools, base, fresh).calls[i];
            &&& call.arguments == state.arguments_of(i) + passed_arguments(
                state.tools_events(tools, base, fresh),
                call.output_index,
            )
            &&& i < state.calls.len() ==> call.output_index == state.calls[i].output_index
        }),
    decreases tools.len(),
{
    let after = state.after_tools(tools, base, fresh);
    if tools.len() == 0 {
        assert(after.calls[i].arguments =~= state.arguments_of(i) + Seq::<char>::empty());
    } else {
        let earlier = tools.drop_last();
        let before = state.after_tools(earlier, base, fresh);
        let first = state.tools_events(earlier, base, fresh);
        let last = before.tool_events(tools.last(), base, fresh);
        tools_keep_places(state, earlier, base, fresh);
        tool_step_passes(before, tools.last(), base, fresh, i);
        let place = after.calls[i].output_index;
        passed_text_adds(first, last);
        passed_arguments_adds(first, last, place);
        if i < before.calls.len() {
            tools_step_passes(state, earlier, base, fresh, i);
        } else {
            tools_without_call_pass_nothing(state, earlier, base, fresh, place);
        }
        assert(passed_text(first + last) =~= Seq::<char>::empty());
        assert(after.calls[i].arguments =~= state.arguments_of(i) + passed_arguments(
            first + last,
            place,
        ));
    }
}

/// A place that is still free gets no arguments.
proof fn tools_without_call_pass_nothing(
    state: ConverterState,
    tools: Seq<ToolDelta>,
    base: int,
    fresh: Seq<Seq<char>>,
    place: int,
)
    requires
        state.places_distinct(),
        place >= state.after_tools(tools, base, fresh).next_output_index,
    ensures
        passed_arguments(state.tools_events(tools, base, fresh), place) == Seq::<char>::empty(),
        passed_text(state.tools_events(tools, base, fresh)) == Seq::<char>::empty(),
        state.after_tools(tools, base, fresh).text == state.text,
    decreases tools.len(),
{
    if tools.len() > 0 {
        let earlier = tools.drop_last();
        let before = state.after_tools(earlier, base, fresh);
        let first = state.tools_events(earlier, base, fresh);
        let last = before.tool_events(tools.last(), base, fresh);
        let opened = before.with_calls(tools.last().index as int + 1, base, fresh);
        tools_keep_places(state, earlier, base, fresh);
        assert(opened.places_distinct());
        tools_without_call_pass_nothing(state, earlier, base, fresh, place);
        passed_arguments_adds(first, last, place);
        passed_text_adds(first, last);
        reveal_with_fuel(passed_arguments, 3);
        reveal_with_fuel(passed_text, 3);
        assert(passed_arguments(last, place) =~= Seq::<char>::empty());
        assert(passed_arguments(first + last, place) =~= Seq::<char>::empty());
        assert(passed_text(first + last) =~= Seq::<char>::empty());
    }
}

/// The text so far grows by exactly the text that a chunk brings, and that is
/// exactly the text that the chunk's events pass on.
pub proof fn chunk_passes_text(
    state: ConverterState,
    chunk: Seq<Delta>,
    base: int,
    fresh: Seq<Seq<char>>,
)
    requires
        state.places_distinct(),
    ensures
        state.after_chunk(chunk, base, fresh).text == state.text + chunk_text(chunk),
        passed_text(state.chunk_events(chunk, base, fresh)) == chunk_text(chunk),
    decreases chunk.len(),
{
    if chunk.len() == 0 {
        assert(state.text =~= state.text + chunk_text(chunk));
    } else {
        let earlier = chunk.drop_last();
        let delta = chunk.last();
        let before = state.after_chunk(earlier, base, fresh);
        let middle = before.after_text(delta.content);
        let after = state.after_chunk(chunk, base, fresh);
        chunk_passes_text(state, earlier, base, fresh);
        chunk_keeps_places(state, earlier, base, fresh);
        text_step_passes(before, delta.content, 0);
        text_keeps_places(before, delta.content);
        tools_without_call_pass_nothing(
            middle,
            delta.tools,
            base,
            fresh,
            after.next_output_index,
        );
        passed_text_adds(
            before.text_events(delta.content),
            middle.tools_events(delta.tools, base, fresh),
        );
        passed_text_adds(
            state.chunk_events(earlier, base, fresh),
            before.delta_events(delta, base, fresh),
        );
        assert(after.text =~= state.text + chunk_text(chunk));
        assert(passed_text(state.chunk_events(chunk, base, fresh)) =~= chunk_text(chunk));
    }
}

/// A free place stays without arguments in a chunk that does not reach it.
proof fn chunk_without_call_passes_nothing(
    state: ConverterState,
    chunk: Seq<Delta>,
    base: int,
    fresh: Seq<Seq<char>>,
    place: int,
)
    requires
        state.places_distinct(),
        place >= state.after_chunk(chunk, base, fresh).next_output_index,
    ensures
        passed_arguments(state.chunk_events(chunk, base, fresh), place) == Seq::<char>::empty(),
    decreases chunk.len(),
{
    if chunk.len() > 0 {
        let earlier = chunk.drop_last();
        let delta = chunk.last();
        let before = state.after_chunk(earlier, base, fresh);
        let middle = before.after_text(delta.content);
        chunk_keeps_places(state, earlier, base, fresh);
        text_keeps_places(before, delta.content);
        tools_keep_places(middle, delta.tools, base, fresh);
        tools_only_open(middle, delta.tools, base, fresh);
        chunk_without_call_passes_nothing(state, earlier, base, fresh, place);
        text_step_passes(before, delta.content, place);
        tools_without_call_pass_nothing(middle, delta.tools, base, fresh, place);
        passed_arguments_adds(
            before.text_events(delta.content),
            middle.tools_events(delta.tools, base, fresh),
            place,
        );
        passed_arguments_adds(
            state.chunk_events(earlier, base, fresh),
            before.delta_events(delta, base, fresh),
            place,
        );
        assert(passed_arguments(state.chunk_events(chunk, base, fresh), place) =~= Seq::<
            char,
        >::empty());
    }
}

/// The arguments of each function call grow by exactly what the chunk's events
/// pass on for its place in the output, and the place never changes.
pub proof fn chunk_passes_arguments(
    state: ConverterState,
    chunk: Seq<Delta>,
    base: int,
    fresh: Seq<Seq<char>>,
    i: int,
)
    requires
        state.places_distinct(),
        0 <= i < state.after_chunk(chunk, base, fresh).calls.len(),
    ensures
        ({
            let call = state.after_chunk(chunk, base, fresh).calls[i];
            &&& call.arguments == state.arguments_of(i) + passed_arguments(
                state.chunk_events(chunk, base, fresh),
                call.output_index,
            )
            &&& i < state.calls.len() ==> call.output_index == state.calls[i].output_index
        }),
    decreases chunk.len(),
{
    let after = state.after_chunk(chunk, base, fresh);
    if chunk.len() == 0 {
        assert(after.calls[i].arguments =~= state.arguments_of(i) + Seq::<char>::empty());
    } else {
        let earlier = chunk.drop_last();
        let delta = chunk.last();
        let before = state.after_chunk(earlier, base, fresh);
        let middle = before.after_text(delta.content);
        let place = after.calls[i].output_index;
        chunk_keeps_places(state, earlier, base, fresh);
        text_keeps_places(before, delta.content);
        text_step_passes(before, delta.content, place);
        tools_step_passes(middle, delta.tools, base, fresh, i);
        passed_arguments_adds(
            before.text_events(delta.content),
            middle.tools_events(delta.tools, base, fresh),
            place,
        );
        passed_arguments_adds(
            state.chunk_events(earlier, base, fresh),
            before.delta_events(delta, base, fresh),
            place,
        );
        if i < before.calls.len() {
            chunk_passes_arguments(state, earlier, base, fresh, i);
        } else {
            tools_open_free_places(middle, delta.tools, base, fresh, i);
            chunk_without_call_passes_nothing(state, earlier, base, fresh, place);
        }
        assert(after.calls[i].arguments =~= state.arguments_of(i) + passed_arguments(
            state.chunk_events(chunk, base, fresh),
            place,
        ));
    }
}

/// A call that is new gets a place that was free.
proof fn tools_open_free_places(
    state: ConverterState,
    tools: Seq<ToolDelta>,
    base: int,
    fresh: Seq<Seq<char>>,
    i: int,
)
    requires
        state.places_distinct(),
        state.calls.len() <= i < state.after_tools(tools, base, fresh).calls.len(),
    ensures
        state.after_tools(tools, base, fresh).calls[i].output_index >= state.next_output_index,
    decreases tools.len(),
{
    if tools.len() > 0 {
        let earlier = tools.drop_last();
        let before = state.after_tools(earlier, base, fresh);
        tools_keep_places(state, earlier, base, fresh);
        tool_step_passes(before, tools.last(), base, fresh, i);
        tools_only_open(state, earlier, base, fresh);
        if i < before.calls.len() {
            tools_open_free_places(state, earlier, base, fresh, i);
        }
    }
}

/// The next free place never moves back.
proof fn tools_only_open(
    state: ConverterState,
    tools: Seq<ToolDelta>,
    base: int,
    fresh: Seq<Seq<char>>,
)
    ensures
        state.after_tools(tools, base, fresh).next_output_index >= state.next_output_index,
    decreases tools.len(),
{
    if tools.len() > 0 {
        tools_only_open(state, tools.drop_last(), base, fresh);
    }
}

/// Whether two lists of identifiers, each from its own number on, name the
/// calls from `from` to `to` alike.
pub open spec fn same_ids(
    base: int,
    fresh: Seq<Seq<char>>,
    other_base: int,
    other: Seq<Seq<char>>,
    from: int,
    to: int,
) -> bool {
    forall|k: int| from <= k < to ==> fresh[#[trigger] (k - base)] == other[k - other_base]
}

proof fn tool_ids(
    state: ConverterState,
    tool: ToolDelta,
    base: int,
    fresh: Seq<Seq<char>>,
    other_base: int,
    other: Seq<Seq<char>>,
)
    requires
        same_ids(
            base,
            fresh,
            other_base,
            other,
            state.calls.len() as int,
            tool.index as int + 1,
        ),
    ensures
        state.after_tool(tool, base, fresh) == state.after_tool(tool, other_base, other),
        state.tool_events(tool, base, fresh) == state.tool_events(tool, other_base, other),
{
    let n = tool.index as int + 1;
    let a = state.with_calls(n, base, fresh);
    let b = state.with_calls(n, other_base, other);
    assert forall|k: int| 0 <= k < a.calls.len() implies a.calls[k] == b.calls[k] by {
        if k >= state.calls.len() {
            assert(fresh[k - base] == other[k - other_base]);
        }
    }
    assert(a.calls =~= b.calls);
    assert(a =~= b);
}

proof fn tools_ids(
    state: ConverterState,
    tools: Seq<ToolDelta>,
    base: int,
    fresh: Seq<Seq<char>>,
    other_base: int,
    other: Seq<Seq<char>>,
)
    requires
        same_ids(
            base,
            fresh,
            other_base,
            other,
            state.calls.len() as int,
            tools_span(tools) as int,
        ),
    ensures
        state.after_tools(tools, base, fresh) == state.after_tools(tools, other_base, other),
        state.tools_events(tools, base, fresh) == state.tools_events(tools, other_base, other),
        state.calls.len() <= state.after_tools(tools, base, fresh).calls.len(),
    decreases tools.len(),
{
    if tools.len() > 0 {
        let before = state.after_tools(tools.drop_last(), base, fresh);
        tools_ids(state, tools.drop_last(), base, fresh, other_base, other);
        tool_ids(before, tools.last(), base, fresh, other_base, other);
    }
}

proof fn chunk_ids(
    state: ConverterState,
    chunk: Seq<Delta>,
    base: int,
    fresh: Seq<Seq<char>>,
    other_base: int,
    other: Seq<Seq<char>>,
)
    requires
        same_ids(
            base,
            fresh,
            other_base,
            other,
            state.calls.len() as int,
            chunk_span(chunk) as int,
        ),
    ensures
        state.after_chunk(chunk, base, fresh) == state.after_chunk(chunk, other_base, other),
        state.chunk_events(chunk, base, fresh) == state.chunk_events(chunk, other_base, other),
        state.calls.len() <= state.after_chunk(chunk, base, fresh).calls.len(),
    decreases chunk.len(),
{
    if chunk.len() > 0 {
        let before = state.after_chunk(chunk.drop_last(), base, fresh);
        let middle = before.after_text(chunk.last().content);
        chunk_ids(state, chunk.drop_last(), base, fresh, other_base, other);
        tools_ids(middle, chunk.last().tools, base, fresh, other_base, other);
    }
}

proof fn chunk_adds(
    state: ConverterState,
    a: Seq<Delta>,
    b: Seq<Delta>,
    base: int,
    fresh: Seq<Seq<char>>,
)
    ensures
        state.after_chunk(a + b, base, fresh) == state.after_chunk(a, base, fresh).after_chunk(
            b,
            base,
            fresh,
        ),
        state.chunk_events(a + b, base, fresh) == state.chunk_events(a, base, fresh)
            + state.after_chunk(a, base, fresh).chunk_events(b, base, fresh),
        chunk_span(a + b) == larger(chunk_span(a) as int, chunk_span(b) as int),
    decreases b.len(),
{
    if b.len() == 0 {
        assert(a + b =~= a);
        assert(state.chunk_events(a + b, base, fresh) =~= state.chunk_events(a, base, fresh)
            + state.after_chunk(a, base, fresh).chunk_events(b, base, fresh));
    } else {
        chunk_adds(state, a, b.drop_last(), base, fresh);
        assert((a + b).drop_last() =~= a + b.drop_last());
        assert(state.chunk_events(a + b, base, fresh) =~= state.chunk_events(a, base, fresh)
            + state.after_chunk(a, base, fresh).chunk_events(b, base, fresh));
    }
}

/// How a stream is cut into chunks does not matter: one chunk with all the
/// choices leads to the same state and the same events as two chunks that
/// share them, where the calls that are new get the same identifiers.
pub proof fn chunks_join(
    state: ConverterState,
    a: Seq<Delta>,
    b: Seq<Delta>,
    fresh_a: Seq<Seq<char>>,
    fresh_b: Seq<Seq<char>>,
)
    requires
        state.places_distinct(),
        fresh_a.len() == larger(0, chunk_span(a) - state.calls.len()),
        chunk_span(b) <= state.calls.len() + fresh_a.len() + fresh_b.len(),
    ensures
        ({
            let base = state.calls.len() as int;
            let middle = state.after_chunk(a, base, fresh_a);
            let next = middle.calls.len() as int;
            &&& state.after_chunk(a + b, base, fresh_a + fresh_b) == middle.after_chunk(
                b,
                next,
                fresh_b,
            )
            &&& state.chunk_events(a + b, base, fresh_a + fresh_b) == state.chunk_events(
                a,
                base,
                fresh_a,
            ) + middle.chunk_events(b, next, fresh_b)
        }),
{
    let base = state.calls.len() as int;
    let fresh = fresh_a + fresh_b;
    let middle = state.after_chunk(a, base, fresh_a);
    chunk_keeps_places(state, a, base, fresh_a);
    chunk_adds(state, a, b, base, fresh);
    chunk_ids(state, a, base, fresh_a, base, fresh);
    chunk_ids(middle, b, base, fresh, middle.calls.len() as int, fresh_b);
}

/// The names of events on the wire.
pub open spec fn event_types(events: Seq<StreamEvent>) -> Seq<Seq<char>> {
    Seq::new(events.len(), |i: int| events[i].event_type())
}

/// Whether a chunk brings text only.
pub open spec fn text_only(chunk: Seq<Delta>) -> bool {
    forall|i: int| 0 <= i < chunk.len() ==> (#[trigger] chunk[i]).tools.len() == 0
}

/// How many choices of a chunk bring text that is not empty.
pub open spec fn text_count(chunk: Seq<Delta>) -> nat
    decreases chunk.len(),
{
    if chunk.len() == 0 {
        0
    } else {
        text_count(chunk.drop_last()) + (if chunk.last().content.len() > 0 {
            1nat
        } else {
            0
        })
    }
}

/// The names of the events for `n` pieces of text, the first of which announces
/// the message.
pub open spec fn text_types(n: nat) -> Seq<Seq<char>> {
    if n == 0 {
        Seq::empty()
    } else {
        seq!["response.output_item.added"@, "response.content_part.added"@] + Seq::new(
            n,
            |i: int| "response.output_text.delta"@,
        )
    }
}

proof fn text_chunk_types(
    state: ConverterState,
    chunk: Seq<Delta>,
    base: int,
    fresh: Seq<Seq<char>>,
)
    requires
        !state.message_started,
        text_only(chunk),
    ensures
        event_types(state.chunk_events(chunk, base, fresh)) == text_types(text_count(chunk)),
        state.after_chunk(chunk, base, fresh).message_started == (text_count(chunk) > 0),
        state.after_chunk(chunk, base, fresh).calls == state.calls,
    decreases chunk.len(),
{
    let events = state.chunk_events(chunk, base, fresh);
    if chunk.len() == 0 {
        assert(event_types(events) =~= text_types(0));
    } else {
        let earlier = chunk.drop_last();
        text_chunk_types(state, earlier, base, fresh);
        let before = state.after_chunk(earlier, base, fresh);
        let first = state.chunk_events(earlier, base, fresh);
        let last = before.text_events(chunk.last().content);
        assert(chunk.last().tools.len() == 0);
        assert(events =~= first + last);
        assert(event_types(events) =~= event_types(first) + event_types(last));
        assert(event_types(events) =~= text_types(text_count(chunk)));
    }
}

/// A stream of text gives its events in the documented order: created, in
/// progress, item added, part added, the pieces of text, text done, part done,
/// item done, completed. Without any text the message is left out.
pub proof fn text_stream_order(
    model: Seq<char>,
    response_id: Seq<char>,
    message_item_id: Seq<char>,
    created_at: u64,
    chunk: Seq<Delta>,
    fresh: Seq<Seq<char>>,
    now: u64,
)
    requires
        text_only(chunk),
    ensures
        ({
            let new = ConverterState::fresh(model, response_id, message_item_id, created_at);
            let started = new.numbered(2);
            let ended = started.after_chunk(chunk, 0, fresh);
            let all = new.start_events() + started.chunk_events(chunk, 0, fresh)
                + ended.end_events(now);
            let n = text_count(chunk);
            &&& consecutive(all, 0)
            &&& event_types(all) == seq!["response.created"@, "response.in_progress"@]
                + text_types(n) + (if n > 0 {
                seq![
                    "response.output_text.done"@,
                    "response.content_part.done"@,
                    "response.output_item.done"@,
                ]
            } else {
                Seq::empty()
            }) + seq!["response.completed"@]
        }),
{
    let new = ConverterState::fresh(model, response_id, message_item_id, created_at);
    let started = new.numbered(2);
    let ended = started.after_chunk(chunk, 0, fresh);
    let middle = started.chunk_events(chunk, 0, fresh);
    let all = new.start_events() + middle + ended.end_events(now);
    let n = text_count(chunk);
    chunk_numbering(started, chunk, 0, fresh);
    end_numbering(ended, now);
    text_chunk_types(started, chunk, 0, fresh);
    assert(ended.calls.len() == 0);
    assert(calls_end_events(
        ended.calls,
        ended.sequence_number + ended.message_end_events().len(),
    ).len() == 0);
    let closing = if n > 0 {
        seq![
            "response.output_text.done"@,
            "response.content_part.done"@,
            "response.output_item.done"@,
        ]
    } else {
        Seq::empty()
    };
    assert(event_types(new.start_events()) =~= seq![
        "response.created"@,
        "response.in_progress"@,
    ]);
    assert(event_types(ended.end_events(now)) =~= closing + seq!["response.completed"@]);
    assert(event_types(all) =~= event_types(new.start_events()) + event_types(middle)
        + event_types(ended.end_events(now)));
    assert(event_types(all) =~= seq!["response.created"@, "response.in_progress"@]
        + text_types(n) + closing + seq!["response.completed"@]);
}

/// At the end of a stream, the text that is declared done and stored is all the
/// text that the stream brought, and there is a message only where there was
/// text.
pub proof fn stream_end_holds_all_text(
    model: Seq<char>,
    response_id: Seq<char>,
    message_item_id: Seq<char>,
    created_at: u64,
    chunk: Seq<Delta>,
    fresh: Seq<Seq<char>>,
    now: u64,
)
    ensures
        ({
            let started = ConverterState::fresh(
                model,
                response_id,
                message_item_id,
                created_at,
            ).numbered(2);
            let ended = started.after_chunk(chunk, 0, fresh);
            let output = ended.final_response(now).output;
            &&& ended.text == chunk_text(chunk)
            &&& ended.message_started <==> chunk_text(chunk).len() > 0
            &&& chunk_text(chunk).len() > 0 ==> output.len() > 0 && output[0] == ended.message(
                seq![plain_part(chunk_text(chunk))],
                OutputStatus::Completed,
            )
        }),
{
    let started = ConverterState::fresh(
        model,
        response_id,
        message_item_id,
        created_at,
    ).numbered(2);
    chunk_passes_text(started, chunk, 0, fresh);
    assert(started.text + chunk_text(chunk) =~= chunk_text(chunk));
    chunk_starts_message(started, chunk, 0, fresh);
}

proof fn tools_keep_message(
    state: ConverterState,
    tools: Seq<ToolDelta>,
    base: int,
    fresh: Seq<Seq<char>>,
)
    ensures
        state.after_tools(tools, base, fresh).message_started == state.message_started,
    decreases tools.len(),
{
    if tools.len() > 0 {
        tools_keep_message(state, tools.drop_last(), base, fresh);
    }
}

pub(crate) proof fn chunk_starts_message(
    state: ConverterState,
    chunk: Seq<Delta>,
    base: int,
    fresh: Seq<Seq<char>>,
)
    ensures
        state.after_chunk(chunk, base, fresh).message_started == (state.message_started
            || chunk_text(chunk).len() > 0),
    decreases chunk.len(),
{
    if chunk.len() > 0 {
        let before = state.after_chunk(chunk.drop_last(), base, fresh);
        chunk_starts_message(state, chunk.drop_last(), base, fresh);
        tools_keep_message(
            before.after_text(chunk.last().content),
            chunk.last().tools,
            base,
            fresh,
        );
    }
}

/// What the end of a stream gives.
pub struct StreamEnd {
    /// The last events.
    pub events: Vec<ResponseStreamEvent>,
    /// The completed response, where it was asked for.
    pub to_store: Option<Response>,
}

pub(crate) proof fn calls_end_numbering(calls: Seq<CallState>, number: int)
    ensures
        consecutive(calls_end_events(calls, number), number),
        calls_end_events(calls, number).len() <= 2 * calls.len(),
        forall|other: int|
            (#[trigger] calls_end_events(calls, other)).len() == calls_end_events(
                calls,
                number,
            ).len(),
    decreases calls.len(),
{
    if calls.len() > 0 {
        calls_end_numbering(calls.drop_last(), number);
        assert forall|other: int|
            (#[trigger] calls_end_events(calls, other)).len() == calls_end_events(
                calls,
                number,
            ).len() by {
            assert(calls_end_events(calls.drop_last(), other).len() == calls_end_events(
                calls.drop_last(),
                number,
            ).len());
        }
    }
}

/// The last events of a stream are numbered one after the other, from the
/// converter's next number on; the very last one completes the response.
pub proof fn end_numbering(state: ConverterState, now: u64)
    ensures
        consecutive(state.end_events(now), state.sequence_number),
        state.after_end().sequence_number == state.sequence_number + state.end_events(now).len(),
        state.end_events(now).last() is Completed,
{
    calls_end_numbering(
        state.calls,
        state.sequence_number + state.message_end_events().len(),
    );
}

impl ConverterState {
    /// Whether the numbers of events leave room for the end of the stream.
    pub open spec fn has_room_to_end(self) -> bool {
        self.sequence_number + 4 + 2 * self.calls.len() <= u64::MAX
    }
}

impl ResponseStreamConverter {
    /// The output items: the message, then the function calls that have been
    /// announced.
    fn build_output_items(&self) -> (res: Vec<OutputItem>)
        ensures
            events::items_view(res@) == self@.output_items(),
    {
        let mut output: Vec<OutputItem> = Vec::new();
        if self.message_started {
            output.push(self.completed_message());
        }
        let ghost message = events::items_view(output@);
        let ghost calls = self@.calls;
        let mut i: usize = 0;
        assert(message =~= message + call_items(calls.take(0)));
        while i < self.function_call_items.len()
            invariant
                i <= self.function_call_items.len(),
                calls == self@.calls,
                events::items_view(output@) == message + call_items(calls.take(i as int)),
            decreases self.function_call_items.len() - i,
        {
            let ghost before = output@;
            assert(calls.take(i + 1).drop_last() =~= calls.take(i as int));
            let call = &self.function_call_items[i];
            if call.started {
                output.push(call.item(call.accumulated_args.as_str(), OutputStatus::Completed));
                assert(events::items_view(output@) =~= events::items_view(before).push(
                    output@.last()@,
                ));
            }
            assert(events::items_view(output@) =~= message + call_items(calls.take(i + 1)));
            i = i + 1;
        }
        proof {
            assert(calls.take(calls.len() as int) =~= calls);
            if self.message_started {
                assert(message =~= seq![
                    self@.message(seq![plain_part(self@.text)], OutputStatus::Completed),
                ]);
            } else {
                assert(message =~= Seq::empty());
            }
        }
        output
    }

    /// The message item, whole.
    fn completed_message(&self) -> (res: OutputItem)
        ensures
            res@ == self@.message(seq![plain_part(self@.text)], OutputStatus::Completed),
    {
        let mut content: Vec<OutputTextContent> = Vec::new();
        content.push(text_part(self.accumulated_text.as_str()));
        let res = OutputItem::Message(
            OutputMessage {
                id: self.message_item_id.clone(),
                content,
                role: AssistantRole::Assistant,
                status: OutputStatus::Completed,
            },
        );
        assert(res@ =~~= self@.message(seq![plain_part(self@.text)], OutputStatus::Completed));
        res
    }

    /// The response without output.
    fn make_response(&self, status: Status) -> (res: Response)
        requires
            status == Status::InProgress,
        ensures
            res@ == self@.response(status, Seq::empty(), 0),
    {
        let res = self.make_response_with_output(status, Vec::new(), 0);
        assert(events::items_view(Seq::empty()) =~= Seq::<Item>::empty());
        res
    }

    /// The response with its output, as of `now`.
    fn make_response_with_output(&self, status: Status, output: Vec<OutputItem>, now: u64) -> (res:
        Response)
        ensures
            res@ == self@.response(status, events::items_view(output@), now),
    {
        let completed_at: Option<u64> = if status == Status::Completed {
            Some(now)
        } else {
            None
        };
        let members: Vec<JsonMember> = Vec::new();
        assert(crate::json::member_views(members@) =~= Seq::empty());
        let tools: Vec<JsonValue> = Vec::new();
        assert(crate::json::json_views(tools@) =~= Seq::empty());
        Response {
            id: self.response_id.clone(),
            object: owned("response"),
            created_at: self.created_at,
            completed_at,
            status,
            model: self.model.clone(),
            output,
            background: Some(false),
            frequency_penalty: Some(0),
            metadata: Some(JsonValue::Object(members)),
            parallel_tool_calls: Some(true),
            presence_penalty: Some(0),
            store: Some(true),
            temperature: Some(1000),
            text: Some(
                ResponseTextParam {
                    format: TextResponseFormatConfiguration::Text,
                    verbosity: None,
                },
            ),
            tool_choice: Some(ToolChoiceOptions::Auto),
            tools: Some(tools),
            top_p: Some(1000),
            truncation: Some(Truncation::Disabled),
            billing: None,
            conversation: None,
            error: None,
            incomplete_details: None,
            instructions: None,
            max_output_tokens: None,
            max_tool_calls: None,
            previous_response_id: None,
            prompt: None,
            prompt_cache_key: None,
            prompt_cache_retention: None,
            reasoning: None,
            safety_identifier: None,
            service_tier: Some(ServiceTier::Auto),
            top_logprobs: Some(0),
            usage: None,
        }
    }

    /// Whether there is room for the first events.
    pub fn can_start(&self) -> (res: bool)
        ensures
            res == (self@.sequence_number + 2 <= u64::MAX),
    {
        self.sequence_number <= u64::MAX - 2
    }

    /// Emits the first events: created and in progress.
    pub fn emit_start_events(&mut self) -> (res: Vec<ResponseStreamEvent>)
        requires
            old(self)@.sequence_number + 2 <= u64::MAX,
        ensures
            final(self)@ == old(self)@.numbered(2),
            events::events_view(res@) == old(self)@.start_events(),
    {
        let mut events: Vec<ResponseStreamEvent> = Vec::new();
        let seq: u64 = self.next_seq();
        let response = self.make_response(Status::InProgress);
        events.push(ResponseStreamEvent::ResponseCreated { sequence_number: seq, response });
        let seq: u64 = self.next_seq();
        let response = self.make_response(Status::InProgress);
        events.push(ResponseStreamEvent::ResponseInProgress { sequence_number: seq, response });
        proof {
            assert(self@ =~= old(self)@.numbered(2));
            assert(events::events_view(events@) =~= old(self)@.start_events());
        }
        events
    }

    /// Emits the events that close the message and the function calls.
    fn close_items(&mut self) -> (res: Vec<ResponseStreamEvent>)
        requires
            old(self)@.has_room_to_end(),
        ensures
            final(self)@ == old(self)@.numbered(old(self)@.closing_events().len() as int),
            events::events_view(res@) == old(self)@.closing_events(),
            final(self)@.sequence_number < u64::MAX,
    {
        let ghost before = self@;
        let mut events: Vec<ResponseStreamEvent> = Vec::new();
        if self.message_started {
            let seq: u64 = self.next_seq();
            events.push(
                ResponseStreamEvent::ResponseOutputTextDone {
                    sequence_number: seq,
                    item_id: self.message_item_id.clone(),
                    output_index: self.message_output_index,
                    content_index: 0,
                    text: self.accumulated_text.clone(),
                    logprobs: Some(Vec::new()),
                },
            );
            let seq: u64 = self.next_seq();
            events.push(
                ResponseStreamEvent::ResponseContentPartDone {
                    sequence_number: seq,
                    item_id: self.message_item_id.clone(),
                    output_index: self.message_output_index,
                    content_index: 0,
                    part: text_part(self.accumulated_text.as_str()),
                },
            );
            let seq: u64 = self.next_seq();
            let item = self.completed_message();
            events.push(
                ResponseStreamEvent::ResponseOutputItemDone {
                    sequence_number: seq,
                    output_index: self.message_output_index,
                    item,
                },
            );
        }
        let ghost message = before.message_end_events();
        let ghost first = before.sequence_number + message.len();
        let ghost calls = before.calls;
        assert(events::events_view(events@) =~~= message);
        assert(self@ =~= before.numbered(message.len() as int));
        let mut i: usize = 0;
        assert(message =~= message + calls_end_events(calls.take(0), first));
        while i < self.function_call_items.len()
            invariant
                i <= self.function_call_items.len(),
                calls == before.calls,
                calls == calls_view(self.function_call_items@),
                message == before.message_end_events(),
                message.len() <= 3,
                first == before.sequence_number + message.len(),
                before.has_room_to_end(),
                self@ == before.numbered(
                    message.len() as int + calls_end_events(calls.take(i as int), first).len(),
                ),
                events::events_view(events@) == message + calls_end_events(
                    calls.take(i as int),
                    first,
                ),
            decreases self.function_call_items.len() - i,
        {
            let ghost earlier = events@;
            proof {
                calls_end_numbering(calls.take(i as int), first);
                assert(calls.take(i + 1).drop_last() =~= calls.take(i as int));
            }
            if self.function_call_items[i].started {
                let seq: u64 = self.next_seq();
                let call = &self.function_call_items[i];
                events.push(
                    ResponseStreamEvent::ResponseFunctionCallArgumentsDone {
                        sequence_number: seq,
                        item_id: call.item_id.clone(),
                        output_index: call.output_index,
                        arguments: call.accumulated_args.clone(),
                        name: Some(call.name.clone()),
                    },
                );
                let seq: u64 = self.next_seq();
                let call = &self.function_call_items[i];
                let item = call.item(call.accumulated_args.as_str(), OutputStatus::Completed);
                events.push(
                    ResponseStreamEvent::ResponseOutputItemDone {
                        sequence_number: seq,
                        output_index: call.output_index,
                        item,
                    },
                );
                assert(events::events_view(events@) =~= events::events_view(earlier).push(
                    events@[earlier.len() as int]@,
                ).push(events@[earlier.len() as int + 1]@));
            }
            proof {
                let closed = calls_end_events(calls.take(i + 1), first);
                assert(events::events_view(events@) =~~= message + closed);
                assert(self@ =~= before.numbered(message.len() as int + closed.len()));
            }
            i = i + 1;
        }
        proof {
            assert(calls.take(calls.len() as int) =~= calls);
            calls_end_numbering(calls, first);
        }
        events
    }

    /// Emits the last events, as of `now`.
    pub fn emit_end_events_at(&mut self, now: u64) -> (res: StreamEnd)
        requires
            old(self)@.has_room_to_end(),
        ensures
            final(self)@ == old(self)@.after_end(),
            events::events_view(res.events@) == old(self)@.end_events(now),
            match res.to_store {
                Some(response) => old(self)@.stores && response@ == old(self)@.final_response(now),
                None => !old(self)@.stores,
            },
    {
        let ghost before = self@;
        let mut events = self.close_items();
        let ghost closing = events@;
        let items = self.build_output_items();
        let response = self.make_response_with_output(Status::Completed, items, now);
        let seq: u64 = self.next_seq();
        events.push(ResponseStreamEvent::ResponseCompleted { sequence_number: seq, response });
        assert(events::events_view(events@) =~= events::events_view(closing).push(
            events@.last()@,
        ));
        let to_store = if self.storage_requested {
            let items = self.build_output_items();
            Some(self.make_response_with_output(Status::Completed, items, now))
        } else {
            None
        };
        self.storage_requested = false;
        assert(self@ =~= before.after_end());
        StreamEnd { events, to_store }
    }

    /// Whether there is room for the last events.
    pub fn can_end(&self) -> (res: bool)
        ensures
            res == self@.has_room_to_end(),
    {
        assert(self@.calls.len() == self.function_call_items@.len());
        let room: u64 = u64::MAX - self.sequence_number;
        room >= 4 && self.function_call_items.len() as u64 <= (room - 4) / 2
    }

    /// Emits the last events; the response is completed at what the system
    /// clock says.
    pub fn emit_end_events(&mut self) -> (res: StreamEnd)
        requires
            old(self)@.has_room_to_end(),
        ensures
            final(self)@ == old(self)@.after_end(),
            res.to_store is Some <==> old(self)@.stores,
            exists|now: u64|
                {
                    &&& events::events_view(res.events@) == #[trigger] old(self)@.end_events(now)
                    &&& res.to_store matches Some(response) ==> response@
                        == old(self)@.final_response(now)
                },
    {
        let now: u64 = seconds_or_epoch(read_unix_seconds());
        self.emit_end_events_at(now)
    }
}

/// A piece of text without annotations.
fn text_part(text: &str) -> (res: OutputTextContent)
    ensures
        res@ == plain_part(text@),
{
    OutputTextContent { text: owned(text), annotations: Vec::new(), logprobs: Some(Vec::new()) }
}

} // verus!
