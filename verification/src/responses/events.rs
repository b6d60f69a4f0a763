//! Objects and stream events of the Responses API, and the chunks of a chat
//! completion stream they are made from.
//!
//! A number that is a decimal fraction on the wire is held in thousandths.

use crate::json::{Json, JsonValue};
use crate::json;
use vstd::prelude::*;

verus! {

/// How far an output item is.
#[derive(Debug, Clone, Copy, PartialEq, Eq, Structural)]
pub enum OutputStatus {
    /// More of the item is to come.
    InProgress,
    /// The item is whole.
    Completed,
}

/// How far a response is.
#[derive(Debug, Clone, Copy, PartialEq, Eq, Structural)]
pub enum Status {
    /// More of the response is to come.
    InProgress,
    /// The response is whole.
    Completed,
}

/// Who wrote an output message.
#[derive(Debug, Clone, Copy, PartialEq, Eq, Structural)]
pub enum AssistantRole {
    /// The model.
    Assistant,
}

/// The form in which text is asked for.
#[derive(Debug, Clone, Copy, PartialEq, Eq, Structural)]
pub enum TextResponseFormatConfiguration {
    /// Plain text.
    Text,
}

/// How the model picks its tools.
#[derive(Debug, Clone, Copy, PartialEq, Eq, Structural)]
pub enum ToolChoiceOptions {
    /// The model decides.
    Auto,
}

/// What happens to an input that is too long.
#[derive(Debug, Clone, Copy, PartialEq, Eq, Structural)]
pub enum Truncation {
    /// It is refused.
    Disabled,
}

/// Which service handles a request.
#[derive(Debug, Clone, Copy, PartialEq, Eq, Structural)]
pub enum ServiceTier {
    /// The server decides.
    Auto,
}

/// A piece of text in an output item.
#[derive(Debug, PartialEq, Eq)]
pub struct OutputTextContent {
    /// The text.
    pub text: String,
    /// Notes on the text.
    pub annotations: Vec<JsonValue>,
    /// Log probabilities of the tokens.
    pub logprobs: Option<Vec<JsonValue>>,
}

/// A message of the model.
#[derive(Debug, PartialEq, Eq)]
pub struct OutputMessage {
    /// The item's identifier.
    pub id: String,
    /// The pieces of the message.
    pub content: Vec<OutputTextContent>,
    /// Who wrote it.
    pub role: AssistantRole,
    /// How far it is.
    pub status: OutputStatus,
}

/// A call of a function that the model asks for.
#[derive(Debug, PartialEq, Eq)]
pub struct FunctionToolCall {
    /// The item's identifier.
    pub id: Option<String>,
    /// The call's identifier.
    pub call_id: String,
    /// The function's name.
    pub name: String,
    /// The arguments as JSON text.
    pub arguments: String,
    /// How far it is.
    pub status: Option<OutputStatus>,
}

/// An item of a response's output.
#[derive(Debug, PartialEq, Eq)]
pub enum OutputItem {
    /// A message.
    Message(OutputMessage),
    /// A function call.
    FunctionCall(FunctionToolCall),
}

/// Settings for text output.
#[derive(Debug, Clone, Copy, PartialEq, Eq, Structural)]
pub struct ResponseTextParam {
    /// The form of the text.
    pub format: TextResponseFormatConfiguration,
    /// How wordy the text is to be, as a level.
    pub verbosity: Option<u8>,
}

/// A response object.
#[derive(Debug, PartialEq, Eq)]
pub struct Response {
    /// The response's identifier.
    pub id: String,
    /// The kind of the object.
    pub object: String,
    /// When the response was created, in seconds since the Unix epoch.
    pub created_at: u64,
    /// When the response was completed, in seconds since the Unix epoch.
    pub completed_at: Option<u64>,
    /// How far the response is.
    pub status: Status,
    /// The model's name.
    pub model: String,
    /// The output items.
    pub output: Vec<OutputItem>,
    /// Whether the request runs in the background.
    pub background: Option<bool>,
    /// The frequency penalty in thousandths.
    pub frequency_penalty: Option<i64>,
    /// Free data of the caller.
    pub metadata: Option<JsonValue>,
    /// Whether tools may run side by side.
    pub parallel_tool_calls: Option<bool>,
    /// The presence penalty in thousandths.
    pub presence_penalty: Option<i64>,
    /// Whether the response is stored.
    pub store: Option<bool>,
    /// The temperature in thousandths.
    pub temperature: Option<i64>,
    /// Settings for text output.
    pub text: Option<ResponseTextParam>,
    /// How tools are picked.
    pub tool_choice: Option<ToolChoiceOptions>,
    /// The tools on offer.
    pub tools: Option<Vec<JsonValue>>,
    /// The nucleus sampling mass in thousandths.
    pub top_p: Option<i64>,
    /// What happens to an input that is too long.
    pub truncation: Option<Truncation>,
    /// Who pays.
    pub billing: Option<JsonValue>,
    /// The conversation that the response belongs to.
    pub conversation: Option<JsonValue>,
    /// What went wrong.
    pub error: Option<JsonValue>,
    /// Why the response is incomplete.
    pub incomplete_details: Option<JsonValue>,
    /// The system instructions.
    pub instructions: Option<JsonValue>,
    /// The most tokens to produce.
    pub max_output_tokens: Option<u32>,
    /// The most tool calls to make.
    pub max_tool_calls: Option<u32>,
    /// The response that this one goes on from.
    pub previous_response_id: Option<String>,
    /// The prompt template.
    pub prompt: Option<JsonValue>,
    /// The key under which the prompt is cached.
    pub prompt_cache_key: Option<String>,
    /// How long the prompt is cached.
    pub prompt_cache_retention: Option<JsonValue>,
    /// Settings for reasoning.
    pub reasoning: Option<JsonValue>,
    /// The end user's identifier.
    pub safety_identifier: Option<String>,
    /// Which service handles the request.
    pub service_tier: Option<ServiceTier>,
    /// How many log probabilities are given per token.
    pub top_logprobs: Option<u8>,
    /// The tokens used.
    pub usage: Option<JsonValue>,
}

/// An event of a Responses API stream.
#[derive(Debug, PartialEq, Eq)]
pub enum ResponseStreamEvent {
    /// The response exists.
    ResponseCreated {
        /// The event's number.
        sequence_number: u64,
        /// The response so far.
        response: Response,
    },
    /// The model is at work.
    ResponseInProgress {
        /// The event's number.
        sequence_number: u64,
        /// The response so far.
        response: Response,
    },
    /// The response is whole.
    ResponseCompleted {
        /// The event's number.
        sequence_number: u64,
        /// The response.
        response: Response,
    },
    /// The response failed.
    ResponseFailed {
        /// The event's number.
        sequence_number: u64,
        /// The response so far.
        response: Response,
    },
    /// The response ended early.
    ResponseIncomplete {
        /// The event's number.
        sequence_number: u64,
        /// The response so far.
        response: Response,
    },
    /// The request waits.
    ResponseQueued {
        /// The event's number.
        sequence_number: u64,
        /// The response so far.
        response: Response,
    },
    /// An output item starts.
    ResponseOutputItemAdded {
        /// The event's number.
        sequence_number: u64,
        /// The item's place in the output.
        output_index: u32,
        /// The item so far.
        item: OutputItem,
    },
    /// A piece of a message starts.
    ResponseContentPartAdded {
        /// The event's number.
        sequence_number: u64,
        /// The message's identifier.
        item_id: String,
        /// The message's place in the output.
        output_index: u32,
        /// The piece's place in the message.
        content_index: u32,
        /// The piece so far.
        part: OutputTextContent,
    },
    /// More text.
    ResponseOutputTextDelta {
        /// The event's number.
        sequence_number: u64,
        /// The message's identifier.
        item_id: String,
        /// The message's place in the output.
        output_index: u32,
        /// The piece's place in the message.
        content_index: u32,
        /// The text that is new.
        delta: String,
        /// Log probabilities of the tokens.
        logprobs: Option<Vec<JsonValue>>,
    },
    /// The text is whole.
    ResponseOutputTextDone {
        /// The event's number.
        sequence_number: u64,
        /// The message's identifier.
        item_id: String,
        /// The message's place in the output.
        output_index: u32,
        /// The piece's place in the message.
        content_index: u32,
        /// All of the text.
        text: String,
        /// Log probabilities of the tokens.
        logprobs: Option<Vec<JsonValue>>,
    },
    /// A piece of a message is whole.
    ResponseContentPartDone {
        /// The event's number.
        sequence_number: u64,
        /// The message's identifier.
        item_id: String,
        /// The message's place in the output.
        output_index: u32,
        /// The piece's place in the message.
        content_index: u32,
        /// The piece.
        part: OutputTextContent,
    },
    /// An output item is whole.
    ResponseOutputItemDone {
        /// The event's number.
        sequence_number: u64,
        /// The item's place in the output.
        output_index: u32,
        /// The item.
        item: OutputItem,
    },
    /// More of a function call's arguments.
    ResponseFunctionCallArgumentsDelta {
        /// The event's number.
        sequence_number: u64,
        /// The call's item identifier.
        item_id: String,
        /// The call's place in the output.
        output_index: u32,
        /// The text that is new.
        delta: String,
    },
    /// A function call's arguments are whole.
    ResponseFunctionCallArgumentsDone {
        /// The event's number.
        sequence_number: u64,
        /// The call's item identifier.
        item_id: String,
        /// The call's place in the output.
        output_index: u32,
        /// All of the arguments.
        arguments: String,
        /// The function's name.
        name: Option<String>,
    },
    /// An event of a kind that has no name here.
    Other {
        /// The event's number.
        sequence_number: u64,
    },
}

/// A piece of text as mathematics.
#[verifier::ext_equal]
pub struct TextPart {
    /// The text.
    pub text: Seq<char>,
    /// Notes on the text.
    pub annotations: Seq<Json>,
    /// Log probabilities of the tokens.
    pub logprobs: Option<Seq<Json>>,
}

/// An output item as mathematics.
#[verifier::ext_equal]
#[allow(inconsistent_fields)]
pub enum Item {
    /// A message.
    Message {
        /// The item's identifier.
        id: Seq<char>,
        /// Who wrote it.
        role: AssistantRole,
        /// The pieces.
        content: Seq<TextPart>,
        /// How far it is.
        status: OutputStatus,
    },
    /// A function call.
    FunctionCall {
        /// The item's identifier.
        id: Option<Seq<char>>,
        /// The call's identifier.
        call_id: Seq<char>,
        /// The function's name.
        name: Seq<char>,
        /// The arguments.
        arguments: Seq<char>,
        /// How far it is.
        status: Option<OutputStatus>,
    },
}

/// A response as mathematics.
#[verifier::ext_equal]
pub struct ResponseView {
    /// The response's identifier.
    pub id: Seq<char>,
    /// The kind of the object.
    pub object: Seq<char>,
    /// When it was created.
    pub created_at: u64,
    /// When it was completed.
    pub completed_at: Option<u64>,
    /// How far it is.
    pub status: Status,
    /// The model's name.
    pub model: Seq<char>,
    /// The output items.
    pub output: Seq<Item>,
    /// Whether every other field has the value that a response has by default.
    pub default_settings: bool,
}

/// An event as mathematics.
#[verifier::ext_equal]
pub enum StreamEvent {
    /// The response exists.
    Created {
        /// The event's number.
        sequence_number: int,
        /// The response so far.
        response: ResponseView,
    },
    /// The model is at work.
    InProgress {
        /// The event's number.
        sequence_number: int,
        /// The response so far.
        response: ResponseView,
    },
    /// The response is whole.
    Completed {
        /// The event's number.
        sequence_number: int,
        /// The response.
        response: ResponseView,
    },
    /// The response failed.
    Failed {
        /// The event's number.
        sequence_number: int,
        /// The response so far.
        response: ResponseView,
    },
    /// The response ended early.
    Incomplete {
        /// The event's number.
        sequence_number: int,
        /// The response so far.
        response: ResponseView,
    },
    /// The request waits.
    Queued {
        /// The event's number.
        sequence_number: int,
        /// The response so far.
        response: ResponseView,
    },
    /// An output item starts.
    ItemAdded {
        /// The event's number.
        sequence_number: int,
        /// The item's place in the output.
        output_index: int,
        /// The item so far.
        item: Item,
    },
    /// A piece of a message starts.
    PartAdded {
        /// The event's number.
        sequence_number: int,
        /// The message's identifier.
        item_id: Seq<char>,
        /// The message's place in the output.
        output_index: int,
        /// The piece's place in the message.
        content_index: int,
        /// The piece so far.
        part: TextPart,
    },
    /// More text.
    TextDelta {
        /// The event's number.
        sequence_number: int,
        /// The message's identifier.
        item_id: Seq<char>,
        /// The message's place in the output.
        output_index: int,
        /// The piece's place in the message.
        content_index: int,
        /// The text that is new.
        delta: Seq<char>,
        /// Log probabilities of the tokens.
        logprobs: Option<Seq<Json>>,
    },
    /// The text is whole.
    TextDone {
        /// The event's number.
        sequence_number: int,
        /// The message's identifier.
        item_id: Seq<char>,
        /// The message's place in the output.
        output_index: int,
        /// The piece's place in the message.
        content_index: int,
        /// All of the text.
        text: Seq<char>,
        /// Log probabilities of the tokens.
        logprobs: Option<Seq<Json>>,
    },
    /// A piece of a message is whole.
    PartDone {
        /// The event's number.
        sequence_number: int,
        /// The message's identifier.
        item_id: Seq<char>,
        /// The message's place in the output.
        output_index: int,
        /// The piece's place in the message.
        content_index: int,
        /// The piece.
        part: TextPart,
    },
    /// An output item is whole.
    ItemDone {
        /// The event's number.
        sequence_number: int,
        /// The item's place in the output.
        output_index: int,
        /// The item.
        item: Item,
    },
    /// More of a function call's arguments.
    ArgumentsDelta {
        /// The event's number.
        sequence_number: int,
        /// The call's item identifier.
        item_id: Seq<char>,
        /// The call's place in the output.
        output_index: int,
        /// The text that is new.
        delta: Seq<char>,
    },
    /// A function call's arguments are whole.
    ArgumentsDone {
        /// The event's number.
        sequence_number: int,
        /// The call's item identifier.
        item_id: Seq<char>,
        /// The call's place in the output.
        output_index: int,
        /// All of the arguments.
        arguments: Seq<char>,
        /// The function's name.
        name: Option<Seq<char>>,
    },
    /// An event of a kind that has no name here.
    Other {
        /// The event's number.
        sequence_number: int,
    },
}

impl StreamEvent {
    /// The event's number.
    pub open spec fn number(self) -> int {
        match self {
            StreamEvent::Created { sequence_number, .. } => sequence_number,
            StreamEvent::InProgress { sequence_number, .. } => sequence_number,
            StreamEvent::Completed { sequence_number, .. } => sequence_number,
            StreamEvent::Failed { sequence_number, .. } => sequence_number,
            StreamEvent::Incomplete { sequence_number, .. } => sequence_number,
            StreamEvent::Queued { sequence_number, .. } => sequence_number,
            StreamEvent::ItemAdded { sequence_number, .. } => sequence_number,
            StreamEvent::PartAdded { sequence_number, .. } => sequence_number,
            StreamEvent::TextDelta { sequence_number, .. } => sequence_number,
            StreamEvent::TextDone { sequence_number, .. } => sequence_number,
            StreamEvent::PartDone { sequence_number, .. } => sequence_number,
            StreamEvent::ItemDone { sequence_number, .. } => sequence_number,
            StreamEvent::ArgumentsDelta { sequence_number, .. } => sequence_number,
            StreamEvent::ArgumentsDone { sequence_number, .. } => sequence_number,
            StreamEvent::Other { sequence_number } => sequence_number,
        }
    }

    /// The event's name on the wire.
    pub open spec fn event_type(self) -> Seq<char> {
        match self {
            StreamEvent::Created { .. } => "response.created"@,
            StreamEvent::InProgress { .. } => "response.in_progress"@,
            StreamEvent::Completed { .. } => "response.completed"@,
            StreamEvent::Failed { .. } => "response.failed"@,
            StreamEvent::Incomplete { .. } => "response.incomplete"@,
            StreamEvent::Queued { .. } => "response.queued"@,
            StreamEvent::ItemAdded { .. } => "response.output_item.added"@,
            StreamEvent::PartAdded { .. } => "response.content_part.added"@,
            StreamEvent::TextDelta { .. } => "response.output_text.delta"@,
            StreamEvent::TextDone { .. } => "response.output_text.done"@,
            StreamEvent::PartDone { .. } => "response.content_part.done"@,
            StreamEvent::ItemDone { .. } => "response.output_item.done"@,
            StreamEvent::ArgumentsDelta { .. } => "response.function_call_arguments.delta"@,
            StreamEvent::ArgumentsDone { .. } => "response.function_call_arguments.done"@,
            StreamEvent::Other { .. } => "unknown"@,
        }
    }
}

/// The views of an optional list of values.
pub open spec fn opt_json_views(list: Option<Vec<JsonValue>>) -> Option<Seq<Json>> {
    match list {
        Some(items) => Some(json::json_views(items@)),
        None => None,
    }
}

/// The characters of an optional text.
pub open spec fn opt_text(s: Option<String>) -> Option<Seq<char>> {
    match s {
        Some(t) => Some(t@),
        None => None,
    }
}

impl OutputTextContent {
    /// The piece as mathematics.
    pub open spec fn view(&self) -> TextPart {
        TextPart {
            text: self.text@,
            annotations: json::json_views(self.annotations@),
            logprobs: opt_json_views(self.logprobs),
        }
    }
}

impl OutputItem {
    /// The item as mathematics.
    pub open spec fn view(&self) -> Item {
        match self {
            OutputItem::Message(m) => Item::Message {
                id: m.id@,
                role: m.role,
                content: Seq::new(m.content@.len(), |i: int| m.content@[i]@),
                status: m.status,
            },
            OutputItem::FunctionCall(c) => Item::FunctionCall {
                id: opt_text(c.id),
                call_id: c.call_id@,
                name: c.name@,
                arguments: c.arguments@,
                status: c.status,
            },
        }
    }
}

/// The views of a sequence of items.
pub open spec fn items_view(items: Seq<OutputItem>) -> Seq<Item> {
    Seq::new(items.len(), |i: int| items[i]@)
}

/// The views of a sequence of events.
pub open spec fn events_view(events: Seq<ResponseStreamEvent>) -> Seq<StreamEvent> {
    Seq::new(events.len(), |i: int| events[i]@)
}

impl Response {
    /// Whether every field that is not about the response's own content has the
    /// value that a response has by default.
    pub open spec fn has_default_settings(&self) -> bool {
        &&& self.background == Some(false)
        &&& self.frequency_penalty == Some(0i64)
        &&& self.metadata matches Some(m) && m@ == Json::Object(Seq::empty())
        &&& self.parallel_tool_calls == Some(true)
        &&& self.presence_penalty == Some(0i64)
        &&& self.store == Some(true)
        &&& self.temperature == Some(1000i64)
        &&& self.text == Some(
            ResponseTextParam { format: TextResponseFormatConfiguration::Text, verbosity: None },
        )
        &&& self.tool_choice == Some(ToolChoiceOptions::Auto)
        &&& opt_json_views(self.tools) == Some(Seq::<Json>::empty())
        &&& self.top_p == Some(1000i64)
        &&& self.truncation == Some(Truncation::Disabled)
        &&& self.billing is None
        &&& self.conversation is None
        &&& self.error is None
        &&& self.incomplete_details is None
        &&& self.instructions is None
        &&& self.max_output_tokens is None
        &&& self.max_tool_calls is None
        &&& self.previous_response_id is None
        &&& self.prompt is None
        &&& self.prompt_cache_key is None
        &&& self.prompt_cache_retention is None
        &&& self.reasoning is None
        &&& self.safety_identifier is None
        &&& self.service_tier == Some(ServiceTier::Auto)
        &&& self.top_logprobs == Some(0u8)
        &&& self.usage is None
    }

    /// The response as mathematics.
    pub open spec fn view(&self) -> ResponseView {
        ResponseView {
            id: self.id@,
            object: self.object@,
            created_at: self.created_at,
            completed_at: self.completed_at,
            status: self.status,
            model: self.model@,
            output: items_view(self.output@),
            default_settings: self.has_default_settings(),
        }
    }
}

impl ResponseStreamEvent {
    /// The event as mathematics.
    pub open spec fn view(&self) -> StreamEvent {
        match self {
            ResponseStreamEvent::ResponseCreated { sequence_number, response } =>
                StreamEvent::Created {
                sequence_number: *sequence_number as int,
                response: response@,
            },
            ResponseStreamEvent::ResponseInProgress { sequence_number, response } =>
                StreamEvent::InProgress {
                sequence_number: *sequence_number as int,
                response: response@,
            },
            ResponseStreamEvent::ResponseCompleted { sequence_number, response } =>
                StreamEvent::Completed {
                sequence_number: *sequence_number as int,
                response: response@,
            },
            ResponseStreamEvent::ResponseFailed { sequence_number, response } =>
                StreamEvent::Failed {
                sequence_number: *sequence_number as int,
                response: response@,
            },
            ResponseStreamEvent::ResponseIncomplete { sequence_number, response } =>
                StreamEvent::Incomplete {
                sequence_number: *sequence_number as int,
                response: response@,
            },
            ResponseStreamEvent::ResponseQueued { sequence_number, response } =>
                StreamEvent::Queued {
                sequence_number: *sequence_number as int,
                response: response@,
            },
            ResponseStreamEvent::ResponseOutputItemAdded { sequence_number, output_index, item } =>
                StreamEvent::ItemAdded {
                sequence_number: *sequence_number as int,
                output_index: *output_index as int,
                item: item@,
            },
            ResponseStreamEvent::ResponseContentPartAdded {
                sequence_number,
                item_id,
                output_index,
                content_index,
                part,
            } => StreamEvent::PartAdded {
                sequence_number: *sequence_number as int,
                item_id: item_id@,
                output_index: *output_index as int,
                content_index: *content_index as int,
                part: part@,
            },
            ResponseStreamEvent::ResponseOutputTextDelta {
                sequence_number,
                item_id,
                output_index,
                content_index,
                delta,
                logprobs,
            } => StreamEvent::TextDelta {
                sequence_number: *sequence_number as int,
                item_id: item_id@,
                output_index: *output_index as int,
                content_index: *content_index as int,
                delta: delta@,
                logprobs: opt_json_views(*logprobs),
            },
            ResponseStreamEvent::ResponseOutputTextDone {
                sequence_number,
                item_id,
                output_index,
                content_index,
                text,
                logprobs,
            } => StreamEvent::TextDone {
                sequence_number: *sequence_number as int,
                item_id: item_id@,
                output_index: *output_index as int,
                content_index: *content_index as int,
                text: text@,
                logprobs: opt_json_views(*logprobs),
            },
            ResponseStreamEvent::ResponseContentPartDone {
                sequence_number,
                item_id,
                output_index,
                content_index,
                part,
            } => StreamEvent::PartDone {
                sequence_number: *sequence_number as int,
                item_id: item_id@,
                output_index: *output_index as int,
                content_index: *content_index as int,
                part: part@,
            },
            ResponseStreamEvent::ResponseOutputItemDone { sequence_number, output_index, item } =>
                StreamEvent::ItemDone {
                sequence_number: *sequence_number as int,
                output_index: *output_index as int,
                item: item@,
            },
            ResponseStreamEvent::ResponseFunctionCallArgumentsDelta {
                sequence_number,
                item_id,
                output_index,
                delta,
            } => StreamEvent::ArgumentsDelta {
                sequence_number: *sequence_number as int,
                item_id: item_id@,
                output_index: *output_index as int,
                delta: delta@,
            },
            ResponseStreamEvent::ResponseFunctionCallArgumentsDone {
                sequence_number,
                item_id,
                output_index,
                arguments,
                name,
            } => StreamEvent::ArgumentsDone {
                sequence_number: *sequence_number as int,
                item_id: item_id@,
                output_index: *output_index as int,
                arguments: arguments@,
                name: opt_text(*name),
            },
            ResponseStreamEvent::Other { sequence_number } => StreamEvent::Other {
                sequence_number: *sequence_number as int,
            },
        }
    }
}

/// The event's name on the wire.
pub fn get_event_type(event: &ResponseStreamEvent) -> (res: &'static str)
    ensures
        res@ == event@.event_type(),
{
    match event {
        ResponseStreamEvent::ResponseCreated { .. } => "response.created",
        ResponseStreamEvent::ResponseInProgress { .. } => "response.in_progress",
        ResponseStreamEvent::ResponseCompleted { .. } => "response.completed",
        ResponseStreamEvent::ResponseFailed { .. } => "response.failed",
        ResponseStreamEvent::ResponseIncomplete { .. } => "response.incomplete",
        ResponseStreamEvent::ResponseQueued { .. } => "response.queued",
        ResponseStreamEvent::ResponseOutputItemAdded { .. } => "response.output_item.added",
        ResponseStreamEvent::ResponseContentPartAdded { .. } => "response.content_part.added",
        ResponseStreamEvent::ResponseOutputTextDelta { .. } => "response.output_text.delta",
        ResponseStreamEvent::ResponseOutputTextDone { .. } => "response.output_text.done",
        ResponseStreamEvent::ResponseContentPartDone { .. } => "response.content_part.done",
        ResponseStreamEvent::ResponseOutputItemDone { .. } => "response.output_item.done",
        ResponseStreamEvent::ResponseFunctionCallArgumentsDelta { .. } =>
            "response.function_call_arguments.delta",
        ResponseStreamEvent::ResponseFunctionCallArgumentsDone { .. } =>
            "response.function_call_arguments.done",
        ResponseStreamEvent::Other { .. } => "unknown",
    }
}

/// A function call in a chunk, in part.
#[derive(Debug, PartialEq, Eq)]
pub struct FunctionCallDelta {
    /// The function's name.
    pub name: Option<String>,
    /// More of the arguments.
    pub arguments: Option<String>,
}

/// A tool call in a chunk, in part.
#[derive(Debug, PartialEq, Eq)]
pub struct ToolCallDelta {
    /// Which of the stream's tool calls this is about.
    pub index: u32,
    /// The call's identifier.
    pub id: Option<String>,
    /// The function call.
    pub function: Option<FunctionCallDelta>,
}

/// What a chunk adds to a choice.
#[derive(Debug, PartialEq, Eq)]
pub struct ChoiceDelta {
    /// More text.
    pub content: Option<String>,
    /// More tool calls.
    pub tool_calls: Option<Vec<ToolCallDelta>>,
}

/// A chunk of a chat completion stream: what it adds to each choice.
#[derive(Debug, PartialEq, Eq)]
pub struct StreamChunk {
    /// The choices, in order.
    pub choices: Vec<ChoiceDelta>,
}

/// A tool call in a chunk as mathematics.
pub struct ToolDelta {
    /// Which of the stream's tool calls this is about.
    pub index: nat,
    /// The call's identifier.
    pub id: Option<Seq<char>>,
    /// The function's name.
    pub name: Option<Seq<char>>,
    /// More of the arguments.
    pub arguments: Option<Seq<char>>,
}

/// What a chunk adds to a choice, as mathematics: the text, empty where there
/// is none, and the tool calls.
pub struct Delta {
    /// More text.
    pub content: Seq<char>,
    /// More tool calls.
    pub tools: Seq<ToolDelta>,
}

impl ToolCallDelta {
    /// The tool call as mathematics.
    pub open spec fn view(&self) -> ToolDelta {
        ToolDelta {
            index: self.index as nat,
            id: opt_text(self.id),
            name: match self.function {
                Some(f) => opt_text(f.name),
                None => None,
            },
            arguments: match self.function {
                Some(f) => opt_text(f.arguments),
                None => None,
            },
        }
    }
}

/// The views of a sequence of tool calls.
pub open spec fn tools_view(tools: Seq<ToolCallDelta>) -> Seq<ToolDelta> {
    Seq::new(tools.len(), |i: int| tools[i]@)
}

impl ChoiceDelta {
    /// The choice's addition as mathematics.
    pub open spec fn view(&self) -> Delta {
        Delta {
            content: match self.content {
                Some(c) => c@,
                None => Seq::empty(),
            },
            tools: match self.tool_calls {
                Some(t) => tools_view(t@),
                None => Seq::empty(),
            },
        }
    }
}

impl StreamChunk {
    /// The chunk as mathematics: the additions, in order.
    pub open spec fn view(&self) -> Seq<Delta> {
        Seq::new(self.choices@.len(), |i: int| self.choices@[i]@)
    }
}

} // verus!
