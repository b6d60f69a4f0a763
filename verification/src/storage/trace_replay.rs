//! Replay of recorded conversations through a storage.
//!
//! A trace is text with one span per line: a root span for the session, task
//! spans under it for the turns, and under each turn spans for what the model
//! and the tools gave. Parsing makes turns of the spans; replaying stores each
//! turn and chains it to the one before by `previous_response_id`.

use crate::json;
use crate::json::{find_text, text_member, Json, JsonMember, JsonNumber, JsonValue};
use crate::storage::response_storage::{
    new_record, same_for_others, with_record, Contents, ResponseStorage, StorageError,
};
use crate::text;
use crate::text::{has_prefix, is_blank, owned, split_lines, text_eq};
use crate::time::Duration;
use vstd::prelude::*;

verus! {

/// A span of a trace.
#[derive(Debug, Clone, PartialEq, Eq)]
pub struct TraceSpan {
    /// The record's identifier.
    pub id: String,
    /// The span's identifier.
    pub span_id: String,
    /// The identifier of the root span.
    pub root_span_id: String,
    /// The identifiers of the spans above.
    pub span_parents: Vec<String>,
    /// When the span was made.
    pub created: String,
    /// What went in.
    pub input: JsonValue,
    /// What came out.
    pub output: Option<JsonValue>,
    /// Free data.
    pub metadata: Vec<JsonMember>,
    /// What kind of span it is.
    pub span_attributes: Vec<JsonMember>,
    /// Measurements.
    pub metrics: Vec<JsonMember>,
}

/// A turn of a conversation.
#[derive(Debug, Clone, PartialEq, Eq)]
pub struct ConversationTurn {
    /// The turn's identifier.
    pub turn_id: String,
    /// The turn's number, from one on.
    pub turn_number: usize,
    /// What the user wrote.
    pub user_input: String,
    /// What the model answered.
    pub assistant_output: Option<String>,
    /// The tools that were called.
    pub tool_calls: Vec<ToolCall>,
    /// When the turn was made.
    pub timestamp: String,
}

/// A tool call within a turn.
#[derive(Debug, Clone, PartialEq, Eq)]
pub struct ToolCall {
    /// The tool's name.
    pub tool_name: String,
    /// What went in.
    pub input: JsonValue,
    /// What came out.
    pub output: Option<JsonValue>,
}

/// A trace in turns.
#[derive(Debug, PartialEq, Eq)]
pub struct ParsedTrace {
    /// The session's identifier.
    pub session_id: String,
    /// The identifier of the root span.
    pub root_span_id: String,
    /// The turns, in order.
    pub turns: Vec<ConversationTurn>,
    /// The spans, in order.
    pub raw_spans: Vec<TraceSpan>,
}

/// What a replay did.
#[derive(Debug, PartialEq, Eq)]
pub struct ReplayResult {
    /// The session's identifier.
    pub session_id: String,
    /// The tenant's identifier.
    pub tenant_id: String,
    /// How many turns were stored.
    pub turns_replayed: usize,
    /// The identifiers of the stored responses, in order.
    pub response_ids: Vec<String>,
}

/// What can be wrong with a trace.
#[derive(Debug, PartialEq, Eq)]
pub enum TraceParseError {
    /// The file cannot be read.
    IoError(String),
    /// A line is no span: its number, from one on, and what is wrong.
    JsonError(usize, String),
    /// There is no span.
    EmptyTrace,
    /// No span is the root.
    NoRootSpan,
}

/// A tool call as mathematics.
#[verifier::ext_equal]
pub struct ToolCallView {
    /// The tool's name.
    pub tool_name: Seq<char>,
    /// What went in.
    pub input: Json,
    /// What came out.
    pub output: Option<Json>,
}

/// A turn as mathematics.
#[verifier::ext_equal]
pub struct Turn {
    /// The turn's identifier.
    pub turn_id: Seq<char>,
    /// The turn's number.
    pub turn_number: int,
    /// What the user wrote.
    pub user_input: Seq<char>,
    /// What the model answered.
    pub assistant_output: Option<Seq<char>>,
    /// The tools that were called.
    pub tool_calls: Seq<ToolCallView>,
    /// When the turn was made.
    pub timestamp: Seq<char>,
}

/// An optional value as mathematics.
pub open spec fn opt_json(value: Option<JsonValue>) -> Option<Json> {
    match value {
        Some(v) => Some(v@),
        None => None,
    }
}

/// The characters of an optional text.
pub open spec fn opt_text(s: Option<String>) -> Option<Seq<char>> {
    match s {
        Some(t) => Some(t@),
        None => None,
    }
}

impl ToolCall {
    /// The tool call as mathematics.
    pub open spec fn view(&self) -> ToolCallView {
        ToolCallView {
            tool_name: self.tool_name@,
            input: self.input@,
            output: opt_json(self.output),
        }
    }
}

/// The views of a sequence of tool calls.
pub open spec fn tool_views(calls: Seq<ToolCall>) -> Seq<ToolCallView> {
    Seq::new(calls.len(), |i: int| calls[i]@)
}

impl ConversationTurn {
    /// The turn as mathematics.
    pub open spec fn view(&self) -> Turn {
        Turn {
            turn_id: self.turn_id@,
            turn_number: self.turn_number as int,
            user_input: self.user_input@,
            assistant_output: opt_text(self.assistant_output),
            tool_calls: tool_views(self.tool_calls@),
            timestamp: self.timestamp@,
        }
    }
}

/// The views of a sequence of turns.
pub open spec fn turn_views(turns: Seq<ConversationTurn>) -> Seq<Turn> {
    Seq::new(turns.len(), |i: int| turns[i]@)
}

/// Whether a text is among others.
pub open spec fn among(list: Seq<String>, s: Seq<char>) -> bool {
    exists|i: int| 0 <= i < list.len() && (#[trigger] list[i])@ == s
}

fn is_among(list: &Vec<String>, s: &str) -> (res: bool)
    ensures
        res == among(list@, s@),
{
    let mut i: usize = 0;
    while i < list.len()
        invariant
            i <= list.len(),
            forall|j: int| 0 <= j < i ==> (#[trigger] list@[j])@ != s@,
        decreases list.len() - i,
    {
        if text_eq(list[i].as_str(), s) {
            assert(list@[i as int]@ == s@);
            return true;
        }
        i = i + 1;
    }
    false
}

impl TraceSpan {
    /// Whether the span is the root: it has nothing above it, or itself.
    pub open spec fn is_root(self) -> bool {
        self.span_parents@.len() == 0 || among(self.span_parents@, self.span_id@)
    }

    /// The text of one of the span's attributes.
    pub open spec fn attribute(self, name: Seq<char>) -> Option<Seq<char>> {
        text_member(json::member_views(self.span_attributes@), name)
    }

    /// The text of one of the span's free data.
    pub open spec fn datum(self, name: Seq<char>) -> Option<Seq<char>> {
        text_member(json::member_views(self.metadata@), name)
    }

    /// Whether the span is of the given kind and right under the given one.
    pub open spec fn is_under(self, parent: Seq<char>, kind: Seq<char>) -> bool {
        among(self.span_parents@, parent) && self.attribute("type"@) == Some(kind)
    }

    /// Whether the span is a turn under the given root: a task whose name
    /// starts with `Turn`.
    pub open spec fn is_turn(self, root: Seq<char>) -> bool {
        &&& self.is_under(root, "task"@)
        &&& self.attribute("name"@) matches Some(name) && text::starts_with(name, "Turn"@)
    }

    /// The text that the span's output holds.
    pub open spec fn output_text(self) -> Option<Seq<char>> {
        match self.output {
            Some(o) => match o@.member("content"@) {
                Some(c) => c.as_text(),
                None => None,
            },
            None => None,
        }
    }

    fn has_kind_under(&self, parent: &str, kind: &str) -> (res: bool)
        ensures
            res == self.is_under(parent@, kind@),
    {
        if !is_among(&self.span_parents, parent) {
            return false;
        }
        match find_text(&self.span_attributes, "type") {
            Some(t) => text_eq(t, kind),
            None => false,
        }
    }

    fn is_turn_under(&self, root: &str) -> (res: bool)
        ensures
            res == self.is_turn(root@),
    {
        self.has_kind_under(root, "task") && match find_text(&self.span_attributes, "name") {
            Some(name) => has_prefix(name, "Turn"),
            None => false,
        }
    }
}

/// The place of the first root span.
pub open spec fn root_place(spans: Seq<TraceSpan>) -> Option<int>
    decreases spans.len(),
{
    if spans.len() == 0 {
        None
    } else if spans[0].is_root() {
        Some(0)
    } else {
        match root_place(spans.drop_first()) {
            Some(i) => Some(i + 1),
            None => None,
        }
    }
}

/// `root_place` finds the first of them.
pub proof fn root_place_is_first(spans: Seq<TraceSpan>)
    ensures
        match root_place(spans) {
            Some(p) => {
                &&& 0 <= p < spans.len()
                &&& spans[p].is_root()
                &&& forall|i: int| 0 <= i < p ==> !(#[trigger] spans[i]).is_root()
            },
            None => forall|i: int| 0 <= i < spans.len() ==> !(#[trigger] spans[i]).is_root(),
        },
    decreases spans.len(),
{
    if spans.len() > 0 && !spans[0].is_root() {
        let rest = spans.drop_first();
        root_place_is_first(rest);
        assert forall|i: int|
            0 <= i < spans.len() && (root_place(rest) matches Some(p) ==> i
                < p + 1) implies !(#[trigger] spans[i]).is_root() by {
            if i > 0 {
                assert(rest[i - 1] == spans[i]);
            }
        }
    }
}

fn find_root(spans: &Vec<TraceSpan>) -> (res: Option<usize>)
    ensures
        match res {
            Some(i) => i < spans@.len() && root_place(spans@) == Some(i as int),
            None => root_place(spans@) is None,
        },
{
    let ghost all = spans@;
    let mut i: usize = 0;
    assert(all.skip(0) =~= all);
    while i < spans.len()
        invariant
            i <= spans.len(),
            all == spans@,
            root_place(all) == (match root_place(all.skip(i as int)) {
                Some(p) => Some(p + i),
                None => None,
            }),
        decreases spans.len() - i,
    {
        let span = &spans[i];
        if span.span_parents.len() == 0 || is_among(&span.span_parents, span.span_id.as_str()) {
            return Some(i);
        }
        assert(all.skip(i as int).drop_first() =~= all.skip(i + 1));
        i = i + 1;
    }
    None
}

/// The session's identifier: the root span's own `session_id`, or else the root
/// span's identifier.
pub open spec fn session_of(root: TraceSpan) -> Seq<char> {
    match root.datum("session_id"@) {
        Some(id) => id,
        None => root.span_id@,
    }
}

/// The text of a message of the user.
pub open spec fn user_text(message: Json) -> Option<Seq<char>> {
    match message.member("role"@) {
        Some(role) => if role.as_text() == Some("user"@) {
            match message.member("content"@) {
                Some(content) => content.as_text(),
                None => None,
            }
        } else {
            None
        },
        None => None,
    }
}

/// The text of the first message of the user that has text, or no text.
pub open spec fn first_user_text(messages: Seq<Json>) -> Seq<char>
    decreases messages.len(),
{
    if messages.len() == 0 {
        Seq::empty()
    } else {
        match user_text(messages[0]) {
            Some(s) => s,
            None => first_user_text(messages.drop_first()),
        }
    }
}

/// What the user wrote: the input itself where it is text, or else the first
/// message of the user in it.
pub open spec fn user_input_of(input: Json) -> Seq<char> {
    match input {
        Json::Text(s) => s,
        Json::Array(messages) => first_user_text(messages),
        _ => Seq::empty(),
    }
}

fn find_user_text(message: &JsonValue) -> (res: Option<&str>)
    ensures
        match res {
            Some(s) => user_text(message@) == Some(s@),
            None => user_text(message@) is None,
        },
{
    match message.get("role") {
        Some(role) => match role.as_str() {
            Some(r) => {
                if text_eq(r, "user") {
                    match message.get("content") {
                        Some(content) => content.as_str(),
                        None => None,
                    }
                } else {
                    None
                }
            },
            None => None,
        },
        None => None,
    }
}

fn extract_user_input(input: &JsonValue) -> (res: String)
    ensures
        res@ == user_input_of(input@),
{
    match input {
        JsonValue::String(s) => s.clone(),
        JsonValue::Array(items) => {
            let ghost all = json::json_views(items@);
            let mut i: usize = 0;
            proof {
                json::json_views_items(items@);
                assert(all.skip(0) =~= all);
            }
            while i < items.len()
                invariant
                    i <= items.len(),
                    all == json::json_views(items@),
                    all.len() == items@.len(),
                    input@ == Json::Array(all),
                    first_user_text(all) == first_user_text(all.skip(i as int)),
                decreases items.len() - i,
            {
                proof {
                    json::json_views_items(items@);
                    assert(all[i as int] == items@[i as int]@);
                    assert(all.skip(i as int).drop_first() =~= all.skip(i + 1));
                }
                match find_user_text(&items[i]) {
                    Some(s) => {
                        return owned(s);
                    },
                    None => {},
                }
                i = i + 1;
            }
            let res = String::new();
            assert(res@ =~= first_user_text(all));
            res
        },
        _ => {
            let res = String::new();
            assert(res@ =~= user_input_of(input@));
            res
        },
    }
}

/// What the model answered in a turn: the last text that a span of the model
/// under it gave.
pub open spec fn assistant_output_of(spans: Seq<TraceSpan>, turn: Seq<char>) -> Option<Seq<char>>
    decreases spans.len(),
{
    if spans.len() == 0 {
        None
    } else if spans.last().is_under(turn, "llm"@) && spans.last().output_text() is Some {
        spans.last().output_text()
    } else {
        assistant_output_of(spans.drop_last(), turn)
    }
}

fn extract_assistant_output(spans: &Vec<TraceSpan>, turn: &str) -> (res: Option<String>)
    ensures
        opt_text(res) == assistant_output_of(spans@, turn@),
{
    let ghost all = spans@;
    let mut i: usize = spans.len();
    assert(all.take(i as int) =~= all);
    while i > 0
        invariant
            i <= spans.len(),
            all == spans@,
            assistant_output_of(all, turn@) == assistant_output_of(all.take(i as int), turn@),
        decreases i,
    {
        i = i - 1;
        let span = &spans[i];
        proof {
            assert(all.take(i + 1).drop_last() =~= all.take(i as int));
        }
        if span.has_kind_under(turn, "llm") {
            match &span.output {
                Some(o) => match o.get("content") {
                    Some(c) => match c.as_str() {
                        Some(s) => {
                            return Some(owned(s));
                        },
                        None => {},
                    },
                    None => {},
                },
                None => {},
            }
        }
    }
    None
}

/// A tool call as its span tells it.
pub open spec fn tool_call_of(span: TraceSpan) -> ToolCallView {
    ToolCallView {
        tool_name: match span.datum("tool_name"@) {
            Some(name) => name,
            None => "unknown"@,
        },
        input: span.input@,
        output: opt_json(span.output),
    }
}

/// The tool calls of a turn, in the order of their spans.
pub open spec fn tool_calls_of(spans: Seq<TraceSpan>, turn: Seq<char>) -> Seq<ToolCallView>
    decreases spans.len(),
{
    if spans.len() == 0 {
        Seq::empty()
    } else if spans.last().is_under(turn, "tool"@) {
        tool_calls_of(spans.drop_last(), turn).push(tool_call_of(spans.last()))
    } else {
        tool_calls_of(spans.drop_last(), turn)
    }
}

fn extract_tool_calls(spans: &Vec<TraceSpan>, turn: &str) -> (res: Vec<ToolCall>)
    ensures
        tool_views(res@) == tool_calls_of(spans@, turn@),
{
    let ghost all = spans@;
    let mut calls: Vec<ToolCall> = Vec::new();
    let mut i: usize = 0;
    assert(tool_views(calls@) =~= tool_calls_of(all.take(0), turn@));
    while i < spans.len()
        invariant
            i <= spans.len(),
            all == spans@,
            tool_views(calls@) == tool_calls_of(all.take(i as int), turn@),
        decreases spans.len() - i,
    {
        let span = &spans[i];
        let ghost before = calls@;
        assert(all.take(i + 1).drop_last() =~= all.take(i as int));
        if span.has_kind_under(turn, "tool") {
            let tool_name = match find_text(&span.metadata, "tool_name") {
                Some(name) => owned(name),
                None => owned("unknown"),
            };
            let output = match &span.output {
                Some(o) => Some(o.duplicate()),
                None => None,
            };
            calls.push(ToolCall { tool_name, input: span.input.duplicate(), output });
            proof {
                assert(calls@.last()@ =~= tool_call_of(*span));
                assert(tool_views(calls@) =~= tool_views(before).push(calls@.last()@));
            }
        }
        i = i + 1;
    }
    assert(all.take(i as int) =~= all);
    calls
}

/// The turn that a span tells, with its number.
pub open spec fn turn_of(all: Seq<TraceSpan>, span: TraceSpan, number: int) -> Turn {
    Turn {
        turn_id: span.span_id@,
        turn_number: number,
        user_input: user_input_of(span.input@),
        assistant_output: assistant_output_of(all, span.span_id@),
        tool_calls: tool_calls_of(all, span.span_id@),
        timestamp: span.created@,
    }
}

/// The turns among the first spans, numbered from one on.
pub open spec fn turns_among(all: Seq<TraceSpan>, spans: Seq<TraceSpan>, root: Seq<char>) -> Seq<
    Turn,
>
    decreases spans.len(),
{
    if spans.len() == 0 {
        Seq::empty()
    } else {
        let before = turns_among(all, spans.drop_last(), root);
        if spans.last().is_turn(root) {
            before.push(turn_of(all, spans.last(), before.len() as int + 1))
        } else {
            before
        }
    }
}

/// The turns of a trace.
pub open spec fn turns_of(spans: Seq<TraceSpan>, root: Seq<char>) -> Seq<Turn> {
    turns_among(spans, spans, root)
}

/// Turns are numbered one after the other, from one on, in the order of their
/// spans.
pub proof fn turns_numbered(all: Seq<TraceSpan>, spans: Seq<TraceSpan>, root: Seq<char>)
    ensures
        turns_among(all, spans, root).len() <= spans.len(),
        forall|i: int|
            0 <= i < turns_among(all, spans, root).len() ==> (#[trigger] turns_among(
                all,
                spans,
                root,
            )[i]).turn_number == i + 1,
    decreases spans.len(),
{
    if spans.len() > 0 {
        turns_numbered(all, spans.drop_last(), root);
    }
}

fn extract_turns(spans: &Vec<TraceSpan>, root: &str) -> (res: Vec<ConversationTurn>)
    ensures
        turn_views(res@) == turns_of(spans@, root@),
{
    let ghost all = spans@;
    let mut turns: Vec<ConversationTurn> = Vec::new();
    let mut i: usize = 0;
    assert(turn_views(turns@) =~= turns_among(all, all.take(0), root@));
    while i < spans.len()
        invariant
            i <= spans.len(),
            all == spans@,
            turn_views(turns@) == turns_among(all, all.take(i as int), root@),
        decreases spans.len() - i,
    {
        let span = &spans[i];
        let ghost before = turns@;
        proof {
            assert(all.take(i + 1).drop_last() =~= all.take(i as int));
            turns_numbered(all, all.take(i as int), root@);
        }
        if span.is_turn_under(root) {
            let turn_number: usize = turns.len() + 1;
            let user_input = extract_user_input(&span.input);
            let assistant_output = extract_assistant_output(spans, span.span_id.as_str());
            let tool_calls = extract_tool_calls(spans, span.span_id.as_str());
            turns.push(
                ConversationTurn {
                    turn_id: span.span_id.clone(),
                    turn_number,
                    user_input,
                    assistant_output,
                    tool_calls,
                    timestamp: span.created.clone(),
                },
            );
            proof {
                assert(turns@.last()@ =~= turn_of(all, *span, before.len() as int + 1));
                assert(turn_views(turns@) =~= turn_views(before).push(turns@.last()@));
            }
        }
        i = i + 1;
    }
    assert(all.take(i as int) =~= all);
    turns
}

/// Whether a trace tells what its spans hold.
pub open spec fn tells(trace: ParsedTrace, spans: Seq<TraceSpan>) -> bool {
    &&& root_place(spans) matches Some(p) && {
        let root = spans[p];
        &&& trace.session_id@ == session_of(root)
        &&& trace.root_span_id@ == root.span_id@
        &&& turn_views(trace.turns@) == turns_of(spans, root.span_id@)
    }
    &&& trace.raw_spans@ == spans
}

/// Makes a trace of spans.
pub fn assemble_trace(spans: Vec<TraceSpan>) -> (res: Result<ParsedTrace, TraceParseError>)
    ensures
        match res {
            Ok(trace) => spans@.len() > 0 && tells(trace, spans@),
            Err(TraceParseError::EmptyTrace) => spans@.len() == 0,
            Err(TraceParseError::NoRootSpan) => spans@.len() > 0 && root_place(spans@) is None,
            Err(_) => false,
        },
{
    if spans.len() == 0 {
        return Err(TraceParseError::EmptyTrace);
    }
    let p: usize = match find_root(&spans) {
        Some(p) => p,
        None => {
            return Err(TraceParseError::NoRootSpan);
        },
    };
    let root_span_id = spans[p].span_id.clone();
    let session_id = match find_text(&spans[p].metadata, "session_id") {
        Some(id) => owned(id),
        None => root_span_id.clone(),
    };
    let turns = extract_turns(&spans, root_span_id.as_str());
    Ok(ParsedTrace { session_id, root_span_id, turns, raw_spans: spans })
}

/// The lines that are not blank.
pub open spec fn written(lines: Seq<Seq<char>>) -> Seq<Seq<char>>
    decreases lines.len(),
{
    if lines.len() == 0 {
        Seq::empty()
    } else if text::blank(lines.last()) {
        written(lines.drop_last())
    } else {
        written(lines.drop_last()).push(lines.last())
    }
}

/// Whether `decode` can give `outcome` for a line.
pub open spec fn gives<F: Fn(&str) -> Result<TraceSpan, String>>(
    decode: F,
    line: Seq<char>,
    outcome: Result<TraceSpan, String>,
) -> bool {
    exists|s: &str| s@ == line && #[trigger] call_ensures(decode, (s,), outcome)
}

/// Whether `decode` can give these spans for these lines.
pub open spec fn gives_all<F: Fn(&str) -> Result<TraceSpan, String>>(
    decode: F,
    lines: Seq<Seq<char>>,
    spans: Seq<TraceSpan>,
) -> bool {
    &&& spans.len() == lines.len()
    &&& forall|i: int|
        0 <= i < lines.len() ==> gives(decode, #[trigger] lines[i], Ok(spans[i]))
}

/// Whether `decode` can give spans for all written lines before line `n`, counted
/// from zero, and then the given error.
pub open spec fn fails_at<F: Fn(&str) -> Result<TraceSpan, String>>(
    decode: F,
    lines: Seq<Seq<char>>,
    n: int,
    why: String,
) -> bool {
    &&& 0 <= n < lines.len()
    &&& !text::blank(lines[n])
    &&& gives(decode, lines[n], Err(why))
    &&& exists|spans: Seq<TraceSpan>| #[trigger] gives_all(decode, written(lines.take(n)), spans)
}

/// Decodes the written lines; the first that cannot be decoded is the error.
pub fn decode_lines<F: Fn(&str) -> Result<TraceSpan, String>>(content: &str, decode: &F) -> (res:
    Result<Vec<TraceSpan>, TraceParseError>)
    requires
        forall|s: &str| #[trigger] call_requires(*decode, (s,)),
    ensures
        match res {
            Ok(spans) => gives_all(*decode, written(text::lines(content@)), spans@),
            Err(TraceParseError::JsonError(n, why)) => n > 0 && fails_at(
                *decode,
                text::lines(content@),
                n - 1,
                why,
            ),
            Err(_) => false,
        },
{
    let lines = split_lines(content);
    let ghost all = text::lines(content@);
    let mut spans: Vec<TraceSpan> = Vec::new();
    let mut i: usize = 0;
    while i < lines.len()
        invariant
            i <= lines.len(),
            all == text::lines(content@),
            text::texts(lines@) == all,
            forall|s: &str| #[trigger] call_requires(*decode, (s,)),
            gives_all(*decode, written(all.take(i as int)), spans@),
        decreases lines.len() - i,
    {
        let line = lines[i].as_str();
        let ghost before = spans@;
        proof {
            assert(text::texts(lines@)[i as int] == lines@[i as int]@);
            assert(all.take(i + 1).drop_last() =~= all.take(i as int));
        }
        if !is_blank(line) {
            match decode(line) {
                Ok(span) => {
                    proof {
                        assert(gives(*decode, all[i as int], Ok(span)));
                    }
                    spans.push(span);
                    proof {
                        let next = written(all.take(i + 1));
                        assert(next =~= written(all.take(i as int)).push(all[i as int]));
                        assert forall|j: int| 0 <= j < next.len() implies gives(
                            *decode,
                            #[trigger] next[j],
                            Ok(spans@[j]),
                        ) by {
                            if j < before.len() {
                                assert(written(all.take(i as int))[j] == next[j]);
                            }
                        }
                    }
                },
                Err(why) => {
                    proof {
                        assert(gives(*decode, all[i as int], Err(why)));
                        assert(gives_all(*decode, written(all.take(i as int)), before));
                    }
                    return Err(TraceParseError::JsonError(i + 1, why));
                },
            }
        }
        i = i + 1;
    }
    assert(all.take(i as int) =~= all);
    Ok(spans)
}

/// Parses a trace. `decode` makes a span of a line, or says why the line is
/// none.
pub fn parse_trace_content<F: Fn(&str) -> Result<TraceSpan, String>>(
    content: &str,
    decode: &F,
) -> (res: Result<ParsedTrace, TraceParseError>)
    requires
        forall|s: &str| #[trigger] call_requires(*decode, (s,)),
    ensures
        ({
            let lines = text::lines(content@);
            match res {
                Ok(trace) => {
                    &&& gives_all(*decode, written(lines), trace.raw_spans@)
                    &&& trace.raw_spans@.len() > 0
                    &&& tells(trace, trace.raw_spans@)
                },
                Err(TraceParseError::JsonError(n, why)) => n > 0 && fails_at(
                    *decode,
                    lines,
                    n - 1,
                    why,
                ),
                Err(TraceParseError::EmptyTrace) => written(lines).len() == 0,
                Err(TraceParseError::NoRootSpan) => written(lines).len() > 0
                    && rootless(*decode, lines),
                Err(TraceParseError::IoError(_)) => false,
            }
        }),
{
    match decode_lines(content, decode) {
        Ok(spans) => {
            let ghost all = spans@;
            let res = assemble_trace(spans);
            assert(gives_all(*decode, written(text::lines(content@)), all));
            res
        },
        Err(e) => Err(e),
    }
}

/// Whether `decode` can give spans for all written lines of which none is the
/// root.
pub open spec fn rootless<F: Fn(&str) -> Result<TraceSpan, String>>(
    decode: F,
    lines: Seq<Seq<char>>,
) -> bool {
    exists|spans: Seq<TraceSpan>|
        #[trigger] gives_all(decode, written(lines), spans) && root_place(spans) is None
}

/// The identifier under which a turn is stored.
pub open spec fn replay_id(turn: Turn) -> Seq<char> {
    "resp_"@ + turn.turn_id
}

/// The identifier of the response before the turn at place `i`.
pub open spec fn previous_id(turns: Seq<Turn>, i: int) -> Option<Seq<char>> {
    if i > 0 {
        Some(replay_id(turns[i - 1]))
    } else {
        None
    }
}

/// The members of the message that a turn's response holds.
pub open spec fn message_members(turn: Turn) -> Seq<(Seq<char>, Json)> {
    seq![
        ("type"@, Json::Text("message"@)),
        ("role"@, Json::Text("assistant"@)),
        (
            "content"@,
            Json::Text(
                match turn.assistant_output {
                    Some(s) => s,
                    None => Seq::empty(),
                },
            ),
        ),
    ]
}

/// The members of the metadata that a turn's response holds.
pub open spec fn metadata_members(turn: Turn, previous: Option<Seq<char>>) -> Seq<
    (Seq<char>, Json),
> {
    seq![
        ("turn_number"@, Json::Number(JsonNumber::PosInt(turn.turn_number as u64))),
        ("user_input"@, Json::Text(turn.user_input)),
        ("tool_calls_count"@, Json::Number(JsonNumber::PosInt(turn.tool_calls.len() as u64))),
        (
            "previous_response_id"@,
            match previous {
                Some(id) => Json::Text(id),
                None => Json::Null,
            },
        ),
    ]
}

/// The response that is stored for a turn.
pub open spec fn turn_response(turn: Turn, previous: Option<Seq<char>>) -> Json {
    Json::Object(
        seq![
            ("id"@, Json::Text(replay_id(turn))),
            ("object"@, Json::Text("response"@)),
            ("created_at"@, Json::Text(turn.timestamp)),
            ("output"@, Json::Array(seq![Json::Object(message_members(turn))])),
            ("metadata"@, Json::Object(metadata_members(turn, previous))),
        ],
    )
}

fn member(name: &str, value: JsonValue) -> (res: JsonMember)
    ensures
        res@ == (name@, value@),
{
    JsonMember { name: owned(name), value }
}

fn text_value(s: &str) -> (res: JsonValue)
    ensures
        res@ == Json::Text(s@),
{
    JsonValue::String(owned(s))
}

/// The response that is stored for a turn, after the given one.
pub fn build_turn_response(turn: &ConversationTurn, previous: Option<&str>) -> (res: JsonValue)
    ensures
        res@ == turn_response(turn@, match previous {
            Some(id) => Some(id@),
            None => None,
        }),
{
    broadcast use {json::member_views_items, json::json_views_items};

    let ghost before = match previous {
        Some(id) => Some(id@),
        None => None,
    };
    let ghost want = turn_response(turn@, before);
    let id = text::join2("resp_", turn.turn_id.as_str());
    let content = match &turn.assistant_output {
        Some(s) => JsonValue::String(s.clone()),
        None => JsonValue::String(String::new()),
    };
    let mut message: Vec<JsonMember> = Vec::new();
    message.push(member("type", text_value("message")));
    message.push(member("role", text_value("assistant")));
    message.push(member("content", content));
    let mut output: Vec<JsonValue> = Vec::new();
    output.push(JsonValue::Object(message));
    let previous_value = match previous {
        Some(id) => text_value(id),
        None => JsonValue::Null,
    };
    let mut metadata: Vec<JsonMember> = Vec::new();
    metadata.push(
        member("turn_number", JsonValue::Number(JsonNumber::PosInt(turn.turn_number as u64))),
    );
    metadata.push(member("user_input", text_value(turn.user_input.as_str())));
    metadata.push(
        member(
            "tool_calls_count",
            JsonValue::Number(JsonNumber::PosInt(turn.tool_calls.len() as u64)),
        ),
    );
    metadata.push(member("previous_response_id", previous_value));
    let mut all: Vec<JsonMember> = Vec::new();
    all.push(member("id", JsonValue::String(id)));
    all.push(member("object", text_value("response")));
    all.push(member("created_at", text_value(turn.timestamp.as_str())));
    all.push(member("output", JsonValue::Array(output)));
    all.push(member("metadata", JsonValue::Object(metadata)));
    proof {
        assert(json::member_views(message@) =~= message_members(turn@));
        assert(json::json_views(output@) =~= seq![Json::Object(message_members(turn@))]);
        assert(json::member_views(metadata@) =~= metadata_members(turn@, before));
        assert(json::member_views(all@) =~= want->Object_0);
    }
    JsonValue::Object(all)
}

/// The contents once the first turns have been stored, one after the other.
pub open spec fn replayed(
    contents: Contents,
    turns: Seq<Turn>,
    tenant_id: Seq<char>,
    session_id: Seq<char>,
    times: Seq<u64>,
) -> Contents
    decreases turns.len(),
{
    if turns.len() == 0 {
        contents
    } else {
        with_record(
            replayed(contents, turns.drop_last(), tenant_id, session_id, times.drop_last()),
            new_record(
                tenant_id,
                session_id,
                replay_id(turns.last()),
                turn_response(turns.last(), previous_id(turns, turns.len() - 1)),
                None,
                times.last(),
            ),
        )
    }
}

/// Whether all turns have been stored, whatever the times.
pub open spec fn replay_of(
    before: Contents,
    turns: Seq<Turn>,
    tenant_id: Seq<char>,
    session_id: Seq<char>,
    after: Contents,
) -> bool {
    exists|times: Seq<u64>|
        times.len() == turns.len() && after == #[trigger] replayed(
            before,
            turns,
            tenant_id,
            session_id,
            times,
        )
}

/// Whether the first `n` turns, and not all, have been stored.
pub open spec fn first_replayed(
    before: Contents,
    turns: Seq<Turn>,
    tenant_id: Seq<char>,
    session_id: Seq<char>,
    n: int,
    after: Contents,
) -> bool {
    0 <= n < turns.len() && replay_of(before, turns.take(n), tenant_id, session_id, after)
}

/// Whether the turns before some turn have been stored, and that turn was tried,
/// of which only other tenants' records are known not to have changed.
pub open spec fn replay_failed(
    before: Contents,
    turns: Seq<Turn>,
    tenant_id: Seq<char>,
    session_id: Seq<char>,
    after: Contents,
) -> bool {
    exists|n: int, middle: Contents|
        #[trigger] first_replayed(before, turns, tenant_id, session_id, n, middle)
            && same_for_others(middle, after, tenant_id)
}

/// Whether a response is that of the first turn that has not been stored, under
/// that turn's identifier.
pub open spec fn next_turn(
    before: Contents,
    turns: Seq<Turn>,
    tenant_id: Seq<char>,
    session_id: Seq<char>,
    reached: Contents,
    response_id: Seq<char>,
    response: Json,
) -> bool {
    exists|n: int|
        #[trigger] first_replayed(before, turns, tenant_id, session_id, n, reached) && response_id
            == replay_id(turns[n]) && response == turn_response(turns[n], previous_id(turns, n))
}

/// What a replay does next.
#[derive(Debug)]
pub enum ReplayStep {
    /// Store a response in the trace's session, without a time to live.
    Store {
        /// The identifier under which it is stored.
        response_id: String,
        /// The response.
        response: JsonValue,
    },
    /// All turns are stored.
    Done(ReplayResult),
    /// A turn could not be stored.
    Failed(StorageError),
}

/// The identifier that was returned last.
pub open spec fn last_id(stored: Seq<String>) -> Option<Seq<char>> {
    if stored.len() > 0 {
        Some(stored.last()@)
    } else {
        None
    }
}

/// Whether a step is what a replay does once the first turns have been stored
/// under the given identifiers and, where there is an error, the next one could
/// not be.
pub open spec fn replay_step_of(
    trace: ParsedTrace,
    tenant_id: Seq<char>,
    stored: Seq<String>,
    failed: Option<StorageError>,
    step: ReplayStep,
) -> bool {
    match failed {
        Some(e) => step == ReplayStep::Failed(e),
        None => if stored.len() < trace.turns@.len() {
            let turn = trace.turns@[stored.len() as int]@;
            step matches ReplayStep::Store { response_id, response } && response_id@ == replay_id(
                turn,
            ) && response@ == turn_response(turn, last_id(stored))
        } else {
            step matches ReplayStep::Done(result) && result.session_id@ == trace.session_id@
                && result.tenant_id@ == tenant_id && result.turns_replayed == trace.turns@.len()
                && text::texts(result.response_ids@) == text::texts(stored)
        },
    }
}

fn copy_texts(list: &Vec<String>) -> (res: Vec<String>)
    ensures
        text::texts(res@) == text::texts(list@),
{
    let mut res: Vec<String> = Vec::new();
    let mut i: usize = 0;
    while i < list.len()
        invariant
            i <= list.len(),
            res@.len() == i,
            forall|j: int| 0 <= j < i ==> (#[trigger] res@[j])@ == list@[j]@,
        decreases list.len() - i,
    {
        res.push(owned(list[i].as_str()));
        i = i + 1;
    }
    assert(text::texts(res@) =~= text::texts(list@));
    res
}

/// What a replay does once the first turns have been stored under the given
/// identifiers and, where there is an error, the next one could not be.
pub fn replay_step(
    trace: &ParsedTrace,
    tenant_id: &str,
    stored: &Vec<String>,
    failed: Option<StorageError>,
) -> (res: ReplayStep)
    ensures
        replay_step_of(*trace, tenant_id@, stored@, failed, res),
{
    match failed {
        Some(e) => {
            return ReplayStep::Failed(e);
        },
        None => {},
    }
    let i: usize = stored.len();
    if i < trace.turns.len() {
        let turn = &trace.turns[i];
        let previous: Option<&str> = if i > 0 {
            Some(stored[i - 1].as_str())
        } else {
            None
        };
        let response = build_turn_response(turn, previous);
        let response_id = text::join2("resp_", turn.turn_id.as_str());
        ReplayStep::Store { response_id, response }
    } else {
        ReplayStep::Done(
            ReplayResult {
                session_id: owned(trace.session_id.as_str()),
                tenant_id: owned(tenant_id),
                turns_replayed: trace.turns.len(),
                response_ids: copy_texts(stored),
            },
        )
    }
}

/// Replays a trace through a storage: stores each turn in the trace's session
/// and chains it to the one before. The first turn that cannot be stored ends
/// it, with the storage's error.
pub fn replay_trace<S: ResponseStorage>(storage: &mut S, trace: &ParsedTrace, tenant_id: &str) -> (res:
    Result<ReplayResult, StorageError>)
    requires
        old(storage).well_formed(),
    ensures
        final(storage).well_formed(),
        same_for_others(old(storage).contents(), final(storage).contents(), tenant_id@),
        trace.turns@.len() == 0 ==> res is Ok,
        match res {
            Ok(result) => {
                &&& result.session_id@ == trace.session_id@
                &&& result.tenant_id@ == tenant_id@
                &&& result.turns_replayed == trace.turns@.len()
                &&& text::texts(result.response_ids@) == turn_views(trace.turns@).map_values(
                    |turn: Turn| replay_id(turn),
                )
                &&& replay_of(
                    old(storage).contents(),
                    turn_views(trace.turns@),
                    tenant_id@,
                    trace.session_id@,
                    final(storage).contents(),
                )
            },
            Err(e) => (e is BackendError || e is SerializationError) && replay_failed(
                old(storage).contents(),
                turn_views(trace.turns@),
                tenant_id@,
                trace.session_id@,
                final(storage).contents(),
            ),
        },
        res matches Err(e) ==> exists|
            store: &mut S,
            session_id: &str,
            response_id: &str,
            response: JsonValue,
        |
            {
                &&& #[trigger] call_ensures(
                    S::store_response,
                    (store, tenant_id, session_id, Some(response_id), response, None::<Duration>),
                    Err::<String, StorageError>(e),
                )
                &&& session_id@ == trace.session_id@
                &&& next_turn(
                    old(storage).contents(),
                    turn_views(trace.turns@),
                    tenant_id@,
                    trace.session_id@,
                    store.contents(),
                    response_id@,
                    response@,
                )
                &&& final(store).contents() == final(storage).contents()
            },
{
    let ghost before = storage.contents();
    let ghost turns = turn_views(trace.turns@);
    let ghost ids = turns.map_values(|turn: Turn| replay_id(turn));
    let ghost mut times: Seq<u64> = Seq::empty();
    let mut stored: Vec<String> = Vec::new();
    assert(text::texts(stored@) =~= ids.take(0));
    loop
        invariant
            before == old(storage).contents(),
            turns == turn_views(trace.turns@),
            ids == turns.map_values(|turn: Turn| replay_id(turn)),
            storage.well_formed(),
            same_for_others(before, storage.contents(), tenant_id@),
            stored@.len() <= turns.len(),
            times.len() == stored@.len(),
            text::texts(stored@) == ids.take(stored@.len() as int),
            storage.contents() == replayed(
                before,
                turns.take(stored@.len() as int),
                tenant_id@,
                trace.session_id@,
                times,
            ),
        decreases turns.len() - stored@.len(),
    {
        let ghost prior = storage.contents();
        let ghost i = stored@.len() as int;
        let ghost so_far = stored@;
        proof {
            if i > 0 {
                assert(text::texts(stored@)[i - 1] == stored@[i - 1]@);
                assert(ids[i - 1] == replay_id(turns[i - 1]));
            }
            if i < turns.len() {
                assert(turns[i] == trace.turns@[i]@);
                assert(previous_id(turns.take(i + 1), i) == previous_id(turns, i));
                assert(last_id(stored@) == previous_id(turns, i));
            }
        }
        match replay_step(trace, tenant_id, &stored, None) {
            ReplayStep::Store { response_id, response } => {
                let ghost kept = response@;
                match storage.store_response(
                    tenant_id,
                    trace.session_id.as_str(),
                    Some(response_id.as_str()),
                    response,
                    None,
                ) {
                    Ok(id) => {
                        proof {
                            let now = choose|now: u64|
                                crate::storage::response_storage::expiry_fits(now, None)
                                    && storage.contents() == with_record(
                                    prior,
                                    #[trigger] new_record(
                                        tenant_id@,
                                        trace.session_id@,
                                        response_id@,
                                        kept,
                                        None,
                                        now,
                                    ),
                                );
                            assert(turns.take(i + 1).drop_last() =~= turns.take(i));
                            assert(times.push(now).drop_last() =~= times);
                            times = times.push(now);
                        }
                        stored.push(id);
                        assert(text::texts(stored@) =~= text::texts(so_far).push(id@));
                        assert(ids.take(i + 1) =~= ids.take(i).push(ids[i]));
                    },
                    Err(e) => {
                        proof {
                            assert(first_replayed(
                                before,
                                turns,
                                tenant_id@,
                                trace.session_id@,
                                i,
                                prior,
                            ));
                        }
                        return Err(e);
                    },
                }
            },
            ReplayStep::Done(result) => {
                proof {
                    assert(turns.take(i) =~= turns);
                    assert(ids.take(i) =~= ids);
                }
                return Ok(result);
            },
            ReplayStep::Failed(e) => {
                return Err(e);
            },
        }
    }
}

/// After a replay of turns with different identifiers, each turn is found under
/// its own identifier, chained to the one before, and does not expire.
pub proof fn replay_chains(
    contents: Contents,
    turns: Seq<Turn>,
    tenant_id: Seq<char>,
    session_id: Seq<char>,
    times: Seq<u64>,
)
    requires
        times.len() == turns.len(),
        forall|i: int, j: int|
            0 <= i < j < turns.len() ==> (#[trigger] turns[i]).turn_id != (
            #[trigger] turns[j]).turn_id,
    ensures
        ({
            let after = replayed(contents, turns, tenant_id, session_id, times);
            forall|i: int|
                0 <= i < turns.len() ==> {
                    let key = (tenant_id, session_id, replay_id(#[trigger] turns[i]));
                    &&& after.contains_key(key)
                    &&& after[key] == new_record(
                        tenant_id,
                        session_id,
                        replay_id(turns[i]),
                        turn_response(turns[i], previous_id(turns, i)),
                        None,
                        times[i],
                    )
                }
        }),
    decreases turns.len(),
{
    if turns.len() > 0 {
        let rest = turns.drop_last();
        let n = turns.len() - 1;
        replay_chains(contents, rest, tenant_id, session_id, times.drop_last());
        let after = replayed(contents, turns, tenant_id, session_id, times);
        assert forall|i: int| 0 <= i < turns.len() implies ({
            let key = (tenant_id, session_id, replay_id(#[trigger] turns[i]));
            &&& after.contains_key(key)
            &&& after[key] == new_record(
                tenant_id,
                session_id,
                replay_id(turns[i]),
                turn_response(turns[i], previous_id(turns, i)),
                None,
                times[i],
            )
        }) by {
            if i < n {
                assert(rest[i] == turns[i]);
                assert(previous_id(rest, i) == previous_id(turns, i));
                assert(turns[i].turn_id != turns[n].turn_id);
                let a = replay_id(turns[i]);
                let b = replay_id(turns[n]);
                assert(a.skip("resp_"@.len() as int) =~= turns[i].turn_id);
                assert(b.skip("resp_"@.len() as int) =~= turns[n].turn_id);
            }
        }
    }
}

} // verus!
