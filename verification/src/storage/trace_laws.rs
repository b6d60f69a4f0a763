//! What holds of parsing and replaying recorded conversations, stated on what goes
//! in and what comes out.

use crate::json;
use crate::json::{Json, JsonMember, JsonNumber, JsonValue};
use crate::storage::trace_replay;
use crate::storage::records::Key;
use crate::storage::response_storage::{Contents, ResponseStorage, StorageError};
use crate::storage::trace_replay::{
    assemble_trace, build_turn_response, parse_trace_content, replay_step, replay_trace,
    ConversationTurn, ParsedTrace, ReplayResult, ReplayStep, ToolCall, TraceParseError, TraceSpan,
};
use crate::text;
use vstd::prelude::*;

verus! {

/// Whether the first member called `name` stands at place `k` and is the string
/// `s`.
pub open spec fn text_at(
    members: Seq<JsonMember>,
    name: Seq<char>,
    k: int,
    s: Seq<char>,
) -> bool {
    &&& 0 <= k < members.len()
    &&& members[k].name@ == name
    &&& forall|j: int| 0 <= j < k ==> (#[trigger] members[j]).name@ != name
    &&& members[k].value matches JsonValue::String(t) && t@ == s
}

/// Whether the first member called `name` is the string `s`.
pub open spec fn says(members: Seq<JsonMember>, name: Seq<char>, s: Seq<char>) -> bool {
    exists|k: int| #[trigger] text_at(members, name, k, s)
}

/// Whether the first member called `name` is a string.
pub open spec fn says_something(members: Seq<JsonMember>, name: Seq<char>) -> bool {
    exists|s: Seq<char>| #[trigger] says(members, name, s)
}

proof fn member_text(members: Seq<JsonMember>, name: Seq<char>)
    ensures
        forall|s: Seq<char>|
            (#[trigger] says(members, name, s)) == (json::text_member(
                json::member_views(members),
                name,
            ) == Some(s)),
        says_something(members, name) == (json::text_member(json::member_views(members), name)
            is Some),
{
    let all = json::member_views(members);
    json::member_views_items(members);
    json::first_member_is_named(all, name);
    let found = json::text_member(all, name);
    match json::member_named(all, name) {
        Some(value) => {
            let k = choose|k: int| #[trigger] json::first_named(all, name, k) && all[k].1 == value;
            assert(json::first_named(all, name, k));
            assert(all[k] == members[k].view());
            assert forall|j: int| 0 <= j < k implies (#[trigger] members[j]).name@ != name by {
                assert(all[j].0 != name);
            }
            match members[k].value {
                JsonValue::String(t) => {
                    assert(text_at(members, name, k, t@));
                    assert(says(members, name, t@));
                },
                _ => {},
            }
            assert forall|s: Seq<char>| #[trigger] says(members, name, s) implies found == Some(
                s,
            ) by {
                let i = choose|i: int| #[trigger] text_at(members, name, i, s);
                assert(text_at(members, name, i, s));
                if i < k {
                    assert(members[i].name@ != name);
                }
                if k < i {
                    assert(members[k].name@ != name);
                }
            }
        },
        None => {
            assert forall|s: Seq<char>| !#[trigger] says(members, name, s) by {
                if says(members, name, s) {
                    let i = choose|i: int| #[trigger] text_at(members, name, i, s);
                    assert(text_at(members, name, i, s));
                    assert(all[i].0 == name);
                }
            }
        },
    }
    if says_something(members, name) {
        let s = choose|s: Seq<char>| #[trigger] says(members, name, s);
        assert(says(members, name, s));
    }
    if found is Some {
        assert(says(members, name, found->0));
    }
}

/// Whether a text stands among the spans above a span.
pub open spec fn stands_under(span: TraceSpan, id: Seq<char>) -> bool {
    exists|i: int| 0 <= i < span.span_parents@.len() && (#[trigger] span.span_parents@[i])@ == id
}

/// Whether a span has nothing above it, or itself.
pub open spec fn on_top(span: TraceSpan) -> bool {
    span.span_parents@.len() == 0 || stands_under(span, span.span_id@)
}

/// Whether the first span on top stands at place `p`.
pub open spec fn first_on_top(spans: Seq<TraceSpan>, p: int) -> bool {
    &&& 0 <= p < spans.len()
    &&& on_top(spans[p])
    &&& forall|i: int| 0 <= i < p ==> !on_top(#[trigger] spans[i])
}

proof fn first_on_top_is_root(spans: Seq<TraceSpan>)
    ensures
        forall|p: int| #[trigger]
            first_on_top(spans, p) ==> trace_replay::root_place(spans) == Some(p),
        trace_replay::root_place(spans) matches Some(p) ==> first_on_top(spans, p),
        trace_replay::root_place(spans) is None ==> forall|i: int|
            0 <= i < spans.len() ==> !on_top(#[trigger] spans[i]),
{
    trace_replay::root_place_is_first(spans);
    assert forall|i: int| 0 <= i < spans.len() implies on_top(#[trigger] spans[i])
        == spans[i].is_root() by {}
    assert forall|p: int| #[trigger] first_on_top(spans, p) implies trace_replay::root_place(spans)
        == Some(p) by {
        match trace_replay::root_place(spans) {
            Some(q) => {
                if q < p {
                    assert(!on_top(spans[q]));
                }
                if p < q {
                    assert(!spans[p].is_root());
                }
            },
            None => {
                assert(!spans[p].is_root());
            },
        }
    }
}

/// Spans make a trace where there is one on top; there is an error where there is
/// no span at all, and another where none is on top.
pub proof fn trace_needs_root(spans: Vec<TraceSpan>, res: Result<ParsedTrace, TraceParseError>)
    requires
        call_ensures(assemble_trace, (spans,), res),
    ensures
        res is Ok <==> exists|p: int| #[trigger] first_on_top(spans@, p),
        res == Err::<ParsedTrace, TraceParseError>(TraceParseError::EmptyTrace) <==> spans@.len()
            == 0,
        res == Err::<ParsedTrace, TraceParseError>(TraceParseError::NoRootSpan) <==> spans@.len()
            > 0 && forall|i: int| 0 <= i < spans@.len() ==> !on_top(#[trigger] spans@[i]),
{
    first_on_top_is_root(spans@);
    if let Some(p) = trace_replay::root_place(spans@) {
        assert(first_on_top(spans@, p));
        assert(on_top(spans@[p]));
    }
}

/// A trace keeps all spans, has the identifier of the first span on top, and
/// belongs to the session that this span names in its metadata; only where that
/// names none is the session the span's own identifier.
pub proof fn trace_session(
    spans: Vec<TraceSpan>,
    res: Result<ParsedTrace, TraceParseError>,
    p: int,
)
    requires
        call_ensures(assemble_trace, (spans,), res),
        first_on_top(spans@, p),
    ensures
        res matches Ok(trace) && {
            &&& trace.raw_spans@ == spans@
            &&& trace.root_span_id@ == spans@[p].span_id@
            &&& forall|s: Seq<char>| #[trigger]
                says(spans@[p].metadata@, "session_id"@, s) ==> trace.session_id@ == s
            &&& !says_something(spans@[p].metadata@, "session_id"@) ==> trace.session_id@
                == spans@[p].span_id@
        },
{
    first_on_top_is_root(spans@);
    member_text(spans@[p].metadata@, "session_id"@);
}

/// Whether places are in ascending order, and are exactly those at which something
/// holds of a span.
pub open spec fn lists_places(
    places: Seq<int>,
    spans: Seq<TraceSpan>,
    holds: spec_fn(TraceSpan) -> bool,
) -> bool {
    &&& forall|a: int, b: int|
        0 <= a < b < places.len() ==> #[trigger] places[a] < #[trigger] places[b]
    &&& forall|a: int|
        0 <= a < places.len() ==> 0 <= #[trigger] places[a] < spans.len() && holds(
            spans[places[a]],
        )
    &&& forall|i: int|
        0 <= i < spans.len() && holds(#[trigger] spans[i]) ==> places.contains(i)
}

proof fn places_grow(
    places: Seq<int>,
    spans: Seq<TraceSpan>,
    holds: spec_fn(TraceSpan) -> bool,
) -> (grown: Seq<int>)
    requires
        spans.len() > 0,
        lists_places(places, spans.drop_last(), holds),
    ensures
        lists_places(grown, spans, holds),
        grown == if holds(spans.last()) {
            places.push(spans.len() - 1)
        } else {
            places
        },
{
    let rest = spans.drop_last();
    let grown = if holds(spans.last()) {
        places.push(spans.len() - 1)
    } else {
        places
    };
    assert forall|a: int| 0 <= a < grown.len() implies 0 <= #[trigger] grown[a] < spans.len()
        && holds(spans[grown[a]]) by {
        if a < places.len() {
            assert(rest[places[a]] == spans[places[a]]);
        }
    }
    assert forall|i: int| 0 <= i < spans.len() && holds(#[trigger] spans[i]) implies grown.contains(
        i,
    ) by {
        if i < rest.len() {
            assert(holds(rest[i]));
            let a = choose|a: int| 0 <= a < places.len() && places[a] == i;
            assert(grown[a] == i);
        } else {
            assert(grown[grown.len() - 1] == i);
        }
    }
    grown
}

/// Whether a span is a turn: it stands under the root, is a task, and its name
/// starts with `Turn`.
pub open spec fn is_turn_span(span: TraceSpan, root: Seq<char>) -> bool {
    &&& stands_under(span, root)
    &&& says(span.span_attributes@, "type"@, "task"@)
    &&& exists|name: Seq<char>| #[trigger]
        says(span.span_attributes@, "name"@, name) && "Turn"@.is_prefix_of(name)
}

/// Whether a span is a call of a tool in a turn.
pub open spec fn is_tool_span(span: TraceSpan, turn: Seq<char>) -> bool {
    stands_under(span, turn) && says(span.span_attributes@, "type"@, "tool"@)
}

/// Whether a span is an answer of the model in a turn, with the given text.
pub open spec fn answers(span: TraceSpan, turn: Seq<char>, s: Seq<char>) -> bool {
    &&& stands_under(span, turn)
    &&& says(span.span_attributes@, "type"@, "llm"@)
    &&& span.output matches Some(JsonValue::Object(members)) && says(members@, "content"@, s)
}

/// Whether a message is the user's, with the given text.
pub open spec fn asks(message: JsonValue, s: Seq<char>) -> bool {
    message matches JsonValue::Object(members) && says(members@, "role"@, "user"@) && says(
        members@,
        "content"@,
        s,
    )
}

/// Whether this is what a user wrote: text that is the whole input, or that of the
/// first message of the user in it, or nothing where there is neither.
pub open spec fn wrote(input: JsonValue, s: Seq<char>) -> bool {
    match input {
        JsonValue::String(t) => s == t@,
        JsonValue::Array(messages) => {
            ||| exists|k: int|
                0 <= k < messages@.len() && asks(#[trigger] messages@[k], s) && forall|j: int, t: Seq<char>|
                    0 <= j < k ==> !#[trigger] asks(messages@[j], t)
            ||| s.len() == 0 && forall|j: int, t: Seq<char>|
                0 <= j < messages@.len() ==> !#[trigger] asks(messages@[j], t)
        },
        _ => s.len() == 0,
    }
}

/// Whether this is the last answer of the model in a turn, or nothing where there
/// is none.
pub open spec fn answered(
    spans: Seq<TraceSpan>,
    turn: Seq<char>,
    output: Option<String>,
) -> bool {
    match output {
        Some(s) => exists|k: int|
            0 <= k < spans.len() && answers(#[trigger] spans[k], turn, s@) && forall|j: int, t: Seq<char>|
                k < j < spans.len() ==> !#[trigger] answers(spans[j], turn, t),
        None => forall|j: int, t: Seq<char>|
            0 <= j < spans.len() ==> !#[trigger] answers(spans[j], turn, t),
    }
}

/// Whether a tool call is what its span tells: the name in its metadata, or
/// `unknown` where that has none, and what went in and came out.
pub open spec fn tells_call(span: TraceSpan, call: ToolCall) -> bool {
    &&& forall|name: Seq<char>| #[trigger]
        says(span.metadata@, "tool_name"@, name) ==> call.tool_name@ == name
    &&& !says_something(span.metadata@, "tool_name"@) ==> call.tool_name@ == "unknown"@
    &&& call.input@ == span.input@
    &&& match (span.output, call.output) {
        (Some(a), Some(b)) => a@ == b@,
        (None, None) => true,
        _ => false,
    }
}

/// Whether tool calls are those of a turn, in the order of their spans.
pub open spec fn tells_calls(
    spans: Seq<TraceSpan>,
    turn: Seq<char>,
    calls: Seq<ToolCall>,
    places: Seq<int>,
) -> bool {
    &&& lists_places(places, spans, |span: TraceSpan| is_tool_span(span, turn))
    &&& places.len() == calls.len()
    &&& forall|a: int|
        0 <= a < calls.len() ==> tells_call(spans[places[a]], #[trigger] calls[a])
}

/// Whether a turn is what its span and the spans under it tell.
pub open spec fn tells_turn(spans: Seq<TraceSpan>, span: TraceSpan, turn: ConversationTurn) -> bool {
    &&& turn.turn_id@ == span.span_id@
    &&& turn.timestamp@ == span.created@
    &&& wrote(span.input, turn.user_input@)
    &&& answered(spans, span.span_id@, turn.assistant_output)
    &&& exists|places: Seq<int>| #[trigger]
        tells_calls(spans, span.span_id@, turn.tool_calls@, places)
}

proof fn under_is_under(span: TraceSpan, id: Seq<char>, kind: Seq<char>)
    ensures
        span.is_under(id, kind) == (stands_under(span, id) && says(
            span.span_attributes@,
            "type"@,
            kind,
        )),
{
    member_text(span.span_attributes@, "type"@);
}

proof fn turn_is_turn(span: TraceSpan, root: Seq<char>)
    ensures
        span.is_turn(root) == is_turn_span(span, root),
{
    under_is_under(span, root, "task"@);
    member_text(span.span_attributes@, "name"@);
    if span.is_turn(root) {
        let name = span.attribute("name"@)->0;
        assert(says(span.span_attributes@, "name"@, name));
        assert("Turn"@.is_prefix_of(name)) by {
            assert("Turn"@ =~= name.subrange(0, "Turn"@.len() as int));
        }
    }
    if is_turn_span(span, root) {
        let name = choose|name: Seq<char>| #[trigger]
            says(span.span_attributes@, "name"@, name) && "Turn"@.is_prefix_of(name);
        assert(span.attribute("name"@) == Some(name));
        assert("Turn"@ =~= name.take("Turn"@.len() as int));
    }
}

proof fn asks_is_user_text(message: JsonValue)
    ensures
        forall|s: Seq<char>| #[trigger]
            asks(message, s) == (trace_replay::user_text(message@) == Some(s)),
{
    match message {
        JsonValue::Object(members) => {
            member_text(members@, "role"@);
            member_text(members@, "content"@);
        },
        _ => {},
    }
}

proof fn first_asked(messages: Seq<JsonValue>, all: Seq<Json>, from: int) -> (k: Option<int>)
    requires
        all == json::json_views(messages),
        0 <= from <= messages.len(),
        forall|j: int, t: Seq<char>| 0 <= j < from ==> !#[trigger] asks(messages[j], t),
    ensures
        match k {
            Some(k) => {
                &&& from <= k < messages.len()
                &&& asks(messages[k], trace_replay::first_user_text(all.skip(from)))
                &&& forall|j: int, t: Seq<char>| 0 <= j < k ==> !#[trigger] asks(messages[j], t)
            },
            None => {
                &&& trace_replay::first_user_text(all.skip(from)).len() == 0
                &&& forall|j: int, t: Seq<char>|
                    0 <= j < messages.len() ==> !#[trigger] asks(messages[j], t)
            },
        },
    decreases messages.len() - from,
{
    json::json_views_items(messages);
    if from < messages.len() {
        assert(all.skip(from)[0] == messages[from]@);
        assert(all.skip(from).drop_first() =~= all.skip(from + 1));
        asks_is_user_text(messages[from]);
        match trace_replay::user_text(messages[from]@) {
            Some(t) => {
                assert(asks(messages[from], t));
                Some(from)
            },
            None => {
                first_asked(messages, all, from + 1)
            },
        }
    } else {
        None
    }
}

proof fn user_input_is_written(input: JsonValue)
    ensures
        wrote(input, trace_replay::user_input_of(input@)),
{
    match input {
        JsonValue::Array(messages) => {
            let all = json::json_views(messages@);
            assert(all.skip(0) =~= all);
            let k = first_asked(messages@, all, 0);
        },
        _ => {},
    }
}

proof fn answer_is_output(span: TraceSpan, turn: Seq<char>)
    ensures
        forall|s: Seq<char>| #[trigger]
            answers(span, turn, s) == (span.is_under(turn, "llm"@) && span.output_text() == Some(
                s,
            )),
{
    under_is_under(span, turn, "llm"@);
    match span.output {
        Some(JsonValue::Object(members)) => {
            member_text(members@, "content"@);
        },
        _ => {},
    }
}

proof fn last_answer(spans: Seq<TraceSpan>, turn: Seq<char>, n: int) -> (k: int)
    requires
        0 <= n <= spans.len(),
        forall|j: int, t: Seq<char>|
            n <= j < spans.len() ==> !#[trigger] answers(spans[j], turn, t),
    ensures
        match trace_replay::assistant_output_of(spans.take(n), turn) {
            Some(s) => {
                &&& 0 <= k < spans.len()
                &&& answers(spans[k], turn, s)
                &&& forall|j: int, t: Seq<char>|
                    k < j < spans.len() ==> !#[trigger] answers(spans[j], turn, t)
            },
            None => forall|j: int, t: Seq<char>|
                0 <= j < spans.len() ==> !#[trigger] answers(spans[j], turn, t),
        },
    decreases n,
{
    if n == 0 {
        0
    } else {
        let span = spans[n - 1];
        assert(spans.take(n).last() == span);
        assert(spans.take(n).drop_last() =~= spans.take(n - 1));
        answer_is_output(span, turn);
        if span.is_under(turn, "llm"@) && span.output_text() is Some {
            assert(answers(span, turn, span.output_text()->0));
            n - 1
        } else {
            last_answer(spans, turn, n - 1)
        }
    }
}

proof fn output_is_answered(spans: Seq<TraceSpan>, turn: Seq<char>, output: Option<String>)
    requires
        trace_replay::opt_text(output) == trace_replay::assistant_output_of(spans, turn),
    ensures
        answered(spans, turn, output),
{
    assert(spans.take(spans.len() as int) =~= spans);
    let k = last_answer(spans, turn, spans.len() as int);
}

proof fn tool_places(spans: Seq<TraceSpan>, turn: Seq<char>) -> (places: Seq<int>)
    ensures
        lists_places(places, spans, |span: TraceSpan| is_tool_span(span, turn)),
        places.len() == trace_replay::tool_calls_of(spans, turn).len(),
        forall|a: int|
            0 <= a < places.len() ==> trace_replay::tool_calls_of(spans, turn)[a]
                == trace_replay::tool_call_of(spans[#[trigger] places[a]]),
    decreases spans.len(),
{
    let holds = |span: TraceSpan| is_tool_span(span, turn);
    if spans.len() == 0 {
        Seq::empty()
    } else {
        let before = tool_places(spans.drop_last(), turn);
        under_is_under(spans.last(), turn, "tool"@);
        let places = places_grow(before, spans, holds);
        assert forall|a: int| 0 <= a < places.len() implies trace_replay::tool_calls_of(
            spans,
            turn,
        )[a] == trace_replay::tool_call_of(spans[#[trigger] places[a]]) by {
            if a < before.len() {
                assert(spans.drop_last()[before[a]] == spans[before[a]]);
            }
        }
        places
    }
}

proof fn calls_are_told(spans: Seq<TraceSpan>, turn: Seq<char>, calls: Seq<ToolCall>)
    requires
        trace_replay::tool_views(calls) == trace_replay::tool_calls_of(spans, turn),
    ensures
        exists|places: Seq<int>| #[trigger] tells_calls(spans, turn, calls, places),
{
    let places = tool_places(spans, turn);
    let views = trace_replay::tool_views(calls);
    assert(views.len() == calls.len());
    assert forall|a: int| 0 <= a < calls.len() implies tells_call(
        spans[places[a]],
        #[trigger] calls[a],
    ) by {
        let span = spans[places[a]];
        member_text(span.metadata@, "tool_name"@);
        assert(views[a] == calls[a]@);
    }
    assert(tells_calls(spans, turn, calls, places));
}

proof fn turn_places(all: Seq<TraceSpan>, spans: Seq<TraceSpan>, root: Seq<char>) -> (places: Seq<
    int,
>)
    ensures
        lists_places(places, spans, |span: TraceSpan| is_turn_span(span, root)),
        places.len() == trace_replay::turns_among(all, spans, root).len(),
        forall|a: int|
            0 <= a < places.len() ==> trace_replay::turns_among(all, spans, root)[a]
                == trace_replay::turn_of(all, spans[#[trigger] places[a]], a + 1),
    decreases spans.len(),
{
    let holds = |span: TraceSpan| is_turn_span(span, root);
    if spans.len() == 0 {
        Seq::empty()
    } else {
        let before = turn_places(all, spans.drop_last(), root);
        turn_is_turn(spans.last(), root);
        let places = places_grow(before, spans, holds);
        assert forall|a: int| 0 <= a < places.len() implies trace_replay::turns_among(
            all,
            spans,
            root,
        )[a] == trace_replay::turn_of(all, spans[#[trigger] places[a]], a + 1) by {
            if a < before.len() {
                assert(spans.drop_last()[before[a]] == spans[before[a]]);
            }
        }
        places
    }
}

/// The turns of a trace are those of the spans that are turns under the first span
/// on top, one for each and in their order, numbered from one on; each tells what
/// its own span and the spans under it hold.
pub proof fn trace_turns(
    spans: Vec<TraceSpan>,
    res: Result<ParsedTrace, TraceParseError>,
    p: int,
) -> (places: Seq<int>)
    requires
        call_ensures(assemble_trace, (spans,), res),
        first_on_top(spans@, p),
    ensures
        lists_places(places, spans@, |span: TraceSpan| is_turn_span(span, spans@[p].span_id@)),
        res matches Ok(trace) && {
            &&& trace.turns@.len() == places.len()
            &&& forall|a: int|
                0 <= a < places.len() ==> {
                    &&& (#[trigger] trace.turns@[a]).turn_number == a + 1
                    &&& tells_turn(spans@, spans@[places[a]], trace.turns@[a])
                }
        },
{
    first_on_top_is_root(spans@);
    let root = spans@[p].span_id@;
    turns_are_told(res->Ok_0, root)
}

/// Whether a value is a string with the given characters.
pub open spec fn is_text(value: JsonValue, s: Seq<char>) -> bool {
    value matches JsonValue::String(t) && t@ == s
}

/// Whether members have the given names, in order.
pub open spec fn named(members: Seq<JsonMember>, names: Seq<Seq<char>>) -> bool {
    &&& members.len() == names.len()
    &&& forall|k: int| 0 <= k < names.len() ==> (#[trigger] members[k]).name@ == names[k]
}

/// The response that is stored for a turn has the turn's own identifier behind
/// `resp_`, its time, one message of the assistant, and metadata on it. Whatever
/// tools were called, the message is the model's answer where there is one, and
/// empty text only where there is none. The metadata has the turn's number, what
/// the user wrote, how many tools were called, and the response before it.
pub proof fn turn_response_holds(turn: &ConversationTurn, previous: Option<&str>, res: JsonValue)
    requires
        call_ensures(build_turn_response, (turn, previous), res),
    ensures
        res matches JsonValue::Object(all) && {
            &&& named(all@, seq!["id"@, "object"@, "created_at"@, "output"@, "metadata"@])
            &&& is_text(all@[0].value, "resp_"@ + turn.turn_id@)
            &&& is_text(all@[1].value, "response"@)
            &&& is_text(all@[2].value, turn.timestamp@)
            &&& all@[3].value matches JsonValue::Array(output) && output@.len() == 1 && (
            output@[0] matches JsonValue::Object(message) && {
                &&& named(message@, seq!["type"@, "role"@, "content"@])
                &&& is_text(message@[0].value, "message"@)
                &&& is_text(message@[1].value, "assistant"@)
                &&& turn.assistant_output matches Some(answer) ==> is_text(
                    message@[2].value,
                    answer@,
                )
                &&& turn.assistant_output is None ==> is_text(message@[2].value, Seq::empty())
            })
            &&& all@[4].value matches JsonValue::Object(metadata) && {
                &&& named(
                    metadata@,
                    seq![
                        "turn_number"@,
                        "user_input"@,
                        "tool_calls_count"@,
                        "previous_response_id"@,
                    ],
                )
                &&& metadata@[0].value == JsonValue::Number(
                    JsonNumber::PosInt(turn.turn_number as u64),
                )
                &&& is_text(metadata@[1].value, turn.user_input@)
                &&& metadata@[2].value == JsonValue::Number(
                    JsonNumber::PosInt(turn.tool_calls@.len() as u64),
                )
                &&& previous matches Some(id) ==> is_text(metadata@[3].value, id@)
                &&& previous is None ==> metadata@[3].value is Null
            }
        },
{
    broadcast use {json::member_views_items, json::json_views_items};

    let all = res->Object_0@;
    let views = json::member_views(all);
    assert(res@ == Json::Object(views));
    assert(views.len() == 5);
    assert forall|k: int| 0 <= k < 5 implies views[k] == (#[trigger] all[k]).view() by {}
    assert(views[0] == all[0].view() && views[1] == all[1].view() && views[2] == all[2].view()
        && views[3] == all[3].view() && views[4] == all[4].view());
    let output = all[3].value->Array_0@;
    assert(json::json_views(output).len() == 1);
    assert(json::json_views(output)[0] == output[0].view());
    let message = output[0]->Object_0@;
    let m = json::member_views(message);
    assert(m.len() == 3);
    assert(m[0] == message[0].view() && m[1] == message[1].view() && m[2] == message[2].view());
    let metadata = all[4].value->Object_0@;
    let d = json::member_views(metadata);
    assert(d.len() == 4);
    assert(d[0] == metadata[0].view() && d[1] == metadata[1].view() && d[2]
        == metadata[2].view() && d[3] == metadata[3].view());
}

/// Whether a stored value tells of a turn: under the turn's identifier, with the
/// model's answer, with what the user wrote, and with the response before it.
pub open spec fn stored_tells(value: Json, turn: ConversationTurn, previous: Json) -> bool {
    value matches Json::Object(all) && {
        &&& all.len() == 5
        &&& all[0] == ("id"@, Json::Text("resp_"@ + turn.turn_id@))
        &&& all[1] == ("object"@, Json::Text("response"@))
        &&& all[2] == ("created_at"@, Json::Text(turn.timestamp@))
        &&& all[3].0 == "output"@
        &&& all[3].1 matches Json::Array(output) && output.len() == 1 && (
        output[0] matches Json::Object(message) && {
            &&& message.len() == 3
            &&& message[0] == ("type"@, Json::Text("message"@))
            &&& message[1] == ("role"@, Json::Text("assistant"@))
            &&& message[2].0 == "content"@
            &&& turn.assistant_output matches Some(answer) ==> message[2].1 == Json::Text(answer@)
            &&& turn.assistant_output is None ==> message[2].1 == Json::Text(Seq::empty())
        })
        &&& all[4].0 == "metadata"@
        &&& all[4].1 matches Json::Object(metadata) && {
            &&& metadata.len() == 4
            &&& metadata[0] == (
                "turn_number"@,
                Json::Number(JsonNumber::PosInt(turn.turn_number as u64)),
            )
            &&& metadata[1] == ("user_input"@, Json::Text(turn.user_input@))
            &&& metadata[2] == (
                "tool_calls_count"@,
                Json::Number(JsonNumber::PosInt(turn.tool_calls@.len() as u64)),
            )
            &&& metadata[3] == ("previous_response_id"@, previous)
        }
    }
}

/// A replay names the trace's session and its tenant, and for each turn, in order,
/// the identifier under which it is stored: the turn's own behind `resp_`.
pub proof fn replay_names_turns<S: ResponseStorage>(
    storage: &mut S,
    trace: &ParsedTrace,
    tenant_id: &str,
    result: ReplayResult,
)
    requires
        call_ensures(
            replay_trace::<S>,
            (storage, trace, tenant_id),
            Ok::<ReplayResult, StorageError>(result),
        ),
    ensures
        result.session_id@ == trace.session_id@,
        result.tenant_id@ == tenant_id@,
        result.turns_replayed == trace.turns@.len(),
        result.response_ids@.len() == trace.turns@.len(),
        forall|i: int|
            0 <= i < trace.turns@.len() ==> (#[trigger] result.response_ids@[i])@ == "resp_"@
                + trace.turns@[i].turn_id@,
{
    let turns = trace_replay::turn_views(trace.turns@);
    let ids = text::texts(result.response_ids@);
    assert(ids.len() == turns.len());
    assert forall|i: int| 0 <= i < trace.turns@.len() implies (
    #[trigger] result.response_ids@[i])@ == "resp_"@ + trace.turns@[i].turn_id@ by {
        assert(ids[i] == result.response_ids@[i]@);
        assert(turns[i] == trace.turns@[i]@);
    }
}

/// After a replay of turns with different identifiers, the tenant has each turn in
/// the trace's session, under its own identifier behind `resp_` and without an end;
/// what is stored there tells of that turn and names the turn before it, and the
/// first names none.
pub proof fn replay_stores_turns<S: ResponseStorage>(
    storage: &mut S,
    trace: &ParsedTrace,
    tenant_id: &str,
    result: ReplayResult,
    i: int,
)
    requires
        call_ensures(
            replay_trace::<S>,
            (storage, trace, tenant_id),
            Ok::<ReplayResult, StorageError>(result),
        ),
        forall|a: int, b: int|
            0 <= a < b < trace.turns@.len() ==> (#[trigger] trace.turns@[a]).turn_id@ != (
            #[trigger] trace.turns@[b]).turn_id@,
        0 <= i < trace.turns@.len(),
    ensures
        ({
            let id = "resp_"@ + trace.turns@[i].turn_id@;
            let key = (tenant_id@, trace.session_id@, id);
            let record = final(storage).contents()[key];
            &&& final(storage).contents().contains_key(key)
            &&& record.tenant_id == tenant_id@
            &&& record.session_id == trace.session_id@
            &&& record.response_id == id
            &&& record.expires_at is None
            &&& stored_tells(
                record.response,
                trace.turns@[i],
                if i == 0 {
                    Json::Null
                } else {
                    Json::Text("resp_"@ + trace.turns@[i - 1].turn_id@)
                },
            )
        }),
{
    let before = storage.contents();
    let turns = trace_replay::turn_views(trace.turns@);
    let after = final(storage).contents();
    assert(trace_replay::replay_of(before, turns, tenant_id@, trace.session_id@, after));
    let times = choose|times: Seq<u64>|
        times.len() == turns.len() && after == #[trigger] trace_replay::replayed(
            before,
            turns,
            tenant_id@,
            trace.session_id@,
            times,
        );
    assert forall|a: int, b: int| 0 <= a < b < turns.len() implies (#[trigger] turns[a]).turn_id
        != (#[trigger] turns[b]).turn_id by {
        assert(trace.turns@[a].turn_id@ != trace.turns@[b].turn_id@);
    }
    trace_replay::replay_chains(before, turns, tenant_id@, trace.session_id@, times);
    assert(turns[i] == trace.turns@[i]@);
    if i > 0 {
        assert(turns[i - 1] == trace.turns@[i - 1]@);
    }
}

/// Whether a line has a character that is not white space.
pub open spec fn has_writing(line: Seq<char>) -> bool {
    exists|i: int| 0 <= i < line.len() && !text::white_space(#[trigger] line[i])
}

/// Whether places are in ascending order, and are exactly those of the lines that
/// have writing.
pub open spec fn lists_written(places: Seq<int>, lines: Seq<Seq<char>>) -> bool {
    &&& forall|a: int, b: int|
        0 <= a < b < places.len() ==> #[trigger] places[a] < #[trigger] places[b]
    &&& forall|a: int|
        0 <= a < places.len() ==> 0 <= #[trigger] places[a] < lines.len() && has_writing(
            lines[places[a]],
        )
    &&& forall|i: int|
        0 <= i < lines.len() && has_writing(#[trigger] lines[i]) ==> places.contains(i)
}

proof fn written_places(lines: Seq<Seq<char>>) -> (places: Seq<int>)
    ensures
        lists_written(places, lines),
        places.len() == trace_replay::written(lines).len(),
        forall|a: int|
            0 <= a < places.len() ==> trace_replay::written(lines)[a]
                == lines[#[trigger] places[a]],
    decreases lines.len(),
{
    if lines.len() == 0 {
        Seq::empty()
    } else {
        let rest = lines.drop_last();
        let before = written_places(rest);
        assert(has_writing(lines.last()) == !text::blank(lines.last()));
        let places = if has_writing(lines.last()) {
            before.push(lines.len() - 1)
        } else {
            before
        };
        assert forall|a: int| 0 <= a < places.len() implies 0 <= #[trigger] places[a] < lines.len()
            && has_writing(lines[places[a]]) && trace_replay::written(lines)[a]
            == lines[places[a]] by {
            if a < before.len() {
                assert(rest[before[a]] == lines[before[a]]);
            }
        }
        assert forall|i: int| 0 <= i < lines.len() && has_writing(
            #[trigger] lines[i],
        ) implies places.contains(i) by {
            if i < rest.len() {
                assert(has_writing(rest[i]));
                let a = choose|a: int| 0 <= a < before.len() && before[a] == i;
                assert(places[a] == i);
            } else {
                assert(places[places.len() - 1] == i);
            }
        }
        places
    }
}

/// Parsing decodes the lines that have writing, one after the other, and keeps what
/// came of each; the first that cannot be decoded ends it, with its number counted
/// from one and the decoder's words. Without writing there is no trace.
pub proof fn parse_decodes_lines<F: Fn(&str) -> Result<TraceSpan, String>>(
    content: &str,
    decode: &F,
    res: Result<ParsedTrace, TraceParseError>,
) -> (places: Seq<int>)
    requires
        call_ensures(parse_trace_content::<F>, (content, decode), res),
    ensures
        lists_written(places, text::lines(content@)),
        match res {
            Ok(trace) => {
                &&& places.len() > 0
                &&& trace.raw_spans@.len() == places.len()
                &&& forall|a: int|
                    0 <= a < places.len() ==> trace_replay::gives(
                        *decode,
                        text::lines(content@)[#[trigger] places[a]],
                        Ok(trace.raw_spans@[a]),
                    )
            },
            Err(TraceParseError::JsonError(n, why)) => places.contains(n - 1)
                && trace_replay::gives(*decode, text::lines(content@)[n - 1], Err(why)),
            Err(TraceParseError::EmptyTrace) => places.len() == 0,
            Err(TraceParseError::NoRootSpan) => places.len() > 0,
            Err(TraceParseError::IoError(_)) => false,
        },
{
    let lines = text::lines(content@);
    let places = written_places(lines);
    match res {
        Ok(trace) => {
            assert forall|a: int| 0 <= a < places.len() implies trace_replay::gives(
                *decode,
                lines[#[trigger] places[a]],
                Ok(trace.raw_spans@[a]),
            ) by {
                assert(trace_replay::gives(
                    *decode,
                    trace_replay::written(lines)[a],
                    Ok(trace.raw_spans@[a]),
                ));
            }
        },
        Err(TraceParseError::JsonError(n, why)) => {
            assert(has_writing(lines[n - 1]));
        },
        _ => {},
    }
    places
}

/// A trace that is parsed is the one that its spans make.
pub proof fn parse_assembles<F: Fn(&str) -> Result<TraceSpan, String>>(
    content: &str,
    decode: &F,
    trace: ParsedTrace,
    p: int,
)
    requires
        call_ensures(
            parse_trace_content::<F>,
            (content, decode),
            Ok::<ParsedTrace, TraceParseError>(trace),
        ),
        first_on_top(trace.raw_spans@, p),
    ensures
        trace.root_span_id@ == trace.raw_spans@[p].span_id@,
        forall|s: Seq<char>| #[trigger]
            says(trace.raw_spans@[p].metadata@, "session_id"@, s) ==> trace.session_id@ == s,
        !says_something(trace.raw_spans@[p].metadata@, "session_id"@) ==> trace.session_id@
            == trace.raw_spans@[p].span_id@,
        exists|places: Seq<int>| #[trigger]
            lists_turns(trace, trace.raw_spans@[p].span_id@, places),
{
    let spans = trace.raw_spans@;
    first_on_top_is_root(spans);
    member_text(spans[p].metadata@, "session_id"@);
    let places = turns_are_told(trace, spans[p].span_id@);
    assert(lists_turns(trace, spans[p].span_id@, places));
}

/// Whether a trace's turns are those of its spans that are turns under the root, at
/// the given places.
pub open spec fn lists_turns(trace: ParsedTrace, root: Seq<char>, places: Seq<int>) -> bool {
    let spans = trace.raw_spans@;
    &&& lists_places(places, spans, |span: TraceSpan| is_turn_span(span, root))
    &&& trace.turns@.len() == places.len()
    &&& forall|a: int|
        0 <= a < places.len() ==> {
            &&& (#[trigger] trace.turns@[a]).turn_number == a + 1
            &&& tells_turn(spans, spans[places[a]], trace.turns@[a])
        }
}

proof fn turns_are_told(trace: ParsedTrace, root: Seq<char>) -> (places: Seq<int>)
    requires
        trace_replay::turn_views(trace.turns@) == trace_replay::turns_of(trace.raw_spans@, root),
    ensures
        lists_turns(trace, root, places),
{
    let spans = trace.raw_spans@;
    let places = turn_places(spans, spans, root);
    let views = trace_replay::turn_views(trace.turns@);
    assert(views.len() == trace.turns@.len());
    assert forall|a: int| 0 <= a < places.len() implies {
        &&& (#[trigger] trace.turns@[a]).turn_number == a + 1
        &&& tells_turn(spans, spans[places[a]], trace.turns@[a])
    } by {
        let turn = trace.turns@[a];
        let span = spans[places[a]];
        assert(views[a] == turn@);
        user_input_is_written(span.input);
        output_is_answered(spans, span.span_id@, turn.assistant_output);
        calls_are_told(spans, span.span_id@, turn.tool_calls@);
    }
    places
}

proof fn replayed_keeps(
    contents: Contents,
    turns: Seq<trace_replay::Turn>,
    tenant_id: Seq<char>,
    session_id: Seq<char>,
    times: Seq<u64>,
    key: Key,
)
    requires
        key.0 != tenant_id || forall|i: int|
            0 <= i < turns.len() ==> key.2 != "resp_"@ + (#[trigger] turns[i]).turn_id,
    ensures
        ({
            let after = trace_replay::replayed(contents, turns, tenant_id, session_id, times);
            &&& after.contains_key(key) == contents.contains_key(key)
            &&& contents.contains_key(key) ==> after[key] == contents[key]
        }),
    decreases turns.len(),
{
    if turns.len() > 0 {
        assert forall|i: int| 0 <= i < turns.drop_last().len() && key.0 == tenant_id implies key.2
            != "resp_"@ + (#[trigger] turns.drop_last()[i]).turn_id by {
            assert(turns[i] == turns.drop_last()[i]);
        }
        replayed_keeps(
            contents,
            turns.drop_last(),
            tenant_id,
            session_id,
            times.drop_last(),
            key,
        );
        assert(turns.last() == turns[turns.len() - 1]);
    }
}

/// A replay touches nothing but its tenant's responses under the identifiers of the
/// trace's turns.
pub proof fn replay_keeps_others<S: ResponseStorage>(
    storage: &mut S,
    trace: &ParsedTrace,
    tenant_id: &str,
    result: ReplayResult,
    key: Key,
)
    requires
        call_ensures(
            replay_trace::<S>,
            (storage, trace, tenant_id),
            Ok::<ReplayResult, StorageError>(result),
        ),
        key.0 != tenant_id@ || forall|i: int|
            0 <= i < trace.turns@.len() ==> key.2 != "resp_"@ + (
            #[trigger] trace.turns@[i]).turn_id@,
    ensures
        final(storage).contents().contains_key(key) == old(storage).contents().contains_key(key),
        old(storage).contents().contains_key(key) ==> final(storage).contents()[key] == old(
            storage,
        ).contents()[key],
{
    let before = storage.contents();
    let turns = trace_replay::turn_views(trace.turns@);
    let after = final(storage).contents();
    assert(trace_replay::replay_of(before, turns, tenant_id@, trace.session_id@, after));
    let times = choose|times: Seq<u64>|
        times.len() == turns.len() && after == #[trigger] trace_replay::replayed(
            before,
            turns,
            tenant_id@,
            trace.session_id@,
            times,
        );
    assert forall|i: int| 0 <= i < turns.len() && key.0 == tenant_id@ implies key.2 != "resp_"@ + (
    #[trigger] turns[i]).turn_id by {
        assert(turns[i] == trace.turns@[i]@);
        assert(key.2 != "resp_"@ + trace.turns@[i].turn_id@);
    }
    replayed_keeps(before, turns, tenant_id@, trace.session_id@, times, key);
}

/// A step of a replay passes an error on; without one it stores the turn whose
/// number is that of the responses stored so far, under its identifier and chained
/// to the response stored last, and it is done once every turn is stored.
pub proof fn replay_steps(
    trace: &ParsedTrace,
    tenant_id: &str,
    stored: &Vec<String>,
    failed: Option<StorageError>,
    step: ReplayStep,
)
    requires
        call_ensures(replay_step, (trace, tenant_id, stored, failed), step),
    ensures
        failed matches Some(e) ==> step == ReplayStep::Failed(e),
        failed is None ==> {
            let n = stored@.len() as int;
            &&& n < trace.turns@.len() ==> (step matches ReplayStep::Store { response_id, response }
                && response_id@ == "resp_"@ + trace.turns@[n].turn_id@ && stored_tells(
                response@,
                trace.turns@[n],
                if n == 0 {
                    Json::Null
                } else {
                    Json::Text(stored@[n - 1]@)
                },
            ))
            &&& n >= trace.turns@.len() ==> (step matches ReplayStep::Done(result)
                && result.session_id@ == trace.session_id@ && result.tenant_id@ == tenant_id@
                && result.turns_replayed == trace.turns@.len() && result.response_ids@.len() == n
                && forall|i: int|
                0 <= i < n ==> (#[trigger] result.response_ids@[i])@ == stored@[i]@)
        },
{
    match step {
        ReplayStep::Done(result) => {
            let a = text::texts(result.response_ids@);
            let b = text::texts(stored@);
            if failed is None && stored@.len() >= trace.turns@.len() {
                assert(a.len() == b.len());
                assert forall|i: int| 0 <= i < stored@.len() implies (
                #[trigger] result.response_ids@[i])@ == stored@[i]@ by {
                    assert(a[i] == b[i]);
                }
            }
        },
        _ => {},
    }
}

} // verus!
