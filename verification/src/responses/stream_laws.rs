//! What holds of a whole stream: any number of chunks, one after the other.

use crate::responses::events::{AssistantRole, Delta, Item, OutputStatus, StreamEvent, ToolDelta};
use crate::responses::stream_converter;
use crate::responses::stream_converter::{
    call_item, call_items, calls_end_events, chunk_text, consecutive, passed_arguments,
    passed_text, plain_part, CallState, ConverterState,
};
use vstd::prelude::*;

verus! {

/// Whether a converter has seen no chunk yet.
pub open spec fn untouched(state: ConverterState) -> bool {
    &&& state.calls.len() == 0
    &&& !state.message_started
    &&& state.text.len() == 0
    &&& state.next_output_index == 0
}

/// The converter after some chunks; `fresh` holds, chunk by chunk, the
/// identifiers of the function calls that are new.
pub open spec fn after_stream(
    start: ConverterState,
    chunks: Seq<Seq<Delta>>,
    fresh: Seq<Seq<Seq<char>>>,
) -> ConverterState
    decreases chunks.len(),
{
    if chunks.len() == 0 {
        start
    } else {
        let before = after_stream(start, chunks.drop_last(), fresh);
        before.after_chunk(
            chunks.last(),
            before.calls.len() as int,
            fresh[chunks.len() - 1],
        )
    }
}

/// The events for some chunks, one after the other.
pub open spec fn stream_events(
    start: ConverterState,
    chunks: Seq<Seq<Delta>>,
    fresh: Seq<Seq<Seq<char>>>,
) -> Seq<StreamEvent>
    decreases chunks.len(),
{
    if chunks.len() == 0 {
        Seq::empty()
    } else {
        let before = after_stream(start, chunks.drop_last(), fresh);
        stream_events(start, chunks.drop_last(), fresh) + before.chunk_events(
            chunks.last(),
            before.calls.len() as int,
            fresh[chunks.len() - 1],
        )
    }
}

/// The text that some chunks bring.
pub open spec fn stream_text(chunks: Seq<Seq<Delta>>) -> Seq<char>
    decreases chunks.len(),
{
    if chunks.len() == 0 {
        Seq::empty()
    } else {
        stream_text(chunks.drop_last()) + chunk_text(chunks.last())
    }
}

/// The tool calls that a chunk brings, choice after choice.
pub open spec fn chunk_tools(chunk: Seq<Delta>) -> Seq<ToolDelta>
    decreases chunk.len(),
{
    if chunk.len() == 0 {
        Seq::empty()
    } else {
        chunk_tools(chunk.drop_last()) + chunk.last().tools
    }
}

/// The tool calls that some chunks bring.
pub open spec fn stream_tools(chunks: Seq<Seq<Delta>>) -> Seq<ToolDelta>
    decreases chunks.len(),
{
    if chunks.len() == 0 {
        Seq::empty()
    } else {
        stream_tools(chunks.drop_last()) + chunk_tools(chunks.last())
    }
}

/// The latest identifier that tool calls give a function call; empty where none
/// does.
pub open spec fn latest_id(tools: Seq<ToolDelta>, i: int) -> Seq<char>
    decreases tools.len(),
{
    if tools.len() == 0 {
        Seq::empty()
    } else if tools.last().index == i && tools.last().id is Some {
        tools.last().id->0
    } else {
        latest_id(tools.drop_last(), i)
    }
}

/// The latest name that tool calls give a function call; empty where none does.
pub open spec fn latest_name(tools: Seq<ToolDelta>, i: int) -> Seq<char>
    decreases tools.len(),
{
    if tools.len() == 0 {
        Seq::empty()
    } else if tools.last().index == i && tools.last().name is Some {
        tools.last().name->0
    } else {
        latest_name(tools.drop_last(), i)
    }
}

/// Whether tool calls bring arguments for a function call, if only empty ones.
pub open spec fn brings_arguments(tools: Seq<ToolDelta>, i: int) -> bool
    decreases tools.len(),
{
    tools.len() > 0 && ((tools.last().index == i && tools.last().arguments is Some)
        || brings_arguments(tools.drop_last(), i))
}

/// The arguments that tool calls bring for a function call, one after the other.
pub open spec fn brought_arguments(tools: Seq<ToolDelta>, i: int) -> Seq<char>
    decreases tools.len(),
{
    if tools.len() == 0 {
        Seq::empty()
    } else {
        brought_arguments(tools.drop_last(), i) + (if tools.last().index == i {
            match tools.last().arguments {
                Some(args) => args,
                None => Seq::empty(),
            }
        } else {
            Seq::empty()
        })
    }
}

/// Whether a function call is what tool calls made of it.
pub open spec fn described(call: CallState, tools: Seq<ToolDelta>, i: int) -> bool {
    &&& call.call_id == latest_id(tools, i)
    &&& call.name == latest_name(tools, i)
    &&& call.started == brings_arguments(tools, i)
    &&& call.arguments == brought_arguments(tools, i)
}

/// Whether a converter's function calls are what tool calls made of them.
pub open spec fn calls_described(state: ConverterState, tools: Seq<ToolDelta>) -> bool {
    &&& forall|i: int|
        0 <= i < state.calls.len() ==> described(#[trigger] state.calls[i], tools, i)
    &&& forall|k: int| 0 <= k < tools.len() ==> (#[trigger] tools[k]).index < state.calls.len()
}

proof fn unmentioned(tools: Seq<ToolDelta>, i: int)
    requires
        forall|k: int| 0 <= k < tools.len() ==> (#[trigger] tools[k]).index != i,
    ensures
        latest_id(tools, i) == Seq::<char>::empty(),
        latest_name(tools, i) == Seq::<char>::empty(),
        !brings_arguments(tools, i),
        brought_arguments(tools, i) == Seq::<char>::empty(),
    decreases tools.len(),
{
    if tools.len() > 0 {
        assert(tools.last().index != i);
        assert forall|k: int| 0 <= k < tools.drop_last().len() implies (
        #[trigger] tools.drop_last()[k]).index != i by {
            assert(tools[k].index != i);
        }
        unmentioned(tools.drop_last(), i);
        assert(brought_arguments(tools, i) =~= Seq::<char>::empty());
    }
}

proof fn tool_describes(
    state: ConverterState,
    before: Seq<ToolDelta>,
    tool: ToolDelta,
    base: int,
    fresh: Seq<Seq<char>>,
)
    requires
        calls_described(state, before),
    ensures
        calls_described(state.after_tool(tool, base, fresh), before.push(tool)),
{
    let all = before.push(tool);
    let opened = state.with_calls(tool.index as int + 1, base, fresh);
    let after = state.after_tool(tool, base, fresh);
    assert(all.drop_last() =~= before);
    assert forall|i: int| 0 <= i < after.calls.len() implies described(
        #[trigger] after.calls[i],
        all,
        i,
    ) by {
        if i < state.calls.len() {
            assert(described(state.calls[i], before, i));
        } else {
            unmentioned(before, i);
        }
        assert(described(opened.calls[i], before, i));
        assert(after.calls[i].arguments =~= brought_arguments(all, i));
    }
    assert forall|k: int| 0 <= k < all.len() implies (#[trigger] all[k]).index
        < after.calls.len() by {
        if k < before.len() {
            assert(before[k].index < state.calls.len());
        }
    }
}

proof fn tools_describe(
    state: ConverterState,
    before: Seq<ToolDelta>,
    tools: Seq<ToolDelta>,
    base: int,
    fresh: Seq<Seq<char>>,
)
    requires
        calls_described(state, before),
    ensures
        calls_described(state.after_tools(tools, base, fresh), before + tools),
    decreases tools.len(),
{
    if tools.len() == 0 {
        assert(before + tools =~= before);
    } else {
        tools_describe(state, before, tools.drop_last(), base, fresh);
        tool_describes(
            state.after_tools(tools.drop_last(), base, fresh),
            before + tools.drop_last(),
            tools.last(),
            base,
            fresh,
        );
        assert((before + tools.drop_last()).push(tools.last()) =~= before + tools);
    }
}

proof fn chunk_describes(
    state: ConverterState,
    before: Seq<ToolDelta>,
    chunk: Seq<Delta>,
    base: int,
    fresh: Seq<Seq<char>>,
)
    requires
        calls_described(state, before),
    ensures
        calls_described(state.after_chunk(chunk, base, fresh), before + chunk_tools(chunk)),
    decreases chunk.len(),
{
    if chunk.len() == 0 {
        assert(before + chunk_tools(chunk) =~= before);
    } else {
        let earlier = chunk.drop_last();
        let middle = state.after_chunk(earlier, base, fresh);
        chunk_describes(state, before, earlier, base, fresh);
        let opened = middle.after_text(chunk.last().content);
        assert(opened.calls == middle.calls);
        tools_describe(
            opened,
            before + chunk_tools(earlier),
            chunk.last().tools,
            base,
            fresh,
        );
        assert(before + chunk_tools(earlier) + chunk.last().tools =~= before + chunk_tools(chunk));
    }
}

/// After a stream, each function call has the latest identifier and the latest
/// name that the stream gave it, and all the arguments that the stream brought
/// for it, in order; it has been announced where there were any, if only empty
/// ones. Every tool call of the stream has its function call.
pub proof fn stream_describes_calls(
    start: ConverterState,
    chunks: Seq<Seq<Delta>>,
    fresh: Seq<Seq<Seq<char>>>,
)
    requires
        untouched(start),
    ensures
        calls_described(after_stream(start, chunks, fresh), stream_tools(chunks)),
    decreases chunks.len(),
{
    if chunks.len() > 0 {
        let before = after_stream(start, chunks.drop_last(), fresh);
        stream_describes_calls(start, chunks.drop_last(), fresh);
        chunk_describes(
            before,
            stream_tools(chunks.drop_last()),
            chunks.last(),
            before.calls.len() as int,
            fresh[chunks.len() - 1],
        );
    }
}

/// The place in the output that an event speaks of.
pub open spec fn event_place(event: StreamEvent) -> Option<int> {
    match event {
        StreamEvent::ItemAdded { output_index, .. } => Some(output_index),
        StreamEvent::PartAdded { output_index, .. } => Some(output_index),
        StreamEvent::TextDelta { output_index, .. } => Some(output_index),
        StreamEvent::ArgumentsDelta { output_index, .. } => Some(output_index),
        _ => None,
    }
}

/// The identifier of an output item.
pub open spec fn item_id_of(item: Item) -> Seq<char> {
    match item {
        Item::Message { id, .. } => id,
        Item::FunctionCall { id, .. } => match id {
            Some(id) => id,
            None => Seq::empty(),
        },
    }
}

/// The identifier of the output item that an event speaks of.
pub open spec fn event_item(event: StreamEvent) -> Seq<char> {
    match event {
        StreamEvent::ItemAdded { item, .. } => item_id_of(item),
        StreamEvent::PartAdded { item_id, .. } => item_id,
        StreamEvent::TextDelta { item_id, .. } => item_id,
        StreamEvent::ArgumentsDelta { item_id, .. } => item_id,
        _ => Seq::empty(),
    }
}

/// Whether a function call has a place.
pub open spec fn call_at(state: ConverterState, i: int, place: int) -> bool {
    0 <= i < state.calls.len() && state.calls[i].output_index == place
}

/// Whether the message has a place.
pub open spec fn message_at(state: ConverterState, place: int) -> bool {
    state.message_started && state.message_output_index == place
}

/// Whether the item with the given identifier has a place.
pub open spec fn item_at(state: ConverterState, place: int, id: Seq<char>) -> bool {
    ||| message_at(state, place) && state.message_item_id == id
    ||| exists|i: int| #[trigger] call_at(state, i, place) && state.calls[i].item_id == id
}

/// Whether the item at a place has been announced.
pub open spec fn announced_at(state: ConverterState, place: int) -> bool {
    ||| message_at(state, place)
    ||| exists|i: int| #[trigger] call_at(state, i, place) && state.calls[i].started
}

/// How often events announce the item at a place.
pub open spec fn announcements(events: Seq<StreamEvent>, place: int) -> nat
    decreases events.len(),
{
    if events.len() == 0 {
        0
    } else {
        announcements(events.drop_last(), place) + (match events.last() {
            StreamEvent::ItemAdded { output_index, .. } => if output_index == place {
                1nat
            } else {
                0
            },
            _ => 0,
        })
    }
}

/// Whether all events speak of items by their identifiers and their places.
pub open spec fn events_fit(events: Seq<StreamEvent>, state: ConverterState) -> bool {
    forall|k: int|
        0 <= k < events.len() ==> (event_place(#[trigger] events[k]) matches Some(place)
            ==> item_at(state, place, event_item(events[k])))
}

/// Whether items keep their identifiers and their places, and new ones take
/// places that were free.
pub open spec fn items_kept(before: ConverterState, after: ConverterState) -> bool {
    &&& after.message_item_id == before.message_item_id
    &&& before.message_started ==> after.message_started && after.message_output_index
        == before.message_output_index
    &&& before.calls.len() <= after.calls.len()
    &&& before.next_output_index <= after.next_output_index
    &&& forall|i: int|
        0 <= i < before.calls.len() ==> (#[trigger] after.calls[i]).item_id
            == before.calls[i].item_id && after.calls[i].output_index
            == before.calls[i].output_index
    &&& forall|i: int|
        before.calls.len() <= i < after.calls.len() ==> (#[trigger] after.calls[i]).output_index
            >= before.next_output_index
}

/// Whether an item is announced once, by the event after which it counts as
/// announced.
pub open spec fn announced_once(
    before: ConverterState,
    events: Seq<StreamEvent>,
    after: ConverterState,
) -> bool {
    forall|place: int|
        #![trigger announcements(events, place)]
        #![trigger announced_at(after, place)]
        announcements(events, place) + (if announced_at(before, place) {
            1nat
        } else {
            0
        }) == (if announced_at(after, place) {
            1nat
        } else {
            0
        })
}

/// What a piece of a stream does to output items.
pub open spec fn good_step(
    before: ConverterState,
    events: Seq<StreamEvent>,
    after: ConverterState,
) -> bool {
    &&& after.places_distinct()
    &&& items_kept(before, after)
    &&& events_fit(events, after)
    &&& announced_once(before, events, after)
}

proof fn announcements_add(a: Seq<StreamEvent>, b: Seq<StreamEvent>, place: int)
    ensures
        announcements(a + b, place) == announcements(a, place) + announcements(b, place),
    decreases b.len(),
{
    if b.len() == 0 {
        assert(a + b =~= a);
    } else {
        announcements_add(a, b.drop_last(), place);
        assert((a + b).drop_last() =~= a + b.drop_last());
    }
}

proof fn fit_kept(events: Seq<StreamEvent>, before: ConverterState, after: ConverterState)
    requires
        events_fit(events, before),
        items_kept(before, after),
    ensures
        events_fit(events, after),
{
    assert forall|k: int| 0 <= k < events.len() implies (event_place(
        #[trigger] events[k],
    ) matches Some(place) ==> item_at(after, place, event_item(events[k]))) by {
        if let Some(place) = event_place(events[k]) {
            let id = event_item(events[k]);
            assert(item_at(before, place, id));
            if !(message_at(before, place) && before.message_item_id == id) {
                let i = choose|i: int| #[trigger]
                    call_at(before, i, place) && before.calls[i].item_id == id;
                assert(after.calls[i].item_id == id);
                assert(call_at(after, i, place));
            }
        }
    }
}

proof fn steps_join(
    a: ConverterState,
    first: Seq<StreamEvent>,
    b: ConverterState,
    second: Seq<StreamEvent>,
    c: ConverterState,
)
    requires
        good_step(a, first, b),
        good_step(b, second, c),
    ensures
        good_step(a, first + second, c),
{
    let both = first + second;
    fit_kept(first, b, c);
    assert forall|k: int| 0 <= k < both.len() implies (event_place(
        #[trigger] both[k],
    ) matches Some(place) ==> item_at(c, place, event_item(both[k]))) by {
        if k < first.len() {
            assert(both[k] == first[k]);
        } else {
            assert(both[k] == second[k - first.len()]);
        }
    }
    assert forall|i: int| 0 <= i < a.calls.len() implies (#[trigger] c.calls[i]).item_id
        == a.calls[i].item_id && c.calls[i].output_index == a.calls[i].output_index by {
        assert(b.calls[i].item_id == a.calls[i].item_id);
    }
    assert forall|i: int| a.calls.len() <= i < c.calls.len() implies (
    #[trigger] c.calls[i]).output_index >= a.next_output_index by {
        if i < b.calls.len() {
            assert(b.calls[i].output_index >= a.next_output_index);
        }
    }
    assert forall|place: int|
        #![trigger announcements(both, place)]
        #![trigger announced_at(c, place)]
        announcements(both, place) + (if announced_at(a, place) {
            1nat
        } else {
            0
        }) == (if announced_at(c, place) {
            1nat
        } else {
            0
        }) by {
        announcements_add(first, second, place);
        assert(announced_at(b, place) == announced_at(b, place));
    }
}

proof fn empty_step(state: ConverterState)
    requires
        state.places_distinct(),
    ensures
        good_step(state, Seq::empty(), state),
{
}

proof fn text_step(state: ConverterState, content: Seq<char>)
    requires
        state.places_distinct(),
    ensures
        good_step(state, state.text_events(content), state.after_text(content)),
{
    reveal_with_fuel(announcements, 4);
    let events = state.text_events(content);
    let after = state.after_text(content);
    stream_converter::text_keeps_places(state, content);
    assert forall|place: int|
        #![trigger announcements(events, place)]
        #![trigger announced_at(after, place)]
        announcements(events, place) + (if announced_at(state, place) {
            1nat
        } else {
            0
        }) == (if announced_at(after, place) {
            1nat
        } else {
            0
        }) by {
        assert(forall|i: int| call_at(state, i, place) == call_at(after, i, place));
        if content.len() > 0 && !state.message_started {
            assert(events.len() == 3);
            assert(events.drop_last().len() == 2);
            assert(events.drop_last().drop_last().len() == 1);
            assert(events.drop_last().drop_last().last() == events[0]);
            assert(events.drop_last().last() == events[1]);
            if place == state.next_output_index && announced_at(state, place) {
                let i = choose|i: int| #[trigger] call_at(state, i, place) && state.calls[i].started;
                assert(state.calls[i].output_index < state.next_output_index);
            }
        }
    }
}

proof fn tool_step(state: ConverterState, tool: ToolDelta, base: int, fresh: Seq<Seq<char>>)
    requires
        state.places_distinct(),
    ensures
        good_step(
            state,
            state.tool_events(tool, base, fresh),
            state.after_tool(tool, base, fresh),
        ),
{
    reveal_with_fuel(announcements, 3);
    let events = state.tool_events(tool, base, fresh);
    let opened = state.with_calls(tool.index as int + 1, base, fresh);
    let after = state.after_tool(tool, base, fresh);
    let n = tool.index as int;
    stream_converter::tool_keeps_places(state, tool, base, fresh);
    assert(forall|i: int|
        0 <= i < after.calls.len() ==> (#[trigger] after.calls[i]).output_index
            == opened.calls[i].output_index && after.calls[i].item_id == opened.calls[i].item_id);
    let here = after.calls[n].output_index;
    assert(call_at(after, n, here));
    assert forall|k: int| 0 <= k < events.len() implies (event_place(
        #[trigger] events[k],
    ) matches Some(place) ==> item_at(after, place, event_item(events[k]))) by {
        assert(event_place(events[k]) == Some(here));
        assert(event_item(events[k]) == after.calls[n].item_id);
    }
    assert forall|place: int|
        #![trigger announcements(events, place)]
        #![trigger announced_at(after, place)]
        announcements(events, place) + (if announced_at(state, place) {
            1nat
        } else {
            0
        }) == (if announced_at(after, place) {
            1nat
        } else {
            0
        }) by {
        if announced_at(state, place) && !message_at(state, place) {
            let i = choose|i: int| #[trigger] call_at(state, i, place) && state.calls[i].started;
            assert(after.calls[i].output_index == place);
            assert(call_at(after, i, place) && after.calls[i].started);
            if place == here && i != n {
                assert(after.calls[i].output_index == after.calls[n].output_index);
            }
        }
        if announced_at(after, place) && !message_at(after, place) {
            let i = choose|i: int| #[trigger] call_at(after, i, place) && after.calls[i].started;
            if i != n {
                assert(opened.calls[i].started);
                assert(i < state.calls.len());
                assert(call_at(state, i, place) && state.calls[i].started);
                if place == here {
                    assert(after.calls[i].output_index == after.calls[n].output_index);
                }
            } else if opened.calls[n].started {
                assert(call_at(state, n, place) && state.calls[n].started);
            }
        }
        if place == here {
            if message_at(state, place) {
                assert(after.calls[n].output_index != after.message_output_index);
            }
        }
        if tool.arguments is Some {
            if opened.calls[n].started {
                assert(events.drop_last().len() == 0);
            } else {
                assert(events.len() == 2);
                assert(events.drop_last().len() == 1);
                assert(events.drop_last().last() == events[0]);
            }
        }
    }
}

proof fn tools_step(
    state: ConverterState,
    tools: Seq<ToolDelta>,
    base: int,
    fresh: Seq<Seq<char>>,
)
    requires
        state.places_distinct(),
    ensures
        good_step(
            state,
            state.tools_events(tools, base, fresh),
            state.after_tools(tools, base, fresh),
        ),
    decreases tools.len(),
{
    if tools.len() == 0 {
        empty_step(state);
    } else {
        let before = state.after_tools(tools.drop_last(), base, fresh);
        tools_step(state, tools.drop_last(), base, fresh);
        tool_step(before, tools.last(), base, fresh);
        steps_join(
            state,
            state.tools_events(tools.drop_last(), base, fresh),
            before,
            before.tool_events(tools.last(), base, fresh),
            state.after_tools(tools, base, fresh),
        );
    }
}

proof fn chunk_step(state: ConverterState, chunk: Seq<Delta>, base: int, fresh: Seq<Seq<char>>)
    requires
        state.places_distinct(),
    ensures
        good_step(
            state,
            state.chunk_events(chunk, base, fresh),
            state.after_chunk(chunk, base, fresh),
        ),
    decreases chunk.len(),
{
    if chunk.len() == 0 {
        empty_step(state);
    } else {
        let earlier = chunk.drop_last();
        let delta = chunk.last();
        let before = state.after_chunk(earlier, base, fresh);
        let middle = before.after_text(delta.content);
        let after = state.after_chunk(chunk, base, fresh);
        chunk_step(state, earlier, base, fresh);
        text_step(before, delta.content);
        tools_step(middle, delta.tools, base, fresh);
        steps_join(
            before,
            before.text_events(delta.content),
            middle,
            middle.tools_events(delta.tools, base, fresh),
            after,
        );
        steps_join(
            state,
            state.chunk_events(earlier, base, fresh),
            before,
            before.delta_events(delta, base, fresh),
            after,
        );
    }
}

/// Over a stream, every output item keeps its identifier and its place; every
/// event speaks of an item by both; and an item is announced once, before it
/// counts as announced.
pub proof fn stream_announces_once(
    start: ConverterState,
    chunks: Seq<Seq<Delta>>,
    fresh: Seq<Seq<Seq<char>>>,
)
    requires
        start.places_distinct(),
    ensures
        good_step(
            start,
            stream_events(start, chunks, fresh),
            after_stream(start, chunks, fresh),
        ),
    decreases chunks.len(),
{
    if chunks.len() == 0 {
        empty_step(start);
    } else {
        let earlier = chunks.drop_last();
        let before = after_stream(start, earlier, fresh);
        let base = before.calls.len() as int;
        let ids = fresh[chunks.len() - 1];
        stream_announces_once(start, earlier, fresh);
        chunk_step(before, chunks.last(), base, ids);
        steps_join(
            start,
            stream_events(start, earlier, fresh),
            before,
            before.chunk_events(chunks.last(), base, ids),
            after_stream(start, chunks, fresh),
        );
    }
}

/// The events of a stream are numbered one after the other, and the converter
/// goes on with the number after the last of them.
pub proof fn stream_numbering(
    start: ConverterState,
    chunks: Seq<Seq<Delta>>,
    fresh: Seq<Seq<Seq<char>>>,
)
    ensures
        consecutive(stream_events(start, chunks, fresh), start.sequence_number),
        after_stream(start, chunks, fresh).sequence_number == start.sequence_number
            + stream_events(start, chunks, fresh).len(),
    decreases chunks.len(),
{
    if chunks.len() > 0 {
        let before = after_stream(start, chunks.drop_last(), fresh);
        stream_numbering(start, chunks.drop_last(), fresh);
        stream_converter::chunk_numbering(
            before,
            chunks.last(),
            before.calls.len() as int,
            fresh[chunks.len() - 1],
        );
    }
}

/// The text of a stream is passed on whole and in order, and is what the
/// converter holds; there is a message where there is text.
pub proof fn stream_passes_text(
    start: ConverterState,
    chunks: Seq<Seq<Delta>>,
    fresh: Seq<Seq<Seq<char>>>,
)
    requires
        untouched(start),
    ensures
        after_stream(start, chunks, fresh).text == stream_text(chunks),
        passed_text(stream_events(start, chunks, fresh)) == stream_text(chunks),
        after_stream(start, chunks, fresh).message_started <==> stream_text(chunks).len() > 0,
    decreases chunks.len(),
{
    if chunks.len() == 0 {
        assert(start.text =~= stream_text(chunks));
    } else {
        let earlier = chunks.drop_last();
        let before = after_stream(start, earlier, fresh);
        let base = before.calls.len() as int;
        let ids = fresh[chunks.len() - 1];
        stream_passes_text(start, earlier, fresh);
        stream_announces_once(start, earlier, fresh);
        stream_converter::chunk_passes_text(before, chunks.last(), base, ids);
        stream_converter::chunk_starts_message(before, chunks.last(), base, ids);
        stream_converter::passed_text_adds(
            stream_events(start, earlier, fresh),
            before.chunk_events(chunks.last(), base, ids),
        );
    }
}

proof fn silent_about(events: Seq<StreamEvent>, place: int)
    requires
        forall|k: int|
            0 <= k < events.len() ==> event_place(#[trigger] events[k]) != Some(place),
    ensures
        passed_arguments(events, place) == Seq::<char>::empty(),
    decreases events.len(),
{
    if events.len() > 0 {
        assert forall|k: int| 0 <= k < events.drop_last().len() implies event_place(
            #[trigger] events.drop_last()[k],
        ) != Some(place) by {
            assert(event_place(events[k]) != Some(place));
        }
        silent_about(events.drop_last(), place);
        assert(event_place(events[events.len() - 1]) != Some(place));
        assert(passed_arguments(events, place) =~= Seq::<char>::empty());
    }
}

/// The arguments of each function call are all that the stream passed on for its
/// place in the output, in order.
pub proof fn stream_passes_arguments(
    start: ConverterState,
    chunks: Seq<Seq<Delta>>,
    fresh: Seq<Seq<Seq<char>>>,
    i: int,
)
    requires
        untouched(start),
        0 <= i < after_stream(start, chunks, fresh).calls.len(),
    ensures
        ({
            let call = after_stream(start, chunks, fresh).calls[i];
            call.arguments == passed_arguments(
                stream_events(start, chunks, fresh),
                call.output_index,
            )
        }),
    decreases chunks.len(),
{
    if chunks.len() > 0 {
        let earlier = chunks.drop_last();
        let before = after_stream(start, earlier, fresh);
        let base = before.calls.len() as int;
        let ids = fresh[chunks.len() - 1];
        let after = after_stream(start, chunks, fresh);
        let first = stream_events(start, earlier, fresh);
        let last = before.chunk_events(chunks.last(), base, ids);
        let place = after.calls[i].output_index;
        stream_announces_once(start, earlier, fresh);
        chunk_step(before, chunks.last(), base, ids);
        stream_converter::chunk_passes_arguments(before, chunks.last(), base, ids, i);
        stream_converter::passed_arguments_adds(first, last, place);
        if i < before.calls.len() {
            stream_passes_arguments(start, earlier, fresh, i);
        } else {
            assert(place >= before.next_output_index);
            assert forall|k: int| 0 <= k < first.len() implies event_place(#[trigger] first[k])
                != Some(place) by {
                if event_place(first[k]) == Some(place) {
                    assert(item_at(before, place, event_item(first[k])));
                    if !message_at(before, place) {
                        let j = choose|j: int| #[trigger]
                            call_at(before, j, place) && before.calls[j].item_id == event_item(
                                first[k],
                            );
                        assert(before.calls[j].output_index < before.next_output_index);
                    }
                }
            }
            silent_about(first, place);
            assert(after.calls[i].arguments =~= passed_arguments(first + last, place));
        }
    }
}

/// A chunk with one piece of text.
pub open spec fn text_chunk(text: Seq<char>) -> Seq<Delta> {
    seq![Delta { content: text, tools: Seq::empty() }]
}

/// A piece of text that a stream brings gives one event, and before it, where
/// the stream brought no text yet, the two that announce the message. All carry
/// the message's identifier and its place, which stay the same on whatever
/// chunks follow.
pub proof fn text_chunk_events(
    start: ConverterState,
    chunks: Seq<Seq<Delta>>,
    fresh: Seq<Seq<Seq<char>>>,
    text: Seq<char>,
    ids: Seq<Seq<char>>,
    more: Seq<Seq<Delta>>,
    more_fresh: Seq<Seq<Seq<char>>>,
)
    requires
        untouched(start),
        text.len() > 0,
    ensures
        ({
            let state = after_stream(start, chunks, fresh);
            let base = state.calls.len() as int;
            let after = state.after_chunk(text_chunk(text), base, ids);
            let later = after_stream(after, more, more_fresh);
            let place = later.message_output_index;
            let id = start.message_item_id;
            let number = state.sequence_number;
            let announced = seq![
                StreamEvent::ItemAdded {
                    sequence_number: number,
                    output_index: place,
                    item: Item::Message {
                        id,
                        role: AssistantRole::Assistant,
                        content: Seq::empty(),
                        status: OutputStatus::InProgress,
                    },
                },
                StreamEvent::PartAdded {
                    sequence_number: number + 1,
                    item_id: id,
                    output_index: place,
                    content_index: 0,
                    part: plain_part(Seq::empty()),
                },
            ];
            let first = if stream_text(chunks).len() > 0 {
                Seq::empty()
            } else {
                announced
            };
            &&& later.message_started
            &&& later.message_item_id == id
            &&& state.chunk_events(text_chunk(text), base, ids) == first.push(
                StreamEvent::TextDelta {
                    sequence_number: number + first.len(),
                    item_id: id,
                    output_index: place,
                    content_index: 0,
                    delta: text,
                    logprobs: Some(Seq::empty()),
                },
            )
        }),
{
    let state = after_stream(start, chunks, fresh);
    let base = state.calls.len() as int;
    let chunk = text_chunk(text);
    let after = state.after_chunk(chunk, base, ids);
    stream_passes_text(start, chunks, fresh);
    stream_announces_once(start, chunks, fresh);
    chunk_step(state, chunk, base, ids);
    stream_announces_once(after, more, more_fresh);
    assert(chunk.drop_last() =~= Seq::<Delta>::empty());
    reveal_with_fuel(ConverterState::chunk_events, 2);
    reveal_with_fuel(ConverterState::after_chunk, 2);
    reveal_with_fuel(ConverterState::tools_events, 1);
    reveal_with_fuel(ConverterState::after_tools, 1);
    assert(state.chunk_events(chunk, base, ids) =~= state.text_events(text));
    assert(after == state.after_text(text));
}

/// A chunk with one tool call.
pub open spec fn tool_chunk(tool: ToolDelta) -> Seq<Delta> {
    seq![Delta { content: Seq::empty(), tools: seq![tool] }]
}

/// A tool call that a stream brings gives no event where it has no arguments.
/// Where it has, if only empty ones, it gives one event that passes them on, and
/// before it, where the stream brought no arguments for that function call yet,
/// one that announces the call under its latest identifier and name.
pub proof fn tool_chunk_events(
    start: ConverterState,
    chunks: Seq<Seq<Delta>>,
    fresh: Seq<Seq<Seq<char>>>,
    tool: ToolDelta,
    ids: Seq<Seq<char>>,
)
    requires
        untouched(start),
    ensures
        ({
            let state = after_stream(start, chunks, fresh);
            let base = state.calls.len() as int;
            let after = state.after_chunk(tool_chunk(tool), base, ids);
            let index = tool.index as int;
            let earlier = stream_tools(chunks);
            let call = after.calls[index];
            let number = state.sequence_number;
            let first = if brings_arguments(earlier, index) {
                Seq::empty()
            } else {
                seq![
                    StreamEvent::ItemAdded {
                        sequence_number: number,
                        output_index: call.output_index,
                        item: Item::FunctionCall {
                            id: Some(call.item_id),
                            call_id: latest_id(earlier.push(tool), index),
                            name: latest_name(earlier.push(tool), index),
                            arguments: Seq::empty(),
                            status: Some(OutputStatus::InProgress),
                        },
                    },
                ]
            };
            state.chunk_events(tool_chunk(tool), base, ids) == (match tool.arguments {
                None => Seq::<StreamEvent>::empty(),
                Some(args) => first.push(
                    StreamEvent::ArgumentsDelta {
                        sequence_number: number + first.len(),
                        item_id: call.item_id,
                        output_index: call.output_index,
                        delta: args,
                    },
                ),
            })
        }),
{
    let state = after_stream(start, chunks, fresh);
    let base = state.calls.len() as int;
    let chunk = tool_chunk(tool);
    let earlier = stream_tools(chunks);
    let index = tool.index as int;
    stream_describes_calls(start, chunks, fresh);
    tool_describes(state, earlier, tool, base, ids);
    let after = state.after_tool(tool, base, ids);
    assert(chunk.drop_last() =~= Seq::<Delta>::empty());
    assert(seq![tool].drop_last() =~= Seq::<ToolDelta>::empty());
    reveal_with_fuel(ConverterState::chunk_events, 2);
    reveal_with_fuel(ConverterState::after_chunk, 2);
    reveal_with_fuel(ConverterState::tools_events, 2);
    reveal_with_fuel(ConverterState::after_tools, 2);
    assert(state.after_chunk(chunk, base, ids) == after);
    assert(state.chunk_events(chunk, base, ids) =~= state.tool_events(tool, base, ids));
    assert(described(after.calls[index], earlier.push(tool), index));
    let opened = state.with_calls(index + 1, base, ids);
    if index < state.calls.len() {
        assert(described(state.calls[index], earlier, index));
    } else {
        unmentioned(earlier, index);
    }
    assert(opened.calls[index].started == brings_arguments(earlier, index));
}

/// The function calls that have been announced, by number, in ascending order.
pub open spec fn announced_calls(tools: Seq<ToolDelta>, n: int) -> Seq<int>
    decreases n,
{
    if n <= 0 {
        Seq::empty()
    } else if brings_arguments(tools, n - 1) {
        announced_calls(tools, n - 1).push(n - 1)
    } else {
        announced_calls(tools, n - 1)
    }
}

/// The function calls that have been announced are those with arguments, each
/// once and in ascending order.
pub proof fn announced_calls_ascend(tools: Seq<ToolDelta>, n: int)
    ensures
        ({
            let list = announced_calls(tools, n);
            &&& forall|i: int, j: int|
                0 <= i < j < list.len() ==> #[trigger] list[i] < #[trigger] list[j]
            &&& forall|i: int|
                0 <= i < list.len() ==> 0 <= #[trigger] list[i] < n && brings_arguments(
                    tools,
                    list[i],
                )
            &&& forall|i: int|
                0 <= i < n && brings_arguments(tools, i) ==> #[trigger] list.contains(i)
        }),
    decreases n,
{
    if n > 0 {
        announced_calls_ascend(tools, n - 1);
        let before = announced_calls(tools, n - 1);
        let list = announced_calls(tools, n);
        assert forall|i: int| 0 <= i < n && brings_arguments(
            tools,
            i,
        ) implies #[trigger] list.contains(i) by {
            if i < n - 1 {
                assert(before.contains(i));
                let k = choose|k: int| 0 <= k < before.len() && before[k] == i;
                assert(list[k] == i);
            } else {
                assert(list[list.len() - 1] == i);
            }
        }
    }
}

/// The two events that close a function call, from `number` on.
pub open spec fn call_end(call: CallState, number: int) -> Seq<StreamEvent> {
    seq![
        StreamEvent::ArgumentsDone {
            sequence_number: number,
            item_id: call.item_id,
            output_index: call.output_index,
            arguments: call.arguments,
            name: Some(call.name),
        },
        StreamEvent::ItemDone {
            sequence_number: number + 1,
            output_index: call.output_index,
            item: call_item(call, call.arguments, OutputStatus::Completed),
        },
    ]
}

/// The events that close function calls, one after the other, from `number` on.
pub open spec fn calls_end(calls: Seq<CallState>, order: Seq<int>, number: int) -> Seq<StreamEvent>
    decreases order.len(),
{
    if order.len() == 0 {
        Seq::empty()
    } else {
        calls_end(calls, order.drop_last(), number) + call_end(
            calls[order.last()],
            number + 2 * (order.len() - 1),
        )
    }
}

proof fn calls_end_in_order(calls: Seq<CallState>, tools: Seq<ToolDelta>, n: int, number: int)
    requires
        0 <= n <= calls.len(),
        forall|i: int|
            0 <= i < calls.len() ==> (#[trigger] calls[i]).started == brings_arguments(tools, i),
    ensures
        ({
            let order = announced_calls(tools, n);
            &&& calls_end_events(calls.take(n), number) == calls_end(calls, order, number)
            &&& calls_end(calls, order, number).len() == 2 * order.len()
            &&& call_items(calls.take(n)) == order.map_values(
                |i: int| call_item(calls[i], calls[i].arguments, OutputStatus::Completed),
            )
        }),
    decreases n,
{
    let order = announced_calls(tools, n);
    let make = |i: int| call_item(calls[i], calls[i].arguments, OutputStatus::Completed);
    if n == 0 {
        assert(calls.take(n) =~= Seq::<CallState>::empty());
        assert(call_items(calls.take(n)) =~= order.map_values(make));
    } else {
        calls_end_in_order(calls, tools, n - 1, number);
        assert(calls.take(n).drop_last() =~= calls.take(n - 1));
        assert(calls.take(n).last() == calls[n - 1]);
        if calls[n - 1].started {
            assert(order.drop_last() =~= announced_calls(tools, n - 1));
            assert(calls_end_events(calls.take(n), number) =~= calls_end(calls, order, number));
        }
        assert(call_items(calls.take(n)) =~= order.map_values(make));
    }
}

/// A stream ends with the events that close the message, where the stream
/// brought text; then for each function call for which it brought arguments, in
/// ascending order, the two that close it; then the one that completes the
/// response, whose output is the message and those calls. Without text and
/// without arguments the last is the only one, and the output is empty.
pub proof fn stream_end_order(
    start: ConverterState,
    chunks: Seq<Seq<Delta>>,
    fresh: Seq<Seq<Seq<char>>>,
    now: u64,
)
    requires
        untouched(start),
    ensures
        ({
            let ended = after_stream(start, chunks, fresh);
            let order = announced_calls(stream_tools(chunks), ended.calls.len() as int);
            let number = ended.sequence_number;
            let message = if stream_text(chunks).len() > 0 {
                seq![
                    StreamEvent::TextDone {
                        sequence_number: number,
                        item_id: start.message_item_id,
                        output_index: ended.message_output_index,
                        content_index: 0,
                        text: stream_text(chunks),
                        logprobs: Some(Seq::empty()),
                    },
                    StreamEvent::PartDone {
                        sequence_number: number + 1,
                        item_id: start.message_item_id,
                        output_index: ended.message_output_index,
                        content_index: 0,
                        part: plain_part(stream_text(chunks)),
                    },
                    StreamEvent::ItemDone {
                        sequence_number: number + 2,
                        output_index: ended.message_output_index,
                        item: Item::Message {
                            id: start.message_item_id,
                            role: AssistantRole::Assistant,
                            content: seq![plain_part(stream_text(chunks))],
                            status: OutputStatus::Completed,
                        },
                    },
                ]
            } else {
                Seq::empty()
            };
            let calls = calls_end(ended.calls, order, number + message.len());
            let output = (if stream_text(chunks).len() > 0 {
                seq![
                    Item::Message {
                        id: start.message_item_id,
                        role: AssistantRole::Assistant,
                        content: seq![plain_part(stream_text(chunks))],
                        status: OutputStatus::Completed,
                    },
                ]
            } else {
                Seq::empty()
            }) + order.map_values(
                |i: int|
                    call_item(ended.calls[i], ended.calls[i].arguments, OutputStatus::Completed),
            );
            &&& calls.len() == 2 * order.len()
            &&& ended.end_events(now) == (message + calls).push(
                StreamEvent::Completed {
                    sequence_number: number + message.len() + calls.len(),
                    response: ended.final_response(now),
                },
            )
            &&& ended.final_response(now).output == output
            &&& stream_text(chunks).len() == 0 && (forall|i: int|
                !#[trigger] brings_arguments(stream_tools(chunks), i)) ==> ended.end_events(
                now,
            ).len() == 1 && output.len() == 0
        }),
{
    let ended = after_stream(start, chunks, fresh);
    let tools = stream_tools(chunks);
    stream_passes_text(start, chunks, fresh);
    stream_describes_calls(start, chunks, fresh);
    stream_announces_once(start, chunks, fresh);
    assert forall|i: int| 0 <= i < ended.calls.len() implies (#[trigger] ended.calls[i]).started
        == brings_arguments(tools, i) by {
        assert(described(ended.calls[i], tools, i));
    }
    let message = ended.message_end_events();
    calls_end_in_order(
        ended.calls,
        tools,
        ended.calls.len() as int,
        ended.sequence_number + message.len(),
    );
    assert(ended.calls.take(ended.calls.len() as int) =~= ended.calls);
    assert(ended.message_item_id == start.message_item_id);
    let order = announced_calls(tools, ended.calls.len() as int);
    announced_calls_ascend(tools, ended.calls.len() as int);
    assert(order.len() > 0 ==> brings_arguments(tools, order[0]));
    assert(ended.output_items() =~= (if stream_text(chunks).len() > 0 {
        seq![
            Item::Message {
                id: start.message_item_id,
                role: AssistantRole::Assistant,
                content: seq![plain_part(stream_text(chunks))],
                status: OutputStatus::Completed,
            },
        ]
    } else {
        Seq::empty()
    }) + order.map_values(
        |i: int| call_item(ended.calls[i], ended.calls[i].arguments, OutputStatus::Completed),
    ));
}

/// At the end of a stream, the text that is declared done is all the text that
/// the stream passed on, and the arguments of each function call that are
/// declared done are all that the stream passed on for it, and all that it
/// brought for it.
pub proof fn stream_end_holds_all(
    start: ConverterState,
    chunks: Seq<Seq<Delta>>,
    fresh: Seq<Seq<Seq<char>>>,
    i: int,
)
    requires
        untouched(start),
        0 <= i < after_stream(start, chunks, fresh).calls.len(),
    ensures
        ({
            let ended = after_stream(start, chunks, fresh);
            let events = stream_events(start, chunks, fresh);
            &&& ended.text == passed_text(events)
            &&& ended.text == stream_text(chunks)
            &&& ended.calls[i].arguments == passed_arguments(events, ended.calls[i].output_index)
            &&& ended.calls[i].arguments == brought_arguments(stream_tools(chunks), i)
        }),
{
    stream_passes_text(start, chunks, fresh);
    stream_passes_arguments(start, chunks, fresh, i);
    stream_describes_calls(start, chunks, fresh);
    assert(described(
        after_stream(start, chunks, fresh).calls[i],
        stream_tools(chunks),
        i,
    ));
}

/// Chunks leave a response's identifier, its model and its time of creation as they
/// were, and the message's identifier, and whether the response is to be stored.
pub proof fn stream_keeps_identity(
    start: ConverterState,
    chunks: Seq<Seq<Delta>>,
    fresh: Seq<Seq<Seq<char>>>,
)
    ensures
        ({
            let after = after_stream(start, chunks, fresh);
            &&& after.response_id == start.response_id
            &&& after.model == start.model
            &&& after.created_at == start.created_at
            &&& after.message_item_id == start.message_item_id
            &&& after.stores == start.stores
        }),
    decreases chunks.len(),
{
    if chunks.len() > 0 {
        stream_keeps_identity(start, chunks.drop_last(), fresh);
        let before = after_stream(start, chunks.drop_last(), fresh);
        chunk_keeps_identity(
            before,
            chunks.last(),
            before.calls.len() as int,
            fresh[chunks.len() - 1],
        );
    }
}

/// Whether a converter is still that of the same response.
pub open spec fn same_identity(a: ConverterState, b: ConverterState) -> bool {
    &&& a.response_id == b.response_id
    &&& a.model == b.model
    &&& a.created_at == b.created_at
    &&& a.message_item_id == b.message_item_id
    &&& a.stores == b.stores
}

proof fn tools_keep_identity(
    state: ConverterState,
    tools: Seq<ToolDelta>,
    base: int,
    fresh: Seq<Seq<char>>,
)
    ensures
        same_identity(state, state.after_tools(tools, base, fresh)),
    decreases tools.len(),
{
    if tools.len() > 0 {
        tools_keep_identity(state, tools.drop_last(), base, fresh);
    }
}

proof fn chunk_keeps_identity(
    state: ConverterState,
    chunk: Seq<Delta>,
    base: int,
    fresh: Seq<Seq<char>>,
)
    ensures
        same_identity(state, state.after_chunk(chunk, base, fresh)),
    decreases chunk.len(),
{
    if chunk.len() > 0 {
        chunk_keeps_identity(state, chunk.drop_last(), base, fresh);
        let before = state.after_chunk(chunk.drop_last(), base, fresh);
        tools_keep_identity(
            before.after_text(chunk.last().content),
            chunk.last().tools,
            base,
            fresh,
        );
    }
}

} // verus!
