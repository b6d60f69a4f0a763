//! What holds of plain values — JSON, spans of time, identifiers and the headers of a
//! request —, stated on what goes in and what comes out.

use crate::clock::{seconds_of, seconds_or_epoch};
use crate::http::session::{extract_session, RequestSession};
use crate::ids::{new_id, new_prefixed_id};
use crate::json;
use crate::json::{find_member, find_text, JsonMember, JsonValue};
use crate::storage::list_laws::same_stored;
use crate::storage::records::StoredResponse;
use crate::time::{Duration, Instant};
use std::time::SystemTimeError;
use vstd::prelude::*;

verus! {

/// Two JSON values that are seen as the same are the same: both nothing, the same truth
/// value, number or string, arrays of the same items, or objects of the same members
/// in the same order.
pub proof fn seen_alike_is_alike(a: JsonValue, b: JsonValue)
    requires
        a@ == b@,
    ensures
        match a {
            JsonValue::Null => b is Null,
            JsonValue::Bool(x) => b == JsonValue::Bool(x),
            JsonValue::Number(x) => b == JsonValue::Number(x),
            JsonValue::String(x) => b matches JsonValue::String(y) && x@ == y@,
            JsonValue::Array(x) => b matches JsonValue::Array(y) && x@.len() == y@.len() && (
            forall|i: int| 0 <= i < x@.len() ==> (#[trigger] x@[i])@ == y@[i]@),
            JsonValue::Object(x) => b matches JsonValue::Object(y) && x@.len() == y@.len() && (
            forall|i: int|
                0 <= i < x@.len() ==> (#[trigger] x@[i]).name@ == y@[i].name@ && x@[i].value@
                    == y@[i].value@),
        },
{
    broadcast use {json::json_views_items, json::member_views_items};

    match (a, b) {
        (JsonValue::Array(x), JsonValue::Array(y)) => {
            assert(json::json_views(x@).len() == json::json_views(y@).len());
            assert forall|i: int| 0 <= i < x@.len() implies (#[trigger] x@[i])@ == y@[i]@ by {
                assert(json::json_views(x@)[i] == x@[i]@);
                assert(json::json_views(y@)[i] == y@[i]@);
            }
        },
        (JsonValue::Object(x), JsonValue::Object(y)) => {
            assert(json::member_views(x@).len() == json::member_views(y@).len());
            assert forall|i: int| 0 <= i < x@.len() implies (#[trigger] x@[i]).name@
                == y@[i].name@ && x@[i].value@ == y@[i].value@ by {
                assert(json::member_views(x@)[i] == x@[i]@);
                assert(json::member_views(y@)[i] == y@[i]@);
            }
        },
        _ => {},
    }
}

/// A copy of a JSON value is the same value.
pub proof fn copied_value_same(value: &JsonValue, copy: JsonValue, cloned: JsonValue)
    requires
        call_ensures(JsonValue::duplicate, (value,), copy),
        call_ensures(<JsonValue as Clone>::clone, (value,), cloned),
    ensures
        copy@ == value@,
        cloned@ == value@,
{
}

/// A copy of a member has its name and its value.
pub proof fn copied_member_same(member: &JsonMember, cloned: JsonMember)
    requires
        call_ensures(<JsonMember as Clone>::clone, (member,), cloned),
    ensures
        cloned.name@ == member.name@,
        cloned.value@ == member.value@,
{
}

/// A copy of a stored response holds the same.
pub proof fn copied_response_same(
    stored: &StoredResponse,
    copy: StoredResponse,
    cloned: StoredResponse,
)
    requires
        call_ensures(StoredResponse::duplicate, (stored,), copy),
        call_ensures(<StoredResponse as Clone>::clone, (stored,), cloned),
    ensures
        same_stored(copy, *stored),
        same_stored(cloned, *stored),
{
}

/// The text of a value is what its string holds; no other value has one.
pub proof fn text_of_string(value: &JsonValue, res: Option<&str>)
    requires
        call_ensures(JsonValue::as_str, (value,), res),
    ensures
        value matches JsonValue::String(s) ==> (res matches Some(t) && t@ == s@),
        !(value is String) ==> res is None,
{
}

/// Whether the first member called `name` stands at place `k`.
pub open spec fn first_called(members: Seq<JsonMember>, name: Seq<char>, k: int) -> bool {
    &&& 0 <= k < members.len()
    &&& members[k].name@ == name
    &&& forall|j: int| 0 <= j < k ==> (#[trigger] members[j]).name@ != name
}

/// Whether some member is called `name`.
pub open spec fn has_member(members: Seq<JsonMember>, name: Seq<char>) -> bool {
    exists|k: int| 0 <= k < members.len() && (#[trigger] members[k]).name@ == name
}

/// A member is found by its name: the first that has it, and none only where none has
/// it. Its text is found where it is a string.
pub proof fn member_is_found(
    members: &Vec<JsonMember>,
    name: &str,
    res: Option<&JsonValue>,
    text: Option<&str>,
)
    requires
        call_ensures(find_member, (members, name), res),
        call_ensures(find_text, (members, name), text),
    ensures
        res is Some <==> has_member(members@, name@),
        res matches Some(value) ==> exists|k: int| #[trigger]
            first_called(members@, name@, k) && members@[k].value@ == value@,
        text matches Some(t) ==> (res matches Some(value) && (*value matches JsonValue::String(
            s,
        ) && t@ == s@)),
        text is None ==> (res matches Some(value) ==> !(*value is String)),
{
    broadcast use json::member_views_items;

    let all = json::member_views(members@);
    json::first_member_is_named(all, name@);
    assert forall|k: int| 0 <= k < all.len() implies (#[trigger] all[k]).0 == members@[k].name@
        && all[k].1 == members@[k].value@ by {
        assert(all[k] == members@[k]@);
    }
    if let Some(value) = res {
        let k = choose|k: int| #[trigger]
            json::first_named(all, name@, k) && all[k].1 == value@;
        assert(json::first_named(all, name@, k));
        assert forall|j: int| 0 <= j < k implies (#[trigger] members@[j]).name@ != name@ by {
            assert(all[j].0 != name@);
        }
        assert(first_called(members@, name@, k));
        assert(members@[k].name@ == name@);
    } else {
        assert forall|k: int| 0 <= k < members@.len() implies (#[trigger] members@[k]).name@
            != name@ by {
            assert(all[k].0 != name@);
        }
    }
}

/// A value has the members of an object, and none where it is no object.
pub proof fn member_of_object(
    value: &JsonValue,
    name: &str,
    res: Option<&JsonValue>,
    found: Option<&JsonValue>,
)
    requires
        call_ensures(JsonValue::get, (value, name), res),
        value matches JsonValue::Object(members) ==> call_ensures(
            find_member,
            (&members, name),
            found,
        ),
    ensures
        !(value is Object) ==> res is None,
        value is Object ==> (res is Some <==> found is Some),
        value is Object && res is Some ==> res->0@ == found->0@,
{
}

/// A span of seconds and nanoseconds gives both back, and counts a thousand
/// milliseconds in a second.
pub proof fn span_gives_back(
    secs: u64,
    nanos: u32,
    span: Duration,
    res_secs: u64,
    res_nanos: u32,
    millis: u128,
)
    requires
        nanos < 1_000_000_000,
        call_ensures(Duration::new, (secs, nanos), span),
        call_ensures(Duration::as_secs, (&span,), res_secs),
        call_ensures(Duration::subsec_nanos, (&span,), res_nanos),
        call_ensures(Duration::as_millis, (&span,), millis),
    ensures
        span@ == secs * 1_000_000_000 + nanos,
        res_secs == secs,
        res_nanos == nanos,
        millis == secs * 1_000 + nanos / 1_000_000,
{
}

/// A second is a thousand milliseconds, and a span of whole seconds or milliseconds
/// gives them back.
pub proof fn whole_spans_give_back(
    secs: u64,
    span: Duration,
    res_secs: u64,
    rest: u32,
    millis: u64,
    short: Duration,
    res_millis: u128,
)
    requires
        call_ensures(Duration::from_secs, (secs,), span),
        call_ensures(Duration::as_secs, (&span,), res_secs),
        call_ensures(Duration::subsec_nanos, (&span,), rest),
        call_ensures(Duration::from_millis, (millis,), short),
        call_ensures(Duration::as_millis, (&short,), res_millis),
    ensures
        res_secs == secs,
        rest == 0,
        res_millis == millis,
        millis == secs * 1_000 ==> short@ == span@,
{
}

/// The shorter of two spans is one of them, and neither is shorter.
pub proof fn shorter_span(
    a: Duration,
    b: Duration,
    shorter: Duration,
    a_reaches: bool,
    b_reaches: bool,
    at_least: bool,
)
    requires
        call_ensures(Duration::min, (a, b), shorter),
        call_ensures(Duration::at_least, (&a, shorter), a_reaches),
        call_ensures(Duration::at_least, (&b, shorter), b_reaches),
        call_ensures(Duration::at_least, (&a, b), at_least),
    ensures
        shorter == a || shorter == b,
        a_reaches,
        b_reaches,
        at_least <==> a@ >= b@,
{
}

/// The milliseconds between two moments are whole: no more than what passed, and less
/// than one below it; none where the other moment is later.
pub proof fn millis_passed(later: Instant, earlier: Instant, res: u64)
    requires
        call_ensures(Instant::millis_since, (&later, earlier), res),
    ensures
        later.nanos < earlier.nanos ==> res == 0,
        later.nanos >= earlier.nanos ==> res * 1_000_000 <= later.nanos - earlier.nanos < (res
            + 1) * 1_000_000,
{
}

/// A reading of the clock is the whole seconds of its span, or nothing; and the epoch
/// stands for nothing.
pub proof fn reading_in_seconds(
    secs: u64,
    nanos: u32,
    span: Duration,
    error: SystemTimeError,
    read: Option<u64>,
    unread: Option<u64>,
    held: u64,
    epoch: u64,
)
    requires
        nanos < 1_000_000_000,
        call_ensures(Duration::new, (secs, nanos), span),
        call_ensures(seconds_of, (Ok::<Duration, SystemTimeError>(span),), read),
        call_ensures(seconds_of, (Err::<Duration, SystemTimeError>(error),), unread),
        call_ensures(seconds_or_epoch, (read,), held),
        call_ensures(seconds_or_epoch, (unread,), epoch),
    ensures
        read == Some(secs),
        unread is None,
        held == secs,
        epoch == 0,
{
}

/// Whether a character is a lower-case hexadecimal digit.
pub open spec fn is_hex(c: char) -> bool {
    let n = c as int;
    ('0' as int <= n <= '9' as int) || ('a' as int <= n <= 'f' as int)
}

/// A fresh identifier is its prefix and 32 digits.
pub proof fn prefixed_id_holds(prefix: &str, res: String)
    requires
        call_ensures(new_prefixed_id, (prefix,), res),
    ensures
        res@.len() == prefix@.len() + 32,
        forall|i: int| 0 <= i < prefix@.len() ==> (#[trigger] res@[i]) == prefix@[i],
        forall|i: int| prefix@.len() <= i < res@.len() ==> is_hex(#[trigger] res@[i]),
        res@[prefix@.len() as int + 12] == '4',
{
    let n = prefix@.len() as int;
    let rest = res@.skip(n);
    assert forall|i: int| 0 <= i < n implies (#[trigger] res@[i]) == prefix@[i] by {
        assert(res@.take(n)[i] == res@[i]);
    }
    assert forall|i: int| n <= i < res@.len() implies is_hex(#[trigger] res@[i]) by {
        assert(rest[i - n] == res@[i]);
    }
    assert(rest[12] == res@[n + 12]);
}

/// A fresh identifier without a prefix is 32 digits in five groups.
pub proof fn id_holds(res: String)
    requires
        call_ensures(new_id, (), res),
    ensures
        res@.len() == 36,
        res@[8] == '-' && res@[13] == '-' && res@[18] == '-' && res@[23] == '-',
        forall|i: int|
            0 <= i < 36 && i != 8 && i != 13 && i != 18 && i != 23 ==> is_hex(#[trigger] res@[i]),
        res@[14] == '4',
{
}

/// Whether a header holds an identifier: it is there and not empty, and each of its
/// bytes is a visible ASCII character, a space or a tab.
pub open spec fn holds_id(header: Option<&[u8]>) -> bool {
    &&& header matches Some(bytes)
    &&& bytes@.len() > 0
    &&& forall|i: int|
        0 <= i < bytes@.len() ==> 32 <= (#[trigger] bytes@[i]) <= 126 || bytes@[i] == 9
}

/// Whether a text is made of the bytes of a header, one character for each.
pub open spec fn spelled(text: Seq<char>, header: Option<&[u8]>) -> bool {
    &&& header matches Some(bytes)
    &&& text.len() == bytes@.len()
    &&& forall|i: int| 0 <= i < text.len() ==> (#[trigger] text[i]) as int == bytes@[i] as int
}

/// A request has a session where both headers hold an identifier; the tenant is the
/// one of the first and the session the one of the second. Any other request is
/// answered with the status for a bad one.
pub proof fn session_of_headers(
    tenant: Option<&[u8]>,
    session: Option<&[u8]>,
    res: Result<RequestSession, u16>,
)
    requires
        call_ensures(extract_session, (tenant, session), res),
    ensures
        res is Ok <==> holds_id(tenant) && holds_id(session),
        res matches Ok(found) ==> spelled(found.tenant_id@, tenant) && spelled(
            found.session_id@,
            session,
        ),
        res matches Err(status) ==> status == 400,
{
}

} // verus!
