//! JSON values as plain data, with a mathematical view of each.

use crate::text::text_eq;
use vstd::prelude::*;

verus! {

/// A JSON number, as it was read.
#[derive(Debug, Clone, Copy, PartialEq, Eq, Structural)]
pub enum JsonNumber {
    /// An integer that is not negative.
    PosInt(u64),
    /// A negative integer.
    NegInt(i64),
    /// Any other number, as the bits of an IEEE 754 double.
    Float {
        /// The bits of the double.
        bits: u64,
    },
}

/// A JSON value.
#[derive(Debug, PartialEq, Eq)]
pub enum JsonValue {
    /// `null`
    Null,
    /// `true` or `false`
    Bool(bool),
    /// A number.
    Number(JsonNumber),
    /// A string.
    String(String),
    /// An array.
    Array(Vec<JsonValue>),
    /// An object: its members in order.
    Object(Vec<JsonMember>),
}

/// A member of a JSON object.
#[derive(Debug, PartialEq, Eq)]
pub struct JsonMember {
    /// The member's name.
    pub name: String,
    /// The member's value.
    pub value: JsonValue,
}

/// What a JSON value is, as mathematics.
pub enum Json {
    /// `null`
    Null,
    /// `true` or `false`
    Bool(bool),
    /// A number.
    Number(JsonNumber),
    /// A string.
    Text(Seq<char>),
    /// An array.
    Array(Seq<Json>),
    /// An object: its members in order.
    Object(Seq<(Seq<char>, Json)>),
}

impl JsonValue {
    /// The value as mathematics.
    pub open spec fn view(&self) -> Json
        decreases self,
    {
        match self {
            JsonValue::Null => Json::Null,
            JsonValue::Bool(b) => Json::Bool(*b),
            JsonValue::Number(n) => Json::Number(*n),
            JsonValue::String(s) => Json::Text(s@),
            JsonValue::Array(items) => Json::Array(json_views(items@)),
            JsonValue::Object(members) => Json::Object(member_views(members@)),
        }
    }
}

impl JsonMember {
    /// The member's name and value as mathematics.
    pub open spec fn view(&self) -> (Seq<char>, Json)
        decreases self,
    {
        (self.name@, self.value.view())
    }
}

/// The views of a sequence of values.
pub open spec fn json_views(items: Seq<JsonValue>) -> Seq<Json>
    decreases items,
{
    if items.len() == 0 {
        Seq::empty()
    } else {
        json_views(items.drop_last()).push(items.last().view())
    }
}

/// The views of a sequence of members.
pub open spec fn member_views(members: Seq<JsonMember>) -> Seq<(Seq<char>, Json)>
    decreases members,
{
    if members.len() == 0 {
        Seq::empty()
    } else {
        member_views(members.drop_last()).push(members.last().view())
    }
}

/// `json_views` keeps the length and maps each item.
pub broadcast proof fn json_views_items(items: Seq<JsonValue>)
    ensures
        (#[trigger] json_views(items)).len() == items.len(),
        forall|i: int|
            0 <= i < items.len() ==> #[trigger] json_views(items)[i] == items[i].view(),
    decreases items.len(),
{
    if items.len() > 0 {
        json_views_items(items.drop_last());
    }
}

/// `member_views` keeps the length and maps each member.
pub broadcast proof fn member_views_items(members: Seq<JsonMember>)
    ensures
        (#[trigger] member_views(members)).len() == members.len(),
        forall|i: int|
            0 <= i < members.len() ==> #[trigger] member_views(members)[i] == members[i].view(),
    decreases members.len(),
{
    if members.len() > 0 {
        member_views_items(members.drop_last());
    }
}

/// The value of the first member called `name`.
pub open spec fn member_named(members: Seq<(Seq<char>, Json)>, name: Seq<char>) -> Option<Json>
    decreases members.len(),
{
    if members.len() == 0 {
        None
    } else if members[0].0 == name {
        Some(members[0].1)
    } else {
        member_named(members.drop_first(), name)
    }
}

/// Whether the first member called `name` stands at place `k`.
pub open spec fn first_named(members: Seq<(Seq<char>, Json)>, name: Seq<char>, k: int) -> bool {
    &&& 0 <= k < members.len()
    &&& members[k].0 == name
    &&& forall|j: int| 0 <= j < k ==> (#[trigger] members[j]).0 != name
}

/// A member that is looked for by its name is the first with that name, and none
/// is found only where none has it.
pub proof fn first_member_is_named(members: Seq<(Seq<char>, Json)>, name: Seq<char>)
    ensures
        match member_named(members, name) {
            Some(value) => exists|k: int| #[trigger]
                first_named(members, name, k) && members[k].1 == value,
            None => forall|k: int| 0 <= k < members.len() ==> (#[trigger] members[k]).0 != name,
        },
    decreases members.len(),
{
    if members.len() > 0 {
        let rest = members.drop_first();
        if members[0].0 == name {
            assert(first_named(members, name, 0));
        } else {
            first_member_is_named(rest, name);
            match member_named(rest, name) {
                Some(value) => {
                    let k = choose|k: int| #[trigger]
                        first_named(rest, name, k) && rest[k].1 == value;
                    assert(first_named(rest, name, k));
                    assert forall|j: int| 0 <= j < k + 1 implies (#[trigger] members[j]).0
                        != name by {
                        if j > 0 {
                            assert(rest[j - 1].0 != name);
                        }
                    }
                    assert(first_named(members, name, k + 1));
                },
                None => {
                    assert forall|k: int| 0 <= k < members.len() implies (#[trigger] members[k]).0
                        != name by {
                        if k > 0 {
                            assert(rest[k - 1].0 != name);
                        }
                    }
                },
            }
        }
    }
}

impl Json {
    /// The string, where the value is one.
    pub open spec fn as_text(self) -> Option<Seq<char>> {
        match self {
            Json::Text(s) => Some(s),
            _ => None,
        }
    }

    /// The member called `name`, where the value is an object that has one.
    pub open spec fn member(self, name: Seq<char>) -> Option<Json> {
        match self {
            Json::Object(members) => member_named(members, name),
            _ => None,
        }
    }
}

/// The text of the member called `name`, where there is such a member and it
/// is a string.
pub open spec fn text_member(members: Seq<(Seq<char>, Json)>, name: Seq<char>) -> Option<Seq<char>> {
    match member_named(members, name) {
        Some(value) => value.as_text(),
        None => None,
    }
}

/// The value of the first member called `name`.
pub fn find_member<'a>(members: &'a Vec<JsonMember>, name: &str) -> (res: Option<&'a JsonValue>)
    ensures
        match res {
            Some(value) => member_named(member_views(members@), name@) == Some(value@),
            None => member_named(member_views(members@), name@) is None,
        },
{
    broadcast use member_views_items;

    let ghost all = member_views(members@);
    let mut i: usize = 0;
    assert(all.skip(0) =~= all);
    while i < members.len()
        invariant
            i <= members.len(),
            all == member_views(members@),
            member_named(all, name@) == member_named(all.skip(i as int), name@),
        decreases members.len() - i,
    {
        broadcast use member_views_items;

        if text_eq(members[i].name.as_str(), name) {
            return Some(&members[i].value);
        }
        proof {
            assert(all.skip(i as int).drop_first() =~= all.skip(i + 1));
        }
        i = i + 1;
    }
    None
}

/// The text of the member called `name`, where it is a string.
pub fn find_text<'a>(members: &'a Vec<JsonMember>, name: &str) -> (res: Option<&'a str>)
    ensures
        match res {
            Some(text) => text_member(member_views(members@), name@) == Some(text@),
            None => text_member(member_views(members@), name@) is None,
        },
{
    match find_member(members, name) {
        Some(value) => value.as_str(),
        None => None,
    }
}

impl JsonValue {
    /// The string, where the value is one.
    pub fn as_str(&self) -> (res: Option<&str>)
        ensures
            match res {
                Some(text) => self@.as_text() == Some(text@),
                None => self@.as_text() is None,
            },
    {
        match self {
            JsonValue::String(s) => Some(s.as_str()),
            _ => None,
        }
    }

    /// The member called `name`, where the value is an object that has one.
    pub fn get(&self, name: &str) -> (res: Option<&JsonValue>)
        ensures
            match res {
                Some(value) => self@.member(name@) == Some(value@),
                None => self@.member(name@) is None,
            },
    {
        match self {
            JsonValue::Object(members) => find_member(members, name),
            _ => None,
        }
    }

    /// A value of its own that is the same.
    pub fn duplicate(&self) -> (res: JsonValue)
        ensures
            res@ == self@,
        decreases self,
    {
        match self {
            JsonValue::Null => JsonValue::Null,
            JsonValue::Bool(b) => JsonValue::Bool(*b),
            JsonValue::Number(n) => JsonValue::Number(*n),
            JsonValue::String(s) => JsonValue::String(s.clone()),
            JsonValue::Array(items) => {
                let mut copies: Vec<JsonValue> = Vec::new();
                let mut i: usize = 0;
                while i < items.len()
                    invariant
                        i <= items.len(),
                        *self == JsonValue::Array(*items),
                        json_views(copies@) == json_views(items@).take(i as int),
                        copies.len() == i,
                    decreases items.len() - i,
                {
                    broadcast use json_views_items;

                    assert(decreases_to!(*self => self->Array_0));
                    assert(decreases_to!(*items => items@));
                    assert(decreases_to!(items@ => items@[i as int]));
                    let copy = items[i].duplicate();
                    proof {
                        assert(copies@.push(copy).drop_last() =~= copies@);
                        assert(json_views(items@).take(i + 1) =~= json_views(items@).take(
                            i as int,
                        ).push(copy@));
                    }
                    copies.push(copy);
                    i = i + 1;
                }
                proof {
                    broadcast use json_views_items;

                    assert(json_views(items@).take(items@.len() as int) =~= json_views(items@));
                }
                JsonValue::Array(copies)
            },
            JsonValue::Object(members) => {
                let mut copies: Vec<JsonMember> = Vec::new();
                let mut i: usize = 0;
                while i < members.len()
                    invariant
                        i <= members.len(),
                        *self == JsonValue::Object(*members),
                        member_views(copies@) == member_views(members@).take(i as int),
                        copies.len() == i,
                    decreases members.len() - i,
                {
                    broadcast use member_views_items;

                    assert(decreases_to!(*self => self->Object_0));
                    assert(decreases_to!(*members => members@));
                    assert(decreases_to!(members@ => members@[i as int]));
                    assert(decreases_to!(members@[i as int] => members@[i as int].value));
                    let value = members[i].value.duplicate();
                    let copy = JsonMember { name: members[i].name.clone(), value };
                    proof {
                        assert(copies@.push(copy).drop_last() =~= copies@);
                        assert(member_views(members@).take(i + 1) =~= member_views(members@).take(
                            i as int,
                        ).push(copy@));
                    }
                    copies.push(copy);
                    i = i + 1;
                }
                proof {
                    broadcast use member_views_items;

                    assert(member_views(members@).take(members@.len() as int) =~= member_views(
                        members@,
                    ));
                }
                JsonValue::Object(copies)
            },
        }
    }
}

impl Clone for JsonValue {
    fn clone(&self) -> (res: Self)
        ensures
            res@ == self@,
    {
        self.duplicate()
    }
}

impl Clone for JsonMember {
    fn clone(&self) -> (res: Self)
        ensures
            res@ == self@,
    {
        JsonMember { name: self.name.clone(), value: self.value.duplicate() }
    }
}

} // verus!
