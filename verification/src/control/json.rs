//! A JSON value the verified logic can build and read.

use vstd::prelude::*;
use crate::text::{parse_decimal, parse_unsigned, str_eq};

verus! {

/// One JSON value. Numbers keep their literal text; objects keep their
/// members in order.
#[derive(Debug, PartialEq, Eq)]
pub enum Json {
    /// `null`.
    Null,
    /// `true` or `false`.
    Bool(bool),
    /// A number, as its literal text.
    Number(String),
    /// A string.
    String(String),
    /// An array.
    Array(Vec<Json>),
    /// An object: its members, in order.
    Object(Vec<(String, Json)>),
}

/// What a JSON value holds, as mathematical values.
pub enum JsonView {
    /// `null`.
    Null,
    /// `true` or `false`.
    Bool(bool),
    /// A number's literal text.
    Number(Seq<char>),
    /// A string.
    String(Seq<char>),
    /// An array.
    Array(Seq<JsonView>),
    /// An object's members, in order.
    Object(Seq<(Seq<char>, JsonView)>),
}

/// The view of each item of `items`.
pub open spec fn json_items(items: Seq<Json>) -> Seq<JsonView>
    decreases items,
{
    if items.len() == 0 {
        Seq::empty()
    } else {
        json_items(items.subrange(0, items.len() - 1)).push(json_view(items[items.len() - 1]))
    }
}

/// The view of each member of `members`.
pub open spec fn json_members(members: Seq<(String, Json)>) -> Seq<(Seq<char>, JsonView)>
    decreases members,
{
    if members.len() == 0 {
        Seq::empty()
    } else {
        let last = members[members.len() - 1];
        json_members(members.subrange(0, members.len() - 1)).push((last.0@, json_view(last.1)))
    }
}

/// What `value` holds.
pub open spec fn json_view(value: Json) -> JsonView
    decreases value,
{
    match value {
        Json::Null => JsonView::Null,
        Json::Bool(b) => JsonView::Bool(b),
        Json::Number(t) => JsonView::Number(t@),
        Json::String(t) => JsonView::String(t@),
        Json::Array(items) => JsonView::Array(json_items(items@)),
        Json::Object(members) => JsonView::Object(json_members(members@)),
    }
}

impl View for Json {
    type V = JsonView;

    open spec fn view(&self) -> JsonView {
        json_view(*self)
    }
}

/// The first member of `members` named `key`.
pub open spec fn member_named(members: Seq<(Seq<char>, JsonView)>, key: Seq<char>) -> Option<JsonView>
    decreases members.len(),
{
    if members.len() == 0 {
        None
    } else if members[0].0 == key {
        Some(members[0].1)
    } else {
        member_named(members.drop_first(), key)
    }
}

/// The member `key` of an object; nothing for any other value.
pub open spec fn get_spec(v: JsonView, key: Seq<char>) -> Option<JsonView> {
    match v {
        JsonView::Object(members) => member_named(members, key),
        _ => None,
    }
}

/// A number written as a plain decimal that fits in a `u64`.
pub open spec fn as_u64_spec(v: JsonView) -> Option<nat> {
    match v {
        JsonView::Number(t) => parse_unsigned(t, u64::MAX as nat, false),
        _ => None,
    }
}

/// A string's text.
pub open spec fn as_str_spec(v: JsonView) -> Option<Seq<char>> {
    match v {
        JsonView::String(t) => Some(t),
        _ => None,
    }
}

proof fn lemma_json_members_len(members: Seq<(String, Json)>)
    ensures
        json_members(members).len() == members.len(),
        forall|i: int|
            0 <= i < members.len() ==> #[trigger] json_members(members)[i] == (
                members[i].0@,
                json_view(members[i].1),
            ),
    decreases members.len(),
{
    if members.len() > 0 {
        lemma_json_members_len(members.subrange(0, members.len() - 1));
    }
}

proof fn lemma_json_items_len(items: Seq<Json>)
    ensures
        json_items(items).len() == items.len(),
        forall|i: int| 0 <= i < items.len() ==> #[trigger] json_items(items)[i] == json_view(items[i]),
    decreases items.len(),
{
    if items.len() > 0 {
        lemma_json_items_len(items.subrange(0, items.len() - 1));
    }
}

impl Json {
    /// The member `key` of an object: its first member of that name.
    pub fn get(&self, key: &str) -> (r: Option<&Json>)
        ensures
            match get_spec(self@, key@) {
                Some(v) => r is Some && r->Some_0@ == v,
                None => r is None,
            },
    {
        match self {
            Json::Object(members) => {
                proof {
                    lemma_json_members_len(members@);
                }
                let ghost ms = json_members(members@);
                assert(self@ == JsonView::Object(ms));
                assert(ms.skip(0) == ms);
                let mut i: usize = 0;
                while i < members.len()
                    invariant
                        i <= members@.len(),
                        ms == json_members(members@),
                        self@ == JsonView::Object(ms),
                        ms.len() == members@.len(),
                        member_named(ms, key@) == member_named(ms.skip(i as int), key@),
                        forall|k: int|
                            0 <= k < members@.len() ==> #[trigger] ms[k] == (
                                members@[k].0@,
                                json_view(members@[k].1),
                            ),
                    decreases members@.len() - i,
                {
                    assert(ms.skip(i as int)[0] == ms[i as int]);
                    assert(ms.skip(i as int).drop_first() == ms.skip(i + 1));
                    if str_eq(members[i].0.as_str(), key) {
                        assert(member_named(ms.skip(i as int), key@) == Some(ms[i as int].1));
                        return Some(&members[i].1);
                    }
                    i += 1;
                }
                None
            },
            _ => None,
        }
    }

    /// The value as a `u64`, when it is a plain decimal number that fits.
    pub fn as_u64(&self) -> (r: Option<u64>)
        ensures
            match as_u64_spec(self@) {
                Some(n) => r is Some && r->Some_0 as nat == n,
                None => r is None,
            },
    {
        match self {
            Json::Number(text) => parse_decimal(text.as_str(), u64::MAX, false),
            _ => None,
        }
    }

    /// The text of a string value.
    pub fn as_str(&self) -> (r: Option<&str>)
        ensures
            match as_str_spec(self@) {
                Some(t) => r is Some && r->Some_0@ == t,
                None => r is None,
            },
    {
        match self {
            Json::String(text) => Some(text.as_str()),
            _ => None,
        }
    }
}

/// Index of the first member of `members` named `key`.
pub open spec fn member_index(members: Seq<(Seq<char>, JsonView)>, key: Seq<char>) -> Option<int>
    decreases members.len(),
{
    if members.len() == 0 {
        None
    } else if members[0].0 == key {
        Some(0)
    } else {
        match member_index(members.drop_first(), key) {
            Some(i) => Some(i + 1),
            None => None,
        }
    }
}

/// [`member_index`] finds the first member of that name, and
/// [`member_named`] gives its value.
pub proof fn lemma_member_index(members: Seq<(Seq<char>, JsonView)>, key: Seq<char>)
    ensures
        match member_index(members, key) {
            Some(i) => 0 <= i < members.len() && members[i].0 == key && member_named(members, key)
                == Some(members[i].1) && forall|k: int| 0 <= k < i ==> #[trigger] members[k].0 != key,
            None => member_named(members, key) is None && forall|k: int|
                0 <= k < members.len() ==> #[trigger] members[k].0 != key,
        },
    decreases members.len(),
{
    if members.len() > 0 && members[0].0 != key {
        lemma_member_index(members.drop_first(), key);
        assert forall|k: int| 1 <= k < members.len() implies members[k].0 == members.drop_first()[k
            - 1].0 by {}
    }
}

/// Index of the first member of `members` named `key`.
pub fn find_member(members: &Vec<(String, Json)>, key: &str) -> (r: Option<usize>)
    ensures
        match member_index(json_members(members@), key@) {
            Some(i) => r is Some && r->Some_0 as int == i,
            None => r is None,
        },
{
    proof {
        lemma_json_members_len(members@);
    }
    let ghost ms = json_members(members@);
    let mut i: usize = 0;
    assert(ms.skip(0) == ms);
    while i < members.len()
        invariant
            i <= members@.len(),
            ms == json_members(members@),
            ms.len() == members@.len(),
            forall|k: int|
                0 <= k < members@.len() ==> #[trigger] ms[k] == (
                    members@[k].0@,
                    json_view(members@[k].1),
                ),
            member_index(ms, key@) == match member_index(ms.skip(i as int), key@) {
                Some(j) => Some(j + i),
                None => None,
            },
        decreases members@.len() - i,
    {
        assert(ms.skip(i as int)[0] == ms[i as int]);
        assert(ms.skip(i as int).drop_first() == ms.skip(i + 1));
        if str_eq(members[i].0.as_str(), key) {
            return Some(i);
        }
        i += 1;
    }
    None
}

/// The view of each member, by index.
pub proof fn lemma_members_view(members: Seq<(String, Json)>)
    ensures
        json_members(members).len() == members.len(),
        forall|i: int|
            0 <= i < members.len() ==> #[trigger] json_members(members)[i] == (
                members[i].0@,
                json_view(members[i].1),
            ),
{
    lemma_json_members_len(members);
}

/// The view of each item, by index.
pub proof fn lemma_items_view(items: Seq<Json>)
    ensures
        json_items(items).len() == items.len(),
        forall|i: int| 0 <= i < items.len() ==> #[trigger] json_items(items)[i] == json_view(items[i]),
{
    lemma_json_items_len(items);
}

} // verus!
