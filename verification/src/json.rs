//! A JSON document model for the wire contract.
use vstd::prelude::*;

verus! {

/// A JSON number as it appears on the wire.
#[derive(Debug, PartialEq)]
pub enum JsonNumber {
    /// A non-negative integer.
    PosInt(u64),
    /// A negative integer.
    NegInt(i64),
    /// Any other number, kept as its decimal text.
    Decimal(String),
}

/// A JSON value.
#[derive(Debug, PartialEq)]
pub enum JsonValue {
    Null,
    Bool(bool),
    Number(JsonNumber),
    String(String),
    Array(Vec<JsonValue>),
    Object(Vec<(String, JsonValue)>),
}

/// Mathematical model of a JSON number.
pub enum JsonNumberView {
    PosInt(u64),
    NegInt(i64),
    Decimal(Seq<char>),
}

/// Mathematical model of a JSON value.
pub enum Json {
    Null,
    Bool(bool),
    Number(JsonNumberView),
    Str(Seq<char>),
    Array(Seq<Json>),
    Object(Seq<(Seq<char>, Json)>),
}

impl View for JsonNumber {
    type V = JsonNumberView;

    open spec fn view(&self) -> JsonNumberView {
        match self {
            JsonNumber::PosInt(u) => JsonNumberView::PosInt(*u),
            JsonNumber::NegInt(i) => JsonNumberView::NegInt(*i),
            JsonNumber::Decimal(s) => JsonNumberView::Decimal(s@),
        }
    }
}

/// The model of a JSON value.
pub open spec fn json_view(v: JsonValue) -> Json
    decreases v,
{
    match v {
        JsonValue::Null => Json::Null,
        JsonValue::Bool(b) => Json::Bool(b),
        JsonValue::Number(n) => Json::Number(n@),
        JsonValue::String(s) => Json::Str(s@),
        JsonValue::Array(items) => Json::Array(
            Seq::new(
                items@.len(),
                |i: int|
                    if 0 <= i < items@.len() {
                        json_view(items@[i])
                    } else {
                        Json::Null
                    },
            ),
        ),
        JsonValue::Object(entries) => Json::Object(
            Seq::new(
                entries@.len(),
                |i: int|
                    if 0 <= i < entries@.len() {
                        (entries@[i].0@, json_view(entries@[i].1))
                    } else {
                        (Seq::empty(), Json::Null)
                    },
            ),
        ),
    }
}

impl View for JsonValue {
    type V = Json;

    open spec fn view(&self) -> Json {
        json_view(*self)
    }
}

/// The model of the members of a JSON object.
pub open spec fn entries_view(entries: Seq<(String, JsonValue)>) -> Seq<(Seq<char>, Json)> {
    Seq::new(
        entries.len(),
        |i: int|
            if 0 <= i < entries.len() {
                (entries[i].0@, json_view(entries[i].1))
            } else {
                (Seq::empty(), Json::Null)
            },
    )
}

/// The model of the items of a JSON array.
pub open spec fn items_view(items: Seq<JsonValue>) -> Seq<Json> {
    Seq::new(
        items.len(),
        |i: int|
            if 0 <= i < items.len() {
                json_view(items[i])
            } else {
                Json::Null
            },
    )
}

/// The value of the last member named `key` among `entries`: a later
/// member of the same name overrides an earlier one.
pub open spec fn entry_lookup(entries: Seq<(Seq<char>, Json)>, key: Seq<char>) -> Option<Json>
    decreases entries.len(),
{
    if entries.len() == 0 {
        None
    } else if entries.last().0 == key {
        Some(entries.last().1)
    } else {
        entry_lookup(entries.drop_last(), key)
    }
}

/// No member of an empty object has any name.
pub broadcast proof fn lemma_lookup_empty(key: Seq<char>)
    ensures
        #[trigger] entry_lookup(Seq::<(Seq<char>, Json)>::empty(), key) is None,
{
}

/// A member added last overrides the earlier members of its name and
/// leaves every other name as it was.
pub broadcast proof fn lemma_lookup_push(entries: Seq<(Seq<char>, Json)>, member: (Seq<char>, Json), key: Seq<char>)
    ensures
        #[trigger] entry_lookup(entries.push(member), key) == if member.0 == key {
            Some(member.1)
        } else {
            entry_lookup(entries, key)
        },
{
    assert(entries.push(member).drop_last() =~= entries);
}

/// Looking a name up in `a + b` finds `b`'s member of that name when `b`
/// has one, and `a`'s otherwise.
pub broadcast proof fn lemma_lookup_concat(a: Seq<(Seq<char>, Json)>, b: Seq<(Seq<char>, Json)>, key: Seq<char>)
    ensures
        #[trigger] entry_lookup(a + b, key) == match entry_lookup(b, key) {
            Some(v) => Some(v),
            None => entry_lookup(a, key),
        },
    decreases b.len(),
{
    if b.len() == 0 {
        assert(a + b =~= a);
    } else {
        assert((a + b).drop_last() =~= a + b.drop_last());
        assert((a + b).last() == b.last());
        lemma_lookup_concat(a, b.drop_last(), key);
    }
}

/// The facts above, for use together.
pub broadcast group group_lookup {
    lemma_lookup_empty,
    lemma_lookup_push,
    lemma_lookup_concat,
}

/// The member named `key` of an object; nothing for any other value.
pub open spec fn json_get(v: Json, key: Seq<char>) -> Option<Json> {
    match v {
        Json::Object(entries) => entry_lookup(entries, key),
        _ => None,
    }
}

/// An object's model is the model of its members.
pub proof fn lemma_object_view(entries: Vec<(String, JsonValue)>)
    ensures
        json_view(JsonValue::Object(entries)) == Json::Object(entries_view(entries@)),
{
    assert(entries_view(entries@) =~= match json_view(JsonValue::Object(entries)) {
        Json::Object(e) => e,
        _ => Seq::empty(),
    });
}

/// An array's model is the model of its items.
pub proof fn lemma_array_view(items: Vec<JsonValue>)
    ensures
        json_view(JsonValue::Array(items)) == Json::Array(items_view(items@)),
{
    assert(items_view(items@) =~= match json_view(JsonValue::Array(items)) {
        Json::Array(e) => e,
        _ => Seq::empty(),
    });
}

/// Appends the member `key: value` to an object under construction.
pub fn push_member(entries: &mut Vec<(String, JsonValue)>, key: &str, value: JsonValue)
    ensures
        entries_view(final(entries)@) == entries_view(old(entries)@).push((key@, value@)),
{
    let k = key.to_owned();
    entries.push((k, value));
    assert(entries_view(final(entries)@) =~= entries_view(old(entries)@).push((key@, value@)));
}

/// Appends an item to an array under construction.
pub fn push_item(items: &mut Vec<JsonValue>, value: JsonValue)
    ensures
        items_view(final(items)@) == items_view(old(items)@).push(value@),
{
    items.push(value);
    assert(items_view(final(items)@) =~= items_view(old(items)@).push(value@));
}

/// A JSON string holding a copy of `s`.
pub fn string_value(s: &str) -> (r: JsonValue)
    ensures
        r@ == Json::Str(s@),
{
    JsonValue::String(s.to_owned())
}

impl JsonNumber {
    /// A copy of this number.
    pub fn copy(&self) -> (r: JsonNumber)
        ensures
            r@ == self@,
    {
        match self {
            JsonNumber::PosInt(u) => JsonNumber::PosInt(*u),
            JsonNumber::NegInt(i) => JsonNumber::NegInt(*i),
            JsonNumber::Decimal(t) => JsonNumber::Decimal(t.clone()),
        }
    }
}

impl JsonValue {
    /// A copy of this value.
    pub fn copy(&self) -> (r: JsonValue)
        ensures
            r@ == self@,
        decreases self,
    {
        match self {
            JsonValue::Null => JsonValue::Null,
            JsonValue::Bool(b) => JsonValue::Bool(*b),
            JsonValue::Number(n) => JsonValue::Number(n.copy()),
            JsonValue::String(t) => JsonValue::String(t.clone()),
            JsonValue::Array(items) => {
                let mut out: Vec<JsonValue> = Vec::new();
                assert(items_view(out@) =~= items_view(items@).take(0));
                let mut i: usize = 0;
                while i < items.len()
                    invariant
                        0 <= i <= items@.len(),
                        *self == JsonValue::Array(*items),
                        items_view(out@) == items_view(items@).take(i as int),
                    decreases items@.len() - i,
                {
                    proof {
                        vstd::std_specs::vec::axiom_vec_index_decreases(*items, i as int);
                        assert(decreases_to!(*self => (*self)->Array_0));
                        assert(decreases_to!(*self => items@[i as int]));
                    }
                    push_item(&mut out, items[i].copy());
                    assert(items_view(items@).take(i + 1) =~= items_view(items@).take(i as int).push(json_view(items@[i as int])));
                    i += 1;
                }
                proof {
                    lemma_array_view(out);
                    lemma_array_view(*items);
                    assert(items_view(items@).take(items@.len() as int) =~= items_view(items@));
                }
                JsonValue::Array(out)
            },
            JsonValue::Object(entries) => {
                let mut out: Vec<(String, JsonValue)> = Vec::new();
                assert(entries_view(out@) =~= entries_view(entries@).take(0));
                let mut i: usize = 0;
                while i < entries.len()
                    invariant
                        0 <= i <= entries@.len(),
                        *self == JsonValue::Object(*entries),
                        entries_view(out@) == entries_view(entries@).take(i as int),
                    decreases entries@.len() - i,
                {
                    proof {
                        vstd::std_specs::vec::axiom_vec_index_decreases(*entries, i as int);
                        assert(decreases_to!(*self => (*self)->Object_0));
                        assert(decreases_to!(entries@[i as int] => entries@[i as int].1));
                        assert(decreases_to!(*self => entries@[i as int].1));
                    }
                    let (k, v) = &entries[i];
                    let c = v.copy();
                    let kc = k.clone();
                    out.push((kc, c));
                    assert(entries_view(out@) =~= entries_view(entries@).take(i + 1)) by {
                        assert(entries_view(entries@).take(i + 1) =~= entries_view(entries@).take(i as int).push((entries@[i as int].0@, json_view(entries@[i as int].1))));
                        assert(out@.last() == (kc, c));
                    }
                    i += 1;
                }
                proof {
                    lemma_object_view(out);
                    lemma_object_view(*entries);
                    assert(entries_view(entries@).take(entries@.len() as int) =~= entries_view(entries@));
                }
                JsonValue::Object(out)
            },
        }
    }

    /// The member named `key` of an object; `None` for a missing member and
    /// for any value that is not an object.
    pub fn get(&self, key: &str) -> (r: Option<&JsonValue>)
        ensures
            match r {
                Some(v) => json_get(self@, key@) == Some(v@),
                None => json_get(self@, key@) is None,
            },
    {
        match self {
            JsonValue::Object(entries) => {
                proof {
                    lemma_object_view(*entries);
                }
                let ghost ev = entries_view(entries@);
                let k = key.to_owned();
                let mut i: usize = entries.len();
                assert(ev.take(ev.len() as int) =~= ev);
                while i > 0
                    invariant
                        0 <= i <= entries@.len(),
                        ev == entries_view(entries@),
                        self@ == Json::Object(ev),
                        k@ == key@,
                        entry_lookup(ev, key@) == entry_lookup(ev.take(i as int), key@),
                    decreases i,
                {
                    let j = i - 1;
                    assert(ev.take(i as int).last() == ev[j as int]);
                    assert(ev[j as int] == (entries@[j as int].0@, json_view(entries@[j as int].1)));
                    if entries[j].0 == k {
                        assert(ev.take(i as int).len() > 0);
                        assert(entry_lookup(ev.take(i as int), key@) == Some(json_view(entries@[j as int].1)));
                        return Some(&entries[j].1);
                    }
                    assert(ev.take(i as int).drop_last() =~= ev.take(j as int));
                    i = j;
                }
                None
            },
            _ => None,
        }
    }
}

} // verus!
