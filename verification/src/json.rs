//! A JSON document, as far as anything here reads one.

use vstd::prelude::*;

use crate::text;

verus! {

/// What a document holds.
pub enum JsonView {
    Null,
    Bool(bool),
    /// The number as an unsigned and as a signed 64-bit integer, where it is
    /// one.
    Number(Option<u64>, Option<i64>),
    Text(Seq<char>),
    Array(Seq<JsonView>),
    Object(Seq<(Seq<char>, JsonView)>),
}

/// The first value stored under `key`, or null.
pub open spec fn entry(held: Seq<(Seq<char>, JsonView)>, key: Seq<char>) -> JsonView
    decreases held.len(),
{
    if held.len() == 0 {
        JsonView::Null
    } else if held[0].0 == key {
        held[0].1
    } else {
        entry(held.skip(1), key)
    }
}

impl JsonView {
    /// What stands under `key`: null where the key is missing, or where this
    /// is no object at all.
    pub open spec fn at(self, key: Seq<char>) -> JsonView {
        match self {
            JsonView::Object(held) => entry(held, key),
            _ => JsonView::Null,
        }
    }

    pub open spec fn text(self) -> Option<Seq<char>> {
        match self {
            JsonView::Text(held) => Some(held),
            _ => None,
        }
    }

    /// The text, when there is one and it is not empty.
    pub open spec fn non_empty(self) -> Option<Seq<char>> {
        match self {
            JsonView::Text(held) if held.len() > 0 => Some(held),
            _ => None,
        }
    }

    /// The items of an array; none of anything else.
    pub open spec fn items(self) -> Seq<JsonView> {
        match self {
            JsonView::Array(held) => held,
            _ => seq![],
        }
    }

    /// The entries of an object; none of anything else.
    pub open spec fn entries(self) -> Seq<(Seq<char>, JsonView)> {
        match self {
            JsonView::Object(held) => held,
            _ => seq![],
        }
    }

    pub open spec fn is_true(self) -> bool {
        self == JsonView::Bool(true)
    }

    pub open spec fn signed(self) -> Option<i64> {
        match self {
            JsonView::Number(_, held) => held,
            _ => None,
        }
    }

    pub open spec fn unsigned(self) -> Option<u64> {
        match self {
            JsonView::Number(held, _) => held,
            _ => None,
        }
    }
}

/// One value of a document.
#[derive(Debug)]
pub enum Json {
    Null,
    Bool(bool),
    /// The number as an unsigned and as a signed 64-bit integer, where it is
    /// one. A number that is neither is a fraction, which nothing reads.
    Number(Option<u64>, Option<i64>),
    Text(String),
    Array(Vec<Json>),
    /// The entries, each key once.
    Object(Vec<(String, Json)>),
}

/// What a value holds, all the way down.
pub open spec fn held_by(value: Json) -> JsonView
    decreases value,
{
    match value {
        Json::Null => JsonView::Null,
        Json::Bool(held) => JsonView::Bool(held),
        Json::Number(unsigned, signed) => JsonView::Number(unsigned, signed),
        Json::Text(held) => JsonView::Text(held@),
        Json::Array(held) => JsonView::Array(
            Seq::new(
                held@.len(),
                |at: int| if 0 <= at < held@.len() { held_by(held@[at]) } else { JsonView::Null },
            ),
        ),
        Json::Object(held) => JsonView::Object(
            Seq::new(
                held@.len(),
                |at: int|
                    if 0 <= at < held@.len() {
                        (held@[at].0@, held_by(held@[at].1))
                    } else {
                        (seq![], JsonView::Null)
                    },
            ),
        ),
    }
}

impl View for Json {
    type V = JsonView;

    open spec fn view(&self) -> JsonView {
        held_by(*self)
    }
}

/// What each value holds.
pub open spec fn views(held: Seq<Json>) -> Seq<JsonView> {
    held.map_values(|value: Json| value@)
}

/// What each entry is called and holds.
pub open spec fn entry_views(held: Seq<(String, Json)>) -> Seq<(Seq<char>, JsonView)> {
    held.map_values(|pair: (String, Json)| (pair.0@, pair.1@))
}

impl Json {
    /// What stands under `key`: null where the key is missing, or where this
    /// is no object at all.
    pub fn at(&self, key: &str) -> (value: &Json)
        ensures
            value@ == self@.at(key@),
    {
        match self {
            Json::Object(held) => {
                let mut at: usize = 0;
                let ghost entries = entry_views(held@);
                assert(self@.entries() =~= entries);
                assert(entries.skip(0) =~= entries);
                while at < held.len()
                    invariant
                        at <= held@.len(),
                        entries == entry_views(held@),
                        entry(entries, key@) == entry(entries.skip(at as int), key@),
                        self@ == JsonView::Object(entries),
                    decreases held@.len() - at,
                {
                    assert(entries.skip(at as int)[0] == (held@[at as int].0@, held@[at as int].1@));
                    if text::same(held[at].0.as_str(), key) {
                        return &held[at].1;
                    }
                    assert(entries.skip(at as int).skip(1) =~= entries.skip(at as int + 1));
                    at += 1;
                }
                &Json::Null
            },
            _ => &Json::Null,
        }
    }

    pub fn text(&self) -> (text: Option<&str>)
        ensures
            text is Some <==> self@.text() is Some,
            text matches Some(text) ==> self@.text() == Some(text@),
    {
        match self {
            Json::Text(held) => Some(held.as_str()),
            _ => None,
        }
    }

    /// The text, when there is one and it is not empty.
    pub fn non_empty(&self) -> (text: Option<&str>)
        ensures
            text is Some <==> self@.non_empty() is Some,
            text matches Some(text) ==> self@.non_empty() == Some(text@),
    {
        match self {
            Json::Text(held) => if held.as_str().is_empty() {
                None
            } else {
                Some(held.as_str())
            },
            _ => None,
        }
    }

    /// The items of an array.
    pub fn items(&self) -> (items: Option<&Vec<Json>>)
        ensures
            items matches Some(items) ==> self@.items() == views(items@),
            items is None ==> self@.items() == Seq::<JsonView>::empty(),
    {
        match self {
            Json::Array(held) => {
                assert(self@.items() =~= views(held@));
                Some(held)
            },
            _ => None,
        }
    }

    /// The entries of an object.
    pub fn entries(&self) -> (entries: Option<&Vec<(String, Json)>>)
        ensures
            entries matches Some(entries) ==> self@.entries() == entry_views(entries@),
            entries is None ==> self@.entries() == Seq::<(Seq<char>, JsonView)>::empty(),
    {
        match self {
            Json::Object(held) => {
                assert(self@.entries() =~= entry_views(held@));
                Some(held)
            },
            _ => None,
        }
    }

    pub fn is_null(&self) -> (answer: bool)
        ensures
            answer == (self@ is Null),
    {
        match self {
            Json::Null => true,
            _ => false,
        }
    }

    pub fn is_true(&self) -> (answer: bool)
        ensures
            answer == self@.is_true(),
    {
        match self {
            Json::Bool(held) => *held,
            _ => false,
        }
    }

    pub fn signed(&self) -> (number: Option<i64>)
        ensures
            number == self@.signed(),
    {
        match self {
            Json::Number(_, held) => *held,
            _ => None,
        }
    }

    pub fn unsigned(&self) -> (number: Option<u64>)
        ensures
            number == self@.unsigned(),
    {
        match self {
            Json::Number(held, _) => *held,
            _ => None,
        }
    }
}

/// `serde_json`'s own document, which is read once and taken apart.
#[verifier::external_type_specification]
#[verifier::external_body]
pub struct ExValue(serde_json::Value);

/// What a `serde_json::Value` holds.
pub uninterp spec fn document(value: serde_json::Value) -> JsonView;

/// What `serde_json::from_str` makes of a text: the document it holds, or
/// what is wrong with it in words.
pub uninterp spec fn json_read(source: Seq<char>) -> Result<JsonView, Seq<char>>;

/// One `serde_json::Value`, taken apart by one level.
pub enum Opened {
    Null,
    Bool(bool),
    Number(Option<u64>, Option<i64>),
    Text(String),
    Array(Vec<serde_json::Value>),
    Object(Vec<(String, serde_json::Value)>),
}

impl Opened {
    /// What the value that was taken apart holds.
    pub open spec fn whole(self) -> JsonView {
        match self {
            Opened::Null => JsonView::Null,
            Opened::Bool(held) => JsonView::Bool(held),
            Opened::Number(unsigned, signed) => JsonView::Number(unsigned, signed),
            Opened::Text(held) => JsonView::Text(held@),
            Opened::Array(held) => JsonView::Array(
                held@.map_values(|value: serde_json::Value| document(value)),
            ),
            Opened::Object(held) => JsonView::Object(
                held@.map_values(
                    |pair: (String, serde_json::Value)| (pair.0@, document(pair.1)),
                ),
            ),
        }
    }
}

/// `serde_json::from_str` into its own `Value`. Its answer depends on the
/// text alone; the error is handed on as the words it prints.
#[verifier::external_body]
fn read(source: &str) -> (read: Result<serde_json::Value, String>)
    ensures
        match read {
            Ok(value) => json_read(source@) == Ok::<JsonView, Seq<char>>(document(value)),
            Err(said) => json_read(source@) == Err::<JsonView, Seq<char>>(said@),
        },
{
    serde_json::from_str(source).map_err(|error| error.to_string())
}

/// The variants of `serde_json::Value`, one for one, with a number as
/// `Number::as_u64` and `Number::as_i64` give it.
#[verifier::external_body]
fn opened(value: serde_json::Value) -> (opened: Opened)
    ensures
        opened.whole() == document(value),
{
    match value {
        serde_json::Value::Null => Opened::Null,
        serde_json::Value::Bool(held) => Opened::Bool(held),
        serde_json::Value::Number(held) => Opened::Number(held.as_u64(), held.as_i64()),
        serde_json::Value::String(held) => Opened::Text(held),
        serde_json::Value::Array(held) => Opened::Array(held),
        serde_json::Value::Object(held) => Opened::Object(held.into_iter().collect()),
    }
}

/// The same document in this library's own type.
fn converted(value: serde_json::Value) -> (json: Json)
    ensures
        json@ == document(value),
    decreases document(value),
{
    match opened(value) {
        Opened::Null => Json::Null,
        Opened::Bool(held) => Json::Bool(held),
        Opened::Number(unsigned, signed) => Json::Number(unsigned, signed),
        Opened::Text(held) => Json::Text(held),
        Opened::Array(held) => {
            let ghost whole = document(value)->Array_0;
            let ghost parts = held@;
            let mut items: Vec<Json> = Vec::new();
            for part in it: held
                invariant
                    it.seq() == parts,
                    document(value) == JsonView::Array(whole),
                    whole == parts.map_values(|value: serde_json::Value| document(value)),
                    items@.len() == it.index(),
                    forall|k: int|
                        0 <= k < items@.len() ==> (#[trigger] items@[k])@ == whole[k],
            {
                proof {
                    assert(document(part) == whole[it.index() as int]);
                    assert(decreases_to!(document(value) => document(value)->Array_0));
                    assert(decreases_to!(whole => whole[it.index() as int]));
                }
                items.push(converted(part));
            }
            let json = Json::Array(items);
            assert(json@->Array_0 =~= whole);
            json
        },
        Opened::Object(held) => {
            let ghost whole = document(value)->Object_0;
            let ghost parts = held@;
            let mut entries: Vec<(String, Json)> = Vec::new();
            for part in it: held
                invariant
                    it.seq() == parts,
                    document(value) == JsonView::Object(whole),
                    whole == parts.map_values(
                        |pair: (String, serde_json::Value)| (pair.0@, document(pair.1)),
                    ),
                    entries@.len() == it.index(),
                    forall|k: int|
                        0 <= k < entries@.len() ==> ((#[trigger] entries@[k]).0@, entries@[k].1@)
                            == whole[k],
            {
                let ghost at = it.index() as int;
                proof {
                    assert(whole[at] == (part.0@, document(part.1)));
                    assert(decreases_to!(document(value) => document(value)->Object_0));
                    assert(decreases_to!(whole => whole[at]));
                    assert(decreases_to!(whole[at] => whole[at].1));
                }
                entries.push((part.0, converted(part.1)));
            }
            let json = Json::Object(entries);
            assert(json@->Object_0 =~= whole);
            json
        },
    }
}

/// The document that `source` holds, or what is wrong with it.
pub fn parse(source: &str) -> (parsed: Result<Json, String>)
    ensures
        match parsed {
            Ok(json) => json_read(source@) == Ok::<JsonView, Seq<char>>(json@),
            Err(said) => json_read(source@) == Err::<JsonView, Seq<char>>(said@),
        },
{
    match read(source) {
        Ok(value) => Ok(converted(value)),
        Err(said) => Err(said),
    }
}

/// What stands under a key is the first entry of that key, and null where no
/// entry has it or there are none.
pub proof fn law_a_key_is_read_where_it_stands(
    held: Seq<(Seq<char>, JsonView)>,
    key: Seq<char>,
    at: int,
    other: JsonView,
)
    requires
        0 <= at <= held.len(),
        forall|k: int| 0 <= k < at ==> (#[trigger] held[k]).0 != key,
        at < held.len() ==> held[at].0 == key,
    ensures
        at < held.len() ==> JsonView::Object(held).at(key) == held[at].1,
        at == held.len() ==> JsonView::Object(held).at(key) is Null,
        !(other is Object) ==> other.at(key) is Null,
    decreases at,
{
    if at > 0 {
        let rest = held.skip(1);
        assert(held[0].0 != key);
        assert forall|k: int| 0 <= k < at - 1 implies (#[trigger] rest[k]).0 != key by {
            assert(rest[k] == held[k + 1]);
        }
        law_a_key_is_read_where_it_stands(rest, key, at - 1, other);
        assert(JsonView::Object(rest).at(key) == entry(rest, key));
    }
}

/// A value is read as what it is and as nothing else.
pub proof fn law_a_value_is_read_as_what_it_is(
    value: JsonView,
    text: Seq<char>,
    items: Seq<JsonView>,
    unsigned: Option<u64>,
    signed: Option<i64>,
)
    ensures
        JsonView::Text(text).text() == Some(text),
        !(value is Text) ==> value.text() is None && value.non_empty() is None,
        text.len() > 0 ==> JsonView::Text(text).non_empty() == Some(text),
        text.len() == 0 ==> JsonView::Text(text).non_empty() is None,
        JsonView::Array(items).items() == items,
        !(value is Array) ==> value.items().len() == 0,
        JsonView::Number(unsigned, signed).unsigned() == unsigned,
        JsonView::Number(unsigned, signed).signed() == signed,
        !(value is Number) ==> value.signed() is None && value.unsigned() is None,
        value.is_true() <==> value == JsonView::Bool(true),
{
}

} // verus!
