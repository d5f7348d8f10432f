//! JSON values: what they hold, how they are read, and their text.

use vstd::prelude::*;
use crate::text;

verus! {

// ---------------------------------------------------------------------------
// Values
// ---------------------------------------------------------------------------

/// `serde_json::Number`, carried through unread where it is neither a `u64` nor an `i64`.
#[verifier::external_type_specification]
#[verifier::external_body]
pub struct ExNumber(serde_json::Number);

/// `serde_json::Value`, seen only by the conversions below.
#[verifier::external_type_specification]
#[verifier::external_body]
pub struct ExValue(serde_json::Value);

/// `Clone` of `serde_json::Number`: the copy is the same number.
pub assume_specification [<serde_json::Number as Clone>::clone](n: &serde_json::Number) -> (copy: serde_json::Number)
    ensures
        copy == *n,
;

/// A JSON number.
#[derive(Debug)]
pub enum Numeral {
    /// A whole number from zero up.
    Unsigned(u64),
    /// A whole number below zero.
    Negative(i64),
    /// Any other number.
    Other(serde_json::Number),
}

/// A JSON value. Where an object holds a key twice, the later entry counts.
#[derive(Debug)]
pub enum Json {
    Null,
    Bool(bool),
    Number(Numeral),
    Text(String),
    Array(Vec<Json>),
    Object(Vec<(String, Json)>),
}

/// What a JSON value holds.
#[verifier::ext_equal]
pub enum JsonView {
    Null,
    Bool(bool),
    Number(Numeral),
    Text(Seq<char>),
    Array(Seq<JsonView>),
    Object(Map<Seq<char>, JsonView>),
}

/// What the items of an array hold.
pub open spec fn array_view(items: Seq<Json>) -> Seq<JsonView>
    decreases items,
{
    Seq::new(
        items.len(),
        |i: int|
            if 0 <= i < items.len() {
                items[i].view()
            } else {
                JsonView::Null
            },
    )
}

/// What the entries of an object hold.
pub open spec fn object_view(entries: Seq<(String, Json)>) -> Map<Seq<char>, JsonView>
    decreases entries,
{
    if entries.len() == 0 {
        Map::empty()
    } else {
        object_view(entries.drop_last()).insert(entries.last().0@, entries.last().1.view())
    }
}

/// The entries of an object one by one, in the order in which they stand.
pub open spec fn entry_views(entries: Seq<(String, Json)>) -> Seq<(Seq<char>, JsonView)> {
    entries.map_values(|entry: (String, Json)| (entry.0@, entry.1.view()))
}

impl Json {
    /// What this value holds.
    pub open spec fn view(&self) -> JsonView
        decreases self,
    {
        match self {
            Json::Null => JsonView::Null,
            Json::Bool(b) => JsonView::Bool(*b),
            Json::Number(n) => JsonView::Number(*n),
            Json::Text(s) => JsonView::Text(s@),
            Json::Array(items) => JsonView::Array(array_view(items@)),
            Json::Object(entries) => JsonView::Object(object_view(entries@)),
        }
    }
}

// ---------------------------------------------------------------------------
// Reading
// ---------------------------------------------------------------------------

/// The member `key` of an object.
pub open spec fn member(value: JsonView, key: Seq<char>) -> Option<JsonView> {
    match value {
        JsonView::Object(members) => if members.contains_key(key) {
            Some(members[key])
        } else {
            None
        },
        _ => None,
    }
}

/// The member `key` of a value that may be missing.
pub open spec fn member_of(value: Option<JsonView>, key: Seq<char>) -> Option<JsonView> {
    match value {
        Some(v) => member(v, key),
        None => None,
    }
}

/// The text that a value is.
pub open spec fn as_text(value: Option<JsonView>) -> Option<Seq<char>> {
    match value {
        Some(JsonView::Text(s)) => Some(s),
        _ => None,
    }
}

/// The items of the array that a value is.
pub open spec fn as_items(value: Option<JsonView>) -> Option<Seq<JsonView>> {
    match value {
        Some(JsonView::Array(items)) => Some(items),
        _ => None,
    }
}

/// The truth value that a value is.
pub open spec fn as_truth(value: Option<JsonView>) -> Option<bool> {
    match value {
        Some(JsonView::Bool(b)) => Some(b),
        _ => None,
    }
}

/// The number that a value is, if a `u64` can hold it.
pub open spec fn as_unsigned(value: Option<JsonView>) -> Option<u64> {
    match value {
        Some(JsonView::Number(Numeral::Unsigned(n))) => Some(n),
        _ => None,
    }
}

/// The number that a value is, if an `i64` can hold it.
pub open spec fn as_signed(value: Option<JsonView>) -> Option<i64> {
    match value {
        Some(JsonView::Number(Numeral::Unsigned(n))) => if n <= i64::MAX {
            Some(n as i64)
        } else {
            None
        },
        Some(JsonView::Number(Numeral::Negative(n))) => Some(n),
        _ => None,
    }
}

/// The text at `key`, if there is one.
pub open spec fn text_at(value: JsonView, key: Seq<char>) -> Option<Seq<char>> {
    as_text(member(value, key))
}

/// `found`, or `fallback` where nothing was found.
pub open spec fn or_else(found: Option<Seq<char>>, fallback: Seq<char>) -> Seq<char> {
    match found {
        Some(s) => s,
        None => fallback,
    }
}

/// What an optional reference refers to.
pub open spec fn ref_view(value: Option<&Json>) -> Option<JsonView> {
    match value {
        Some(v) => Some(v.view()),
        None => None,
    }
}

/// What an optional text reads.
pub open spec fn str_view(s: Option<&str>) -> Option<Seq<char>> {
    match s {
        Some(s) => Some(s@),
        None => None,
    }
}

/// A key that no entry from `from` on holds is looked up among the entries before.
proof fn lemma_object_skip(entries: Seq<(String, Json)>, key: Seq<char>, from: int)
    requires
        0 <= from <= entries.len(),
        forall|i: int| from <= i < entries.len() ==> (#[trigger] entries[i]).0@ != key,
    ensures
        object_view(entries).contains_key(key) == object_view(entries.take(from)).contains_key(key),
        object_view(entries).contains_key(key) ==> object_view(entries)[key] == object_view(
            entries.take(from),
        )[key],
    decreases entries.len() - from,
{
    if from == entries.len() {
        assert(entries.take(from) == entries);
    } else {
        assert(entries.last().0@ != key);
        let shorter = entries.drop_last();
        assert forall|i: int| from <= i < shorter.len() implies (#[trigger] shorter[i]).0@ != key by {
            assert(shorter[i] == entries[i]);
        }
        lemma_object_skip(shorter, key, from);
        assert(shorter.take(from) == entries.take(from));
    }
}

impl Json {
    /// The member `key` of an object.
    pub fn get(&self, key: &str) -> (r: Option<&Json>)
        ensures
            ref_view(r) == member(self.view(), key@),
    {
        match self {
            Json::Object(entries) => {
                let mut i: usize = entries.len();
                while i > 0
                    invariant
                        self.view() == JsonView::Object(object_view(entries@)),
                        i <= entries@.len(),
                        forall|j: int|
                            i <= j < entries@.len() ==> (#[trigger] entries@[j]).0@ != key@,
                    decreases i,
                {
                    if text::same(entries[i - 1].0.as_str(), key) {
                        proof {
                            lemma_object_skip(entries@, key@, i as int);
                            assert(entries@.take(i as int).last() == entries@[i - 1]);
                        }
                        return Some(&entries[i - 1].1);
                    }
                    i -= 1;
                }
                proof {
                    lemma_object_skip(entries@, key@, 0);
                }
                None
            },
            _ => None,
        }
    }

    /// The text that this value is.
    pub fn as_str(&self) -> (r: Option<&str>)
        ensures
            str_view(r) == as_text(Some(self.view())),
    {
        match self {
            Json::Text(s) => Some(s.as_str()),
            _ => None,
        }
    }

    /// The items of the array that this value is.
    pub fn as_array(&self) -> (r: Option<&Vec<Json>>)
        ensures
            r is Some <==> as_items(Some(self.view())) is Some,
            r is Some ==> array_view(r->0@) == as_items(Some(self.view()))->0,
    {
        match self {
            Json::Array(items) => Some(items),
            _ => None,
        }
    }

    /// The truth value that this value is.
    pub fn as_bool(&self) -> (r: Option<bool>)
        ensures
            r == as_truth(Some(self.view())),
    {
        match self {
            Json::Bool(b) => Some(*b),
            _ => None,
        }
    }

    /// The number that this value is, if a `u64` can hold it.
    pub fn as_u64(&self) -> (r: Option<u64>)
        ensures
            r == as_unsigned(Some(self.view())),
    {
        match self {
            Json::Number(Numeral::Unsigned(n)) => Some(*n),
            _ => None,
        }
    }

    /// The number that this value is, if an `i64` can hold it.
    pub fn as_i64(&self) -> (r: Option<i64>)
        ensures
            r == as_signed(Some(self.view())),
    {
        match self {
            Json::Number(Numeral::Unsigned(n)) => if *n <= i64::MAX as u64 {
                Some(*n as i64)
            } else {
                None
            },
            Json::Number(Numeral::Negative(n)) => Some(*n),
            _ => None,
        }
    }

    /// The text at `key`, if there is one.
    pub fn text_at(&self, key: &str) -> (r: Option<&str>)
        ensures
            str_view(r) == text_at(self.view(), key@),
    {
        match self.get(key) {
            Some(value) => value.as_str(),
            None => None,
        }
    }

    /// The text at `key`, or `fallback`.
    pub fn text_or<'a>(&'a self, key: &str, fallback: &'a str) -> (r: &'a str)
        ensures
            r@ == or_else(text_at(self.view(), key@), fallback@),
    {
        match self.text_at(key) {
            Some(s) => s,
            None => fallback,
        }
    }

    /// The items of the array at `key`, if there is one.
    pub fn items_at(&self, key: &str) -> (r: Option<&Vec<Json>>)
        ensures
            r is Some <==> as_items(member(self.view(), key@)) is Some,
            r is Some ==> array_view(r->0@) == as_items(member(self.view(), key@))->0,
    {
        match self.get(key) {
            Some(value) => value.as_array(),
            None => None,
        }
    }

    // -----------------------------------------------------------------------
    // Making
    // -----------------------------------------------------------------------

    /// A text value.
    pub fn text(s: &str) -> (r: Json)
        ensures
            r.view() == JsonView::Text(s@),
    {
        Json::Text(s.to_owned())
    }

    /// A whole number.
    pub fn unsigned(n: u64) -> (r: Json)
        ensures
            r.view() == JsonView::Number(Numeral::Unsigned(n)),
    {
        Json::Number(Numeral::Unsigned(n))
    }

    /// A value that holds the same.
    pub fn copy(&self) -> (r: Json)
        ensures
            r.view() == self.view(),
        decreases self,
    {
        match self {
            Json::Null => Json::Null,
            Json::Bool(b) => Json::Bool(*b),
            Json::Number(n) => Json::Number(
                match n {
                    Numeral::Unsigned(n) => Numeral::Unsigned(*n),
                    Numeral::Negative(n) => Numeral::Negative(*n),
                    Numeral::Other(n) => Numeral::Other(n.clone()),
                },
            ),
            Json::Text(s) => Json::Text(s.clone()),
            Json::Array(items) => {
                let mut copies: Vec<Json> = Vec::new();
                for i in 0..items.len()
                    invariant
                        decreases_to!(self => *items),
                        copies@.len() == i,
                        forall|j: int| 0 <= j < i ==> copies@[j].view() == items@[j].view(),
                {
                    proof {
                        assert(decreases_to!(*items => items[i as int]));
                    }
                    copies.push(items[i].copy());
                }
                proof {
                    assert(array_view(copies@) == array_view(items@));
                }
                Json::Array(copies)
            },
            Json::Object(entries) => {
                let mut copies: Vec<(String, Json)> = Vec::new();
                for i in 0..entries.len()
                    invariant
                        decreases_to!(self => *entries),
                        object_view(copies@) == object_view(entries@.take(i as int)),
                {
                    let ghost before = copies@;
                    proof {
                        assert(decreases_to!(*entries => entries[i as int]));
                        assert(decreases_to!(entries[i as int] => entries[i as int].1));
                    }
                    copies.push((entries[i].0.clone(), entries[i].1.copy()));
                    proof {
                        assert(copies@.drop_last() == before);
                        assert(entries@.take(i + 1).drop_last() == entries@.take(i as int));
                    }
                }
                proof {
                    assert(entries@.take(entries@.len() as int) == entries@);
                }
                Json::Object(copies)
            },
        }
    }
}

/// Adds a member to the entries of an object.
pub fn put(entries: &mut Vec<(String, Json)>, key: &str, value: Json)
    ensures
        object_view(final(entries)@) == object_view(old(entries)@).insert(key@, value.view()),
        entry_views(final(entries)@) == entry_views(old(entries)@).push((key@, value.view())),
{
    let ghost before = entries@;
    entries.push((key.to_owned(), value));
    proof {
        assert(entries@.drop_last() == before);
        assert(entry_views(entries@) == entry_views(before).push((key@, value.view())));
    }
}

// ---------------------------------------------------------------------------
// Text
// ---------------------------------------------------------------------------

/// What `serde_json::from_str` reads in a text, or nothing where it is no JSON.
pub uninterp spec fn json_parse(source: Seq<char>) -> Option<JsonView>;

/// What `serde_json::from_slice` reads in bytes, or nothing where they are no JSON.
pub uninterp spec fn json_parse_bytes(source: Seq<u8>) -> Option<JsonView>;

/// The compact text that `serde_json` writes for a value.
pub uninterp spec fn json_text(value: JsonView) -> Seq<char>;

/// What an optional value holds.
pub open spec fn opt_view(value: Option<Json>) -> Option<JsonView> {
    match value {
        Some(v) => Some(v.view()),
        None => None,
    }
}

/// Turns a `serde_json::Number` into a `Numeral`: `as_u64` and `as_i64` tell its variants apart.
#[verifier::external_body]
fn from_number(n: serde_json::Number) -> Numeral {
    match (n.as_u64(), n.as_i64()) {
        (Some(n), _) => Numeral::Unsigned(n),
        (None, Some(n)) => Numeral::Negative(n),
        (None, None) => Numeral::Other(n),
    }
}

/// Turns a `serde_json::Value` into a `Json`, variant by variant.
#[verifier::external_body]
fn from_value(value: serde_json::Value) -> Json {
    match value {
        serde_json::Value::Null => Json::Null,
        serde_json::Value::Bool(b) => Json::Bool(b),
        serde_json::Value::Number(n) => Json::Number(from_number(n)),
        serde_json::Value::String(s) => Json::Text(s),
        serde_json::Value::Array(items) => Json::Array(items.into_iter().map(from_value).collect()),
        serde_json::Value::Object(members) => Json::Object(
            members.into_iter().map(|(key, value)| (key, from_value(value))).collect(),
        ),
    }
}

/// Turns a `Json` into a `serde_json::Value`, variant by variant.
#[verifier::external_body]
pub(crate) fn to_value(value: &Json) -> serde_json::Value {
    match value {
        Json::Null => serde_json::Value::Null,
        Json::Bool(b) => serde_json::Value::from(*b),
        Json::Number(Numeral::Unsigned(n)) => serde_json::Value::from(*n),
        Json::Number(Numeral::Negative(n)) => serde_json::Value::from(*n),
        Json::Number(Numeral::Other(n)) => serde_json::Value::Number(n.clone()),
        Json::Text(s) => serde_json::Value::from(s.as_str()),
        Json::Array(items) => serde_json::Value::Array(items.iter().map(to_value).collect()),
        Json::Object(entries) => serde_json::Value::Object(
            entries.iter().map(|(key, value)| (key.clone(), to_value(value))).collect(),
        ),
    }
}

/// `serde_json::from_str` into a `serde_json::Value`: the result is named `json_parse`.
#[verifier::external_body]
fn read_text(source: &str) -> (r: Option<Json>)
    ensures
        opt_view(r) == json_parse(source@),
{
    serde_json::from_str(source).ok().map(from_value)
}

/// `serde_json::from_slice` into a `serde_json::Value`: the result is named `json_parse_bytes`.
#[verifier::external_body]
fn read_bytes(source: &[u8]) -> (r: Option<Json>)
    ensures
        opt_view(r) == json_parse_bytes(source@),
{
    serde_json::from_slice(source).ok().map(from_value)
}

/// `Display` of `serde_json::Value`, which writes the members of an object in the order of their
/// keys: the result is named `json_text`. It holds no line break, since line breaks inside texts
/// are written as escapes.
#[verifier::external_body]
fn write_text(value: &Json) -> (r: String)
    ensures
        r@ == json_text(value.view()),
        !r@.contains('\n'),
        !r@.contains('\r'),
{
    to_value(value).to_string()
}

impl Json {
    /// The value that a text spells, or nothing where it is no JSON.
    pub fn parse(source: &str) -> (r: Option<Json>)
        ensures
            opt_view(r) == json_parse(source@),
    {
        read_text(source)
    }

    /// The value that bytes spell, or nothing where they are no JSON.
    pub fn parse_bytes(source: &[u8]) -> (r: Option<Json>)
        ensures
            opt_view(r) == json_parse_bytes(source@),
    {
        read_bytes(source)
    }

    /// The compact text of this value, which stands on one line.
    pub fn to_text(&self) -> (r: String)
        ensures
            r@ == json_text(self.view()),
            !r@.contains('\n'),
            !r@.contains('\r'),
    {
        write_text(self)
    }
}

} // verus!
