//! JSON documents, read, edited and written through `serde_json`.
//!
//! Contracts speak of a document by its `JsonView`: the tree of plain values
//! that a `serde_json::Value` stands for.
use vstd::prelude::*;

use crate::numeral;
use crate::text;

verus! {

/// A JSON value. A number is represented by its numeral as `serde_json` writes
/// it.
pub enum JsonView {
    Null,
    Bool(bool),
    Number(Seq<char>),
    Text(Seq<char>),
    Array(Seq<JsonView>),
    Object(Map<Seq<char>, JsonView>),
}

/// Trusted: the JSON value type of `serde_json`.
#[verifier::external_type_specification]
#[verifier::external_body]
pub struct ExValue(serde_json::Value);

/// Trusted: the JSON object type of `serde_json`.
#[verifier::external_type_specification]
#[verifier::external_body]
#[verifier::reject_recursive_types(K)]
#[verifier::reject_recursive_types(V)]
pub struct ExMap<K, V>(serde_json::Map<K, V>);

/// The tree that a JSON value stands for.
pub uninterp spec fn json_view(v: serde_json::Value) -> JsonView;

/// The members of a JSON object.
pub uninterp spec fn members(m: serde_json::Map<String, serde_json::Value>) -> Map<Seq<char>, JsonView>;

/// What `serde_json::from_slice` makes of bytes: a value, or an error message.
pub uninterp spec fn bytes_document(bytes: Seq<u8>) -> Result<JsonView, Seq<char>>;

/// What `serde_json::from_str` makes of a text: a value, or an error message.
pub uninterp spec fn text_document(text: Seq<char>) -> Result<JsonView, Seq<char>>;

/// The compact text of a value.
pub uninterp spec fn compact_text(v: JsonView) -> Seq<char>;

/// The indented text of a value.
pub uninterp spec fn pretty_text(v: JsonView) -> Seq<char>;

/// Why a value is not a list of strings.
pub uninterp spec fn not_texts_reason(v: JsonView) -> Seq<char>;

/// An integer numeral: digits, with an optional minus.
pub open spec fn is_integer(t: Seq<char>) -> bool {
    let d = if t.len() > 0 && t[0] == '-' {
        t.skip(1)
    } else {
        t
    };
    d.len() > 0 && numeral::all_digits(d)
}

/// All numbers in the value are integers, and it nests at most `depth` deep.
pub open spec fn is_exact(v: JsonView, depth: nat) -> bool
    decreases depth,
{
    match v {
        JsonView::Number(t) => is_integer(t),
        JsonView::Array(a) => depth > 0 && forall|i: int|
            0 <= i < a.len() ==> is_exact(#[trigger] a[i], (depth - 1) as nat),
        JsonView::Object(m) => depth > 0 && forall|k: Seq<char>|
            m.contains_key(k) ==> is_exact(#[trigger] m[k], (depth - 1) as nat),
        _ => true,
    }
}

/// The text denotes the value.
pub open spec fn reads_as(text: Seq<char>, v: JsonView) -> bool {
    text_document(text) == Ok::<JsonView, Seq<char>>(v)
}

/// The members of an empty object.
pub open spec fn no_members() -> Map<Seq<char>, JsonView> {
    Map::empty()
}

/// How deep a document may nest to be readable.
pub const MAX_DEPTH: u8 = 127;

/// The value is an array of strings.
pub open spec fn is_texts(v: JsonView) -> bool {
    match v {
        JsonView::Array(a) => forall|i: int| 0 <= i < a.len() ==> (#[trigger] a[i]) is Text,
        _ => false,
    }
}

/// The strings of an array of strings.
pub open spec fn texts_of(v: JsonView) -> Seq<Seq<char>> {
    v->Array_0.map_values(|e: JsonView| e->Text_0)
}

/// An array of strings.
pub open spec fn texts_array(v: Seq<Seq<char>>) -> JsonView {
    JsonView::Array(v.map_values(|s: Seq<char>| JsonView::Text(s)))
}

/// The number `n`.
pub open spec fn number(n: nat) -> JsonView {
    JsonView::Number(numeral::decimal(n))
}

/// The member of a value under `key`; a value that is not an object has none.
pub open spec fn member(v: JsonView, key: Seq<char>) -> Option<JsonView> {
    match v {
        JsonView::Object(m) => if m.contains_key(key) {
            Some(m[key])
        } else {
            None
        },
        _ => None,
    }
}

/// `a` comes before `b` in the order of their characters' codes.
pub open spec fn precedes(a: Seq<char>, b: Seq<char>) -> bool
    decreases a.len(),
{
    if b.len() == 0 {
        false
    } else if a.len() == 0 {
        true
    } else {
        a[0] < b[0] || (a[0] == b[0] && precedes(a.skip(1), b.skip(1)))
    }
}

/// Trusted: `serde_json::from_slice` into a `Value` gives the document's value,
/// or an error whose message depends on the bytes alone.
#[verifier::external_body]
pub(crate) fn parse_bytes(bytes: &[u8]) -> (r: Result<serde_json::Value, String>)
    ensures
        match r {
            Ok(v) => bytes_document(bytes@) matches Ok(w) && w == json_view(v),
            Err(e) => bytes_document(bytes@) matches Err(m) && m == e@,
        },
{
    serde_json::from_slice::<serde_json::Value>(bytes).map_err(|e| e.to_string())
}

/// Trusted: `serde_json::from_str` into a `Value` gives the text's value, or an
/// error whose message depends on the text alone.
#[verifier::external_body]
pub(crate) fn parse_text(text: &str) -> (r: Result<serde_json::Value, String>)
    ensures
        match r {
            Ok(v) => reads_as(text@, json_view(v)),
            Err(e) => text_document(text@) matches Err(m) && m == e@,
        },
{
    serde_json::from_str::<serde_json::Value>(text).map_err(|e| e.to_string())
}

/// Trusted: `Value::to_string` writes the compact text of a value. The text has
/// no surrounding whitespace. Where all numbers are integers and the nesting is
/// within what the parser reads, `serde_json::from_str` reads the value back;
/// of fractional numbers this is not stated, since the parser rounds them.
#[verifier::external_body]
pub(crate) fn write_compact(v: &serde_json::Value) -> (s: String)
    ensures
        s@ == compact_text(json_view(*v)),
        text::trimmed(s@) == s@,
        is_exact(json_view(*v), MAX_DEPTH as nat) ==> reads_as(s@, json_view(*v)),
{
    v.to_string()
}

/// Trusted: `serde_json::to_string_pretty` writes the indented text of a value.
/// It does not fail on a `Value`, whose keys are strings.
#[verifier::external_body]
pub(crate) fn write_pretty(v: &serde_json::Value) -> (r: Result<String, String>)
    ensures
        r is Ok,
        r->Ok_0@ == pretty_text(json_view(*v)),
{
    serde_json::to_string_pretty(v).map_err(|e| e.to_string())
}

/// Trusted: `serde_json::from_value` into a list of strings gives the strings
/// of an array of strings, and an error for any other value, whose message
/// depends on the value alone.
#[verifier::external_body]
pub(crate) fn read_texts(v: &serde_json::Value) -> (r: Result<Vec<String>, String>)
    ensures
        match r {
            Ok(list) => is_texts(json_view(*v)) && text::texts(list@) == texts_of(json_view(*v)),
            Err(e) => !is_texts(json_view(*v)) && e@ == not_texts_reason(json_view(*v)),
        },
{
    serde_json::from_value::<Vec<String>>(v.clone()).map_err(|e| e.to_string())
}

/// Trusted: `Value::get` with a string gives the member under that key, and
/// nothing for a missing key or a value that is not an object.
#[verifier::external_body]
pub(crate) fn get_member(v: &serde_json::Value, key: &str) -> (r: Option<serde_json::Value>)
    ensures
        match r {
            Some(w) => member(json_view(*v), key@) == Some(json_view(w)),
            None => member(json_view(*v), key@) is None,
        },
{
    v.get(key).cloned()
}

/// Trusted: `Value::as_str` gives the text of a string and nothing for any
/// other value.
#[verifier::external_body]
pub(crate) fn read_text(v: &serde_json::Value) -> (r: Option<String>)
    ensures
        match r {
            Some(s) => json_view(*v) == JsonView::Text(s@),
            None => !(json_view(*v) is Text),
        },
{
    v.as_str().map(|s| s.to_string())
}

/// Trusted: `Value::as_bool` gives the truth value of a boolean and nothing for
/// any other value.
#[verifier::external_body]
pub(crate) fn read_bool(v: &serde_json::Value) -> (r: Option<bool>)
    ensures
        match r {
            Some(b) => json_view(*v) == JsonView::Bool(b),
            None => !(json_view(*v) is Bool),
        },
{
    v.as_bool()
}

/// Trusted: a `Value` of the variant `Object` holds the object's members; a
/// value of another variant is not an object.
#[verifier::external_body]
pub(crate) fn into_object(v: serde_json::Value) -> (r: Option<
    serde_json::Map<String, serde_json::Value>,
>)
    ensures
        match r {
            Some(m) => json_view(v) == JsonView::Object(members(m)),
            None => !(json_view(v) is Object),
        },
{
    match v {
        serde_json::Value::Object(m) => Some(m),
        _ => None,
    }
}

/// Trusted: `Value::Object` makes an object of members.
#[verifier::external_body]
pub(crate) fn object_value(m: serde_json::Map<String, serde_json::Value>) -> (v: serde_json::Value)
    ensures
        json_view(v) == JsonView::Object(members(m)),
{
    serde_json::Value::Object(m)
}

/// Trusted: `Value::String` makes a string.
#[verifier::external_body]
pub(crate) fn text_value(s: &str) -> (v: serde_json::Value)
    ensures
        json_view(v) == JsonView::Text(s@),
{
    serde_json::Value::String(s.to_string())
}

/// Trusted: `Value::Bool` makes a boolean.
#[verifier::external_body]
pub(crate) fn bool_value(b: bool) -> (v: serde_json::Value)
    ensures
        json_view(v) == JsonView::Bool(b),
{
    serde_json::Value::Bool(b)
}

/// Trusted: `Value::from` an unsigned integer makes the number, written in
/// decimal.
#[verifier::external_body]
pub(crate) fn number_value(n: u64) -> (v: serde_json::Value)
    ensures
        json_view(v) == number(n as nat),
{
    serde_json::Value::from(n)
}

/// Trusted: `Value::Array` makes an array of values, in order.
#[verifier::external_body]
pub(crate) fn array_value(items: Vec<serde_json::Value>) -> (v: serde_json::Value)
    ensures
        json_view(v) == JsonView::Array(items@.map_values(|i: serde_json::Value| json_view(i))),
{
    serde_json::Value::Array(items)
}

/// Trusted: `Map::new` makes an object without members.
#[verifier::external_body]
pub(crate) fn new_object() -> (m: serde_json::Map<String, serde_json::Value>)
    ensures
        members(m) == no_members(),
{
    serde_json::Map::new()
}

/// Trusted: `Map::insert` puts a member under a key, in place of one that is
/// there.
#[verifier::external_body]
pub(crate) fn insert_member(
    m: &mut serde_json::Map<String, serde_json::Value>,
    key: &str,
    v: serde_json::Value,
)
    ensures
        members(*final(m)) == members(*old(m)).insert(key@, json_view(v)),
{
    m.insert(key.to_string(), v);
}

/// Trusted: `Map::remove` takes the member under a key out, if there is one.
#[verifier::external_body]
pub(crate) fn remove_member(m: &mut serde_json::Map<String, serde_json::Value>, key: &str)
    ensures
        members(*final(m)) == members(*old(m)).remove(key@),
{
    m.remove(key);
}

/// Trusted: `Map::get` gives the member under a key.
#[verifier::external_body]
pub(crate) fn object_member(m: &serde_json::Map<String, serde_json::Value>, key: &str) -> (r: Option<
    serde_json::Value,
>)
    ensures
        match r {
            Some(v) => members(*m).contains_key(key@) && members(*m)[key@] == json_view(v),
            None => !members(*m).contains_key(key@),
        },
{
    m.get(key).cloned()
}

/// Trusted: `Map::keys` gives every key once, in ascending order: the map keeps
/// its members in a `BTreeMap`, whose string keys compare by their UTF-8 bytes,
/// that is, by their characters' codes.
#[verifier::external_body]
pub(crate) fn object_keys(m: &serde_json::Map<String, serde_json::Value>) -> (keys: Vec<String>)
    ensures
        forall|k: Seq<char>| #[trigger] text::texts(keys@).contains(k) <==> members(*m).contains_key(k),
        forall|i: int, j: int|
            0 <= i < j < keys@.len() ==> precedes((#[trigger] keys@[i])@, (#[trigger] keys@[j])@),
{
    m.keys().cloned().collect()
}

/// Makes an array of strings.
pub fn texts_value(list: &Vec<String>) -> (v: serde_json::Value)
    ensures
        json_view(v) == texts_array(text::texts(list@)),
{
    let mut items: Vec<serde_json::Value> = Vec::new();
    let mut i: usize = 0;
    while i < list.len()
        invariant
            i <= list@.len(),
            items@.len() == i,
            forall|k: int| 0 <= k < i ==> json_view(#[trigger] items@[k]) == JsonView::Text(list@[k]@),
        decreases list@.len() - i,
    {
        items.push(text_value(list[i].as_str()));
        i = i + 1;
    }
    let v = array_value(items);
    proof {
        assert(items@.map_values(|i: serde_json::Value| json_view(i)) =~= text::texts(
            list@,
        ).map_values(|s: Seq<char>| JsonView::Text(s)));
    }
    v
}

} // verus!
