//! The `<script>` syntax tree in its ESTree form.
//!
//! oxc parses the script; its ESTree serialisation (JSON) is read back with
//! serde_json into [`Json`], a plain tree the rules and the taint facts are
//! computed on. A node is an object with a `type` field and `start` / `end`
//! byte offsets into the parsed text.

use vstd::prelude::*;

use crate::text::str_eq;

verus! {

#[verifier::external_type_specification]
#[verifier::external_body]
pub struct ExValue(serde_json::Value);

#[verifier::external_type_specification]
#[verifier::external_body]
pub struct ExNumber(serde_json::Number);

#[verifier::external_type_specification]
#[verifier::external_body]
#[verifier::reject_recursive_types(K)]
#[verifier::reject_recursive_types(V)]
pub struct ExMap<K, V>(serde_json::Map<K, V>);

/// A JSON value.
#[derive(Debug)]
pub enum Json {
    Null,
    Bool(bool),
    /// A non-negative integer (offsets, counts).
    Int(u64),
    /// Any other number; its value is not kept.
    OtherNumber,
    Str(String),
    Arr(Vec<Json>),
    /// Members in the order of the text.
    Obj(Vec<(String, Json)>),
}

/// One level of a `serde_json::Value`: its variant, the payload moved out.
pub enum Shallow<'a> {
    Null,
    Bool(bool),
    Number(&'a serde_json::Number),
    Str(&'a String),
    Arr(&'a Vec<serde_json::Value>),
    Obj(&'a serde_json::Map<String, serde_json::Value>),
}

/// Whether serde_json reads `text` as one JSON value: a function of the
/// text alone.
pub uninterp spec fn json_parses(text: Seq<char>) -> bool;

/// `serde_json::from_str::<Value>`: the text read as JSON, `None` when it
/// is not JSON. Whether it succeeds is named; nothing is stated of the
/// value itself.
#[verifier::external_body]
fn parse_json_value(text: &str) -> (r: Option<serde_json::Value>)
    ensures
        r is Some == json_parses(text@),
{
    serde_json::from_str::<serde_json::Value>(text).ok()
}

/// Tells the variants of a `serde_json::Value` apart.
#[verifier::external_body]
fn shallow(v: &serde_json::Value) -> Shallow<'_> {
    match v {
        serde_json::Value::Null => Shallow::Null,
        serde_json::Value::Bool(b) => Shallow::Bool(*b),
        serde_json::Value::Number(n) => Shallow::Number(n),
        serde_json::Value::String(s) => Shallow::Str(s),
        serde_json::Value::Array(a) => Shallow::Arr(a),
        serde_json::Value::Object(m) => Shallow::Obj(m),
    }
}

/// `serde_json::Number::as_u64`: the number when it is a non-negative
/// integer.
#[verifier::external_body]
fn number_as_u64(n: &serde_json::Number) -> Option<u64> {
    n.as_u64()
}

/// `serde_json::Map::iter`: the members of an object, in the order of the
/// text (serde_json's `preserve_order` feature keeps insertion order).
#[verifier::external_body]
fn map_entries(m: &serde_json::Map<String, serde_json::Value>) -> Vec<(&String, &serde_json::Value)> {
    m.iter().collect()
}

/// The JSON value of `v`, read down to `depth` levels; deeper values
/// become `Null`.
fn from_value(v: &serde_json::Value, depth: usize) -> (r: Json)
    ensures
        depth == 0 ==> r is Null,
    decreases depth,
{
    if depth == 0 {
        return Json::Null;
    }
    match shallow(v) {
        Shallow::Null => Json::Null,
        Shallow::Bool(b) => Json::Bool(b),
        Shallow::Number(n) => match number_as_u64(n) {
            Some(x) => Json::Int(x),
            None => Json::OtherNumber,
        },
        Shallow::Str(s) => Json::Str(s.clone()),
        Shallow::Arr(a) => {
            let mut out: Vec<Json> = Vec::new();
            let mut i: usize = 0;
            while i < a.len()
                invariant
                    i <= a.len(),
                    depth > 0,
                decreases a.len() - i,
            {
                out.push(from_value(&a[i], depth - 1));
                i = i + 1;
            }
            Json::Arr(out)
        },
        Shallow::Obj(m) => {
            let entries = map_entries(m);
            let mut out: Vec<(String, Json)> = Vec::new();
            let mut i: usize = 0;
            while i < entries.len()
                invariant
                    i <= entries.len(),
                    depth > 0,
                decreases entries.len() - i,
            {
                let (k, x) = entries[i];
                out.push((k.clone(), from_value(x, depth - 1)));
                i = i + 1;
            }
            Json::Obj(out)
        },
    }
}

/// The JSON text read as a [`Json`] tree; `None` when it is not JSON.
/// Nesting is read to a depth of the text's length, which no JSON text
/// exceeds.
pub(crate) fn parse_json(text: &str) -> (r: Option<Json>)
    ensures
        r is Some == json_parses(text@),
{
    match parse_json_value(text) {
        Some(v) => Some(from_value(&v, text.len())),
        None => None,
    }
}

/// The value of the first member named `key` of an object.
pub open spec fn field_of(fields: Seq<(String, Json)>, key: Seq<char>) -> Option<Json>
    decreases fields.len(),
{
    if fields.len() == 0 {
        None
    } else if fields[0].0@ == key {
        Some(fields[0].1)
    } else {
        field_of(fields.drop_first(), key)
    }
}

/// Position of the first member named `key`; -1 when there is none.
pub open spec fn field_index(fields: Seq<(String, Json)>, key: Seq<char>) -> int
    decreases fields.len(),
{
    if fields.len() == 0 {
        -1
    } else if fields[0].0@ == key {
        0
    } else {
        let r = field_index(fields.drop_first(), key);
        if r < 0 {
            -1
        } else {
            r + 1
        }
    }
}

proof fn lemma_field_index(fields: Seq<(String, Json)>, key: Seq<char>)
    ensures
        field_index(fields, key) < fields.len(),
        field_index(fields, key) >= 0 ==> field_of(fields, key) == Some(
            fields[field_index(fields, key)].1,
        ),
        field_index(fields, key) < 0 ==> field_of(fields, key) is None,
    decreases fields.len(),
{
    if fields.len() > 0 && fields[0].0@ != key {
        lemma_field_index(fields.drop_first(), key);
    }
}

/// A member of a value is smaller than the value: recursion over members
/// terminates.
pub proof fn lemma_get_smaller(j: Json, key: Seq<char>)
    ensures
        get(j, key) matches Some(c) ==> decreases_to!(j => c),
{
    match j {
        Json::Obj(fields) => {
            lemma_field_index(fields@, key);
            let i = field_index(fields@, key);
            if i >= 0 {
                assert(decreases_to!(fields@ => fields@[i]));
                assert(decreases_to!(j => fields@[i].1));
            }
        },
        _ => {},
    }
}

/// An element of an array member is smaller than the value.
pub proof fn lemma_item_smaller(j: Json, key: Seq<char>, k: int)
    requires
        0 <= k < items_of(get(j, key)).len(),
    ensures
        decreases_to!(j => items_of(get(j, key))[k]),
{
    lemma_get_smaller(j, key);
    match get(j, key) {
        Some(Json::Arr(v)) => {
            assert(decreases_to!(v@ => v@[k]));
        },
        _ => {},
    }
}

/// The member `key` of `j` when `j` is an object that has one.
pub open spec fn get(j: Json, key: Seq<char>) -> Option<Json> {
    match j {
        Json::Obj(fields) => field_of(fields@, key),
        _ => None,
    }
}

/// The `type` of a node; empty when `j` is not a node.
pub open spec fn node_type(j: Json) -> Seq<char> {
    match get(j, "type"@) {
        Some(Json::Str(s)) => s@,
        _ => seq![],
    }
}

/// The text of a string value.
pub open spec fn str_of(j: Option<Json>) -> Option<Seq<char>> {
    match j {
        Some(Json::Str(s)) => Some(s@),
        _ => None,
    }
}

/// The elements of an array value; empty for anything else.
pub open spec fn items_of(j: Option<Json>) -> Seq<Json> {
    match j {
        Some(Json::Arr(v)) => v@,
        _ => seq![],
    }
}

/// The `start` and `end` offsets of a node, when both are integers.
pub open spec fn range_of(j: Json) -> Option<(u64, u64)> {
    match (get(j, "start"@), get(j, "end"@)) {
        (Some(Json::Int(s)), Some(Json::Int(e))) => Some((s, e)),
        _ => None,
    }
}

/// The member `key` of `j`, when `j` is an object that has one.
pub fn get_field<'a>(j: &'a Json, key: &str) -> (r: Option<&'a Json>)
    ensures
        match r {
            Some(x) => get(*j, key@) == Some(*x),
            None => get(*j, key@) is None,
        },
{
    match j {
        Json::Obj(fields) => {
            let mut i: usize = 0;
            assert(fields@.skip(0) =~= fields@);
            while i < fields.len()
                invariant
                    i <= fields.len(),
                    get(*j, key@) == field_of(fields@.skip(i as int), key@),
                decreases fields.len() - i,
            {
                proof {
                    let rest = fields@.skip(i as int);
                    assert(rest.drop_first() =~= fields@.skip(i + 1));
                    assert(rest[0] == fields@[i as int]);
                }
                if str_eq(fields[i].0.as_str(), key) {
                    proof {
                        let rest = fields@.skip(i as int);
                        assert(rest[0].0@ == key@);
                        assert(field_of(rest, key@) == Some(rest[0].1));
                    }
                    return Some(&fields[i].1);
                }
                i = i + 1;
            }
            assert(fields@.skip(i as int) =~= Seq::<(String, Json)>::empty());
            None
        },
        _ => None,
    }
}

/// True when `j` is a node of type `t`.
pub fn is_type(j: &Json, t: &str) -> (r: bool)
    ensures
        r == (node_type(*j) == t@),
{
    match get_field(j, "type") {
        Some(Json::Str(s)) => str_eq(s.as_str(), t),
        _ => {
            assert(node_type(*j) =~= Seq::<char>::empty());
            if t.is_empty() {
                assert(t@ =~= Seq::<char>::empty());
                true
            } else {
                false
            }
        },
    }
}

/// The text of the string member `key` of `j`.
pub fn get_str<'a>(j: &'a Json, key: &str) -> (r: Option<&'a String>)
    ensures
        match r {
            Some(s) => str_of(get(*j, key@)) == Some(s@),
            None => str_of(get(*j, key@)) is None,
        },
{
    match get_field(j, key) {
        Some(Json::Str(s)) => Some(s),
        _ => None,
    }
}

/// The elements of the array member `key` of `j` (none when it is not an
/// array).
pub fn get_items<'a>(j: &'a Json, key: &str) -> (r: Option<&'a Vec<Json>>)
    ensures
        match r {
            Some(v) => get(*j, key@) == Some(Json::Arr(*v)) && items_of(get(*j, key@)) == v@,
            None => items_of(get(*j, key@)) == Seq::<Json>::empty() && !(get(*j, key@) matches Some(Json::Arr(_))),
        },
{
    match get_field(j, key) {
        Some(Json::Arr(v)) => Some(v),
        _ => None,
    }
}

/// The `start` and `end` offsets of a node.
pub fn get_range(j: &Json) -> (r: Option<(u64, u64)>)
    ensures
        r == range_of(*j),
{
    match (get_field(j, "start"), get_field(j, "end")) {
        (Some(Json::Int(s)), Some(Json::Int(e))) => Some((*s, *e)),
        _ => None,
    }
}

} // verus!
