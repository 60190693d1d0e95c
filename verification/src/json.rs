use vstd::prelude::*;
use vstd::view::View as _;

verus! {

#[verifier::external_type_specification]
#[verifier::external_body]
pub struct ExJsonValue(serde_json::Value);

/// A JSON document as a tree of plain values. Numbers are kept as far as the
/// player reads them: the value of a non-negative integer that fits a `u64`,
/// `None` for any other number.
pub enum Json {
    Null,
    Bool(bool),
    Number(Option<u64>),
    Text(String),
    Array(Vec<Json>),
    Object(Vec<(String, Json)>),
}

/// The document that `serde_json::from_str` reads from a text, as a tree;
/// `None` where the text is not JSON.
pub uninterp spec fn spec_json(text: Seq<char>) -> Option<Json>;

/// Converts a value of serde_json into the tree, one arm per variant: a
/// number becomes its `Number::as_u64`, an object's members come in the
/// order in which its map lists them. Used only by `parse_json_text`.
#[verifier::external_body]
fn json_of(v: &serde_json::Value) -> Json {
    match v {
        serde_json::Value::Null => Json::Null,
        serde_json::Value::Bool(b) => Json::Bool(*b),
        serde_json::Value::Number(n) => Json::Number(n.as_u64()),
        serde_json::Value::String(s) => Json::Text(s.clone()),
        serde_json::Value::Array(a) => Json::Array(a.iter().map(json_of).collect()),
        serde_json::Value::Object(m) => Json::Object(m.iter().map(|(k, x)| (k.clone(), json_of(x))).collect()),
    }
}

/// Calls `serde_json::from_str` for a `serde_json::Value`; the document,
/// converted into the tree, is named by `spec_json`, and is `None` exactly
/// where serde_json reports an error.
#[verifier::external_body]
pub(crate) fn parse_json_text(text: &str) -> (r: Option<Json>)
    ensures
        r == spec_json(text@),
{
    match serde_json::from_str::<serde_json::Value>(text) {
        Ok(v) => Some(json_of(&v)),
        Err(_) => None,
    }
}

/// The first member named `key` of an object's members.
pub open spec fn member(m: Seq<(String, Json)>, key: Seq<char>) -> Option<Json>
    decreases m.len(),
{
    if m.len() == 0 {
        None
    } else if m[0].0@ == key {
        Some(m[0].1)
    } else {
        member(m.drop_first(), key)
    }
}

/// The member `key` of a JSON value: nothing where the value is not an
/// object or has no such member (what `value[key]` reads as `null`).
pub open spec fn field(j: Json, key: Seq<char>) -> Option<Json> {
    match j {
        Json::Object(m) => member(m@, key),
        _ => None,
    }
}

/// The member `key` of an optional value.
pub open spec fn field_in(o: Option<Json>, key: Seq<char>) -> Option<Json> {
    match o {
        Some(j) => field(j, key),
        None => None,
    }
}

pub open spec fn deref_opt(o: Option<&Json>) -> Option<Json> {
    match o {
        Some(j) => Some(*j),
        None => None,
    }
}

fn find_member<'a>(m: &'a Vec<(String, Json)>, key: &str) -> (r: Option<&'a Json>)
    ensures
        deref_opt(r) == member(m@, key@),
{
    let mut i: usize = 0;
    assert(m@.skip(0) =~= m@);
    while i < m.len()
        invariant
            0 <= i <= m@.len(),
            member(m@, key@) == member(m@.skip(i as int), key@),
        decreases m@.len() - i,
    {
        assert(m@.skip(i as int).drop_first() =~= m@.skip(i + 1));
        assert(m@.skip(i as int)[0] == m@[i as int]);
        if m[i].0 == String::from_str(key) {
            return Some(&m[i].1);
        }
        i = i + 1;
    }
    assert(m@.skip(i as int) =~= Seq::<(String, Json)>::empty());
    None
}

/// The member `key` of a JSON value, if it is an object that has one.
pub fn get_field<'a>(j: &'a Json, key: &str) -> (r: Option<&'a Json>)
    ensures
        deref_opt(r) == field(*j, key@),
{
    match j {
        Json::Object(m) => find_member(m, key),
        _ => None,
    }
}

/// The member `key` of an optional JSON value.
pub fn get_field_in<'a>(o: Option<&'a Json>, key: &str) -> (r: Option<&'a Json>)
    ensures
        deref_opt(r) == field_in(deref_opt(o), key@),
{
    match o {
        Some(j) => get_field(j, key),
        None => None,
    }
}

} // verus!
