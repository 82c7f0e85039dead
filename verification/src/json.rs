//! JSON documents as the library reads them: the answers of the store
//! tools (legendary, lgogdownloader) and of the umu database. Parsing is
//! serde_json's; the library reads the parsed tree.
use vstd::prelude::*;

verus! {

/// A JSON value. Numbers are kept as their decimal text; object members
/// are in the order serde_json's map holds them, each key once.
#[derive(Debug)]
pub enum Json {
    Null,
    Bool(bool),
    Number(String),
    Str(String),
    Array(Vec<Json>),
    Object(Vec<(String, Json)>),
}

#[verifier::external_type_specification]
#[verifier::external_body]
pub struct ExJsonValue(serde_json::Value);

/// What `serde_json::from_slice::<Value>` gives for `bytes`: the value, or
/// the text of its error.
pub uninterp spec fn json_value_of(bytes: Seq<u8>) -> Result<Json, Seq<char>>;

/// What `serde_json::from_slice::<Vec<Value>>` gives for `bytes`: the
/// array's values, or the text of its error.
pub uninterp spec fn json_array_of(bytes: Seq<u8>) -> Result<Seq<Json>, Seq<char>>;

/// Trusted: `serde_json::from_slice::<Value>`, the value converted
/// member by member; the result is named `json_value_of(bytes)`.
#[verifier::external_body]
pub(crate) fn parse_json(bytes: &[u8]) -> (r: Result<Json, String>)
    ensures
        match r {
            Ok(j) => json_value_of(bytes@) == Ok::<Json, Seq<char>>(j),
            Err(e) => json_value_of(bytes@) == Err::<Json, Seq<char>>(e@),
        },
{
    match serde_json::from_slice::<serde_json::Value>(bytes) {
        Ok(v) => Ok(from_value(&v)),
        Err(e) => Err(e.to_string()),
    }
}

/// Trusted: `serde_json::from_slice::<Vec<Value>>`, each value converted;
/// the result is named `json_array_of(bytes)`.
#[verifier::external_body]
pub(crate) fn parse_json_array(bytes: &[u8]) -> (r: Result<Vec<Json>, String>)
    ensures
        match r {
            Ok(v) => json_array_of(bytes@) == Ok::<Seq<Json>, Seq<char>>(v@),
            Err(e) => json_array_of(bytes@) == Err::<Seq<Json>, Seq<char>>(e@),
        },
{
    match serde_json::from_slice::<Vec<serde_json::Value>>(bytes) {
        Ok(v) => Ok(v.iter().map(from_value).collect()),
        Err(e) => Err(e.to_string()),
    }
}

/// Trusted: converts a `serde_json::Value` into a `Json`, variant by
/// variant (numbers by their `to_string`).
#[verifier::external_body]
fn from_value(v: &serde_json::Value) -> Json {
    match v {
        serde_json::Value::Null => Json::Null,
        serde_json::Value::Bool(b) => Json::Bool(*b),
        serde_json::Value::Number(n) => Json::Number(n.to_string()),
        serde_json::Value::String(s) => Json::Str(s.clone()),
        serde_json::Value::Array(a) => Json::Array(a.iter().map(from_value).collect()),
        serde_json::Value::Object(o) => Json::Object(o.iter().map(|(k, x)| (k.clone(), from_value(x))).collect()),
    }
}

/// The member `key` of an object (`Value::get` with a string index).
#[verifier::opaque]
pub open spec fn member(j: Json, key: Seq<char>) -> Option<Json> {
    match j {
        Json::Object(ms) => if exists|i: int| 0 <= i < ms@.len() && (#[trigger] ms@[i]).0@ == key {
            Some(
                ms@[choose|i: int|
                    0 <= i < ms@.len() && (#[trigger] ms@[i]).0@ == key && forall|k: int|
                        0 <= k < i ==> (#[trigger] ms@[k]).0@ != key].1,
            )
        } else {
            None
        },
        _ => None,
    }
}

/// The text of a string value (`Value::as_str`).
pub open spec fn text_of(j: Option<Json>) -> Option<Seq<char>> {
    match j {
        Some(Json::Str(s)) => Some(s@),
        _ => None,
    }
}

proof fn lemma_first_key(ms: Seq<(String, Json)>, key: Seq<char>, i: int)
    requires
        0 <= i < ms.len(),
        ms[i].0@ == key,
        forall|k: int| 0 <= k < i ==> (#[trigger] ms[k]).0@ != key,
    ensures
        (choose|j: int|
            0 <= j < ms.len() && (#[trigger] ms[j]).0@ == key && forall|k: int|
                0 <= k < j ==> (#[trigger] ms[k]).0@ != key) == i,
{
    let j = choose|j: int|
        0 <= j < ms.len() && (#[trigger] ms[j]).0@ == key && forall|k: int| 0 <= k < j ==> (#[trigger] ms[k]).0@ != key;
    if j < i {
        assert(ms[j].0@ != key);
    } else if j > i {
        assert(ms[i].0@ != key);
    }
}

proof fn lemma_member_at(ms: Vec<(String, Json)>, key: Seq<char>, i: int)
    requires
        0 <= i < ms@.len(),
        ms@[i].0@ == key,
        forall|k: int| 0 <= k < i ==> (#[trigger] ms@[k]).0@ != key,
    ensures
        member(Json::Object(ms), key) == Some(ms@[i].1),
{
    reveal(member);
    lemma_first_key(ms@, key, i);
    assert(exists|q: int| 0 <= q < ms@.len() && (#[trigger] ms@[q]).0@ == key);
}

/// `Value::get(key)`: the member `key` of an object, `None` for anything
/// else or a missing key.
pub fn get<'a>(j: &'a Json, key: &str) -> (r: Option<&'a Json>)
    ensures
        match r {
            Some(v) => member(*j, key@) == Some(*v),
            None => member(*j, key@) is None,
        },
{
    match j {
        Json::Object(ms) => {
            let want = crate::text::chars_of(key);
            let mut i: usize = 0;
            while i < ms.len()
                invariant
                    i <= ms@.len(),
                    *j == Json::Object(*ms),
                    want@ == key@,
                    forall|k: int| 0 <= k < i ==> (#[trigger] ms@[k]).0@ != key@,
                decreases ms.len() - i,
            {
                let have = crate::text::chars_of(ms[i].0.as_str());
                if crate::text::seq_eq(&have, &want) {
                    proof {
                        lemma_member_at(*ms, key@, i as int);
                    }
                    return Some(&ms[i].1);
                }
                i = i + 1;
            }
            proof {
                reveal(member);
            }
            None
        },
        _ => {
            proof {
                reveal(member);
            }
            None
        },
    }
}

/// `Value::as_str`.
pub fn as_str(j: Option<&Json>) -> (r: Option<&str>)
    ensures
        match r {
            Some(s) => text_of(match j {
                Some(v) => Some(*v),
                None => None,
            }) == Some(s@),
            None => text_of(match j {
                Some(v) => Some(*v),
                None => None,
            }) is None,
        },
{
    match j {
        Some(Json::Str(s)) => Some(s.as_str()),
        _ => None,
    }
}

/// The text of the string member `key` of `j`.
pub open spec fn str_member(j: Json, key: Seq<char>) -> Option<Seq<char>> {
    text_of(member(j, key))
}

pub fn get_str<'a>(j: &'a Json, key: &str) -> (r: Option<&'a str>)
    ensures
        match r {
            Some(s) => str_member(*j, key@) == Some(s@),
            None => str_member(*j, key@) is None,
        },
{
    as_str(get(j, key))
}

} // verus!
