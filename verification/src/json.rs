//! A plain-value JSON model. Upstream payloads are parsed by serde_json
//! behind a trusted boundary and converted into this model once; all
//! navigation and shaping logic is then verified against it.

use vstd::prelude::*;

use crate::text::str_eq;

verus! {

/// A parsed JSON document as plain values. Numbers keep their value only
/// where it is representable as `u64` (the only numbers the extraction
/// logic reads); any other number is `NumOther`.
#[derive(Debug)]
pub enum Json {
    Null,
    Bool(bool),
    UInt(u64),
    NumOther,
    Str(String),
    Arr(Vec<Json>),
    Obj(Vec<(String, Json)>),
}

/// The first entry of `es` whose key reads `key`, if any.
pub open spec fn spec_lookup(es: Seq<(String, Json)>, key: Seq<char>) -> Option<Json>
    decreases es.len(),
{
    if es.len() == 0 {
        None
    } else if es[0].0@ == key {
        Some(es[0].1)
    } else {
        spec_lookup(es.drop_first(), key)
    }
}

/// Field lookup: the value under `key` when `j` is an object holding it.
pub open spec fn spec_get(j: Json, key: Seq<char>) -> Option<Json> {
    match j {
        Json::Obj(es) => spec_lookup(es@, key),
        _ => None,
    }
}

/// The characters of `j` when it is a string.
pub open spec fn spec_as_str(j: Json) -> Option<Seq<char>> {
    match j {
        Json::Str(s) => Some(s@),
        _ => None,
    }
}

/// The value of `j` when it is a number representable as `u64`.
pub open spec fn spec_as_u64(j: Json) -> Option<u64> {
    match j {
        Json::UInt(n) => Some(n),
        _ => None,
    }
}

/// The value of `j` when it is a boolean.
pub open spec fn spec_as_bool(j: Json) -> Option<bool> {
    match j {
        Json::Bool(b) => Some(b),
        _ => None,
    }
}

/// The elements of `j` when it is an array.
pub open spec fn spec_as_arr(j: Json) -> Option<Seq<Json>> {
    match j {
        Json::Arr(a) => Some(a@),
        _ => None,
    }
}

/// Whether `j` is the JSON null.
pub open spec fn spec_is_null(j: Json) -> bool {
    j is Null
}

impl Json {
    /// The value under `key` when this is an object holding that key.
    pub fn get<'a>(&'a self, key: &str) -> (r: Option<&'a Json>)
        ensures
            match r {
                Some(v) => spec_get(*self, key@) == Some(*v),
                None => spec_get(*self, key@) is None,
            },
    {
        match self {
            Json::Obj(es) => {
                assert(es@.skip(0) =~= es@);
                let mut i: usize = 0;
                while i < es.len()
                    invariant
                        i <= es@.len(),
                        spec_get(*self, key@) == spec_lookup(es@, key@),
                        spec_lookup(es@, key@) == spec_lookup(es@.skip(i as int), key@),
                    decreases es@.len() - i,
                {
                    let ghost rest = es@.skip(i as int);
                    assert(rest[0] == es@[i as int]);
                    if str_eq(es[i].0.as_str(), key) {
                        assert(spec_lookup(rest, key@) == Some(es@[i as int].1));
                        return Some(&es[i].1);
                    }
                    assert(rest.drop_first() =~= es@.skip(i + 1));
                    i += 1;
                }
                assert(es@.skip(i as int) =~= Seq::<(String, Json)>::empty());
                None
            },
            _ => None,
        }
    }

    /// This value as a string.
    pub fn as_str(&self) -> (r: Option<&String>)
        ensures
            match r {
                Some(s) => spec_as_str(*self) == Some(s@),
                None => spec_as_str(*self) is None,
            },
    {
        match self {
            Json::Str(s) => Some(s),
            _ => None,
        }
    }

    /// This value as a `u64` number.
    pub fn as_u64(&self) -> (r: Option<u64>)
        ensures
            r == spec_as_u64(*self),
    {
        match self {
            Json::UInt(n) => Some(*n),
            _ => None,
        }
    }

    /// This value as a boolean.
    pub fn as_bool(&self) -> (r: Option<bool>)
        ensures
            r == spec_as_bool(*self),
    {
        match self {
            Json::Bool(b) => Some(*b),
            _ => None,
        }
    }

    /// The elements of this value when it is an array.
    pub fn as_array(&self) -> (r: Option<&Vec<Json>>)
        ensures
            match r {
                Some(a) => spec_as_arr(*self) == Some(a@),
                None => spec_as_arr(*self) is None,
            },
    {
        match self {
            Json::Arr(a) => Some(a),
            _ => None,
        }
    }

    /// Whether this value is the JSON null.
    pub fn is_null(&self) -> (r: bool)
        ensures
            r == spec_is_null(*self),
    {
        matches!(self, Json::Null)
    }
}

#[verifier::external_type_specification]
#[verifier::external_body]
pub struct ExSerdeValue(serde_json::Value);

/// Relies on serde_json::Value's variants: maps each variant to the
/// corresponding constructor of `Json`, one arm each, moving fields;
/// numbers keep their value exactly where `as_u64` gives one.
#[verifier::external_body]
fn json_from_value(v: serde_json::Value) -> Json {
    match v {
        serde_json::Value::Null => Json::Null,
        serde_json::Value::Bool(b) => Json::Bool(b),
        serde_json::Value::Number(n) => match n.as_u64() {
            Some(u) => Json::UInt(u),
            None => Json::NumOther,
        },
        serde_json::Value::String(s) => Json::Str(s),
        serde_json::Value::Array(a) => Json::Arr(a.into_iter().map(json_from_value).collect()),
        serde_json::Value::Object(m) => Json::Obj(
            m.into_iter().map(|(k, w)| (k, json_from_value(w))).collect(),
        ),
    }
}

/// What parsing a text as a JSON document yields in the crate's model:
/// `None` on malformed input. The parse is a function of the text alone.
pub uninterp spec fn spec_parsed_json(s: Seq<char>) -> Option<Json>;

/// Relies on serde_json::from_str::<serde_json::Value>: deterministically
/// parses a JSON document, failing exactly on malformed input; the result
/// is converted to the crate's model by `json_from_value`.
#[verifier::external_body]
pub fn parse_json(s: &str) -> (r: Option<Json>)
    ensures
        r == spec_parsed_json(s@),
{
    serde_json::from_str::<serde_json::Value>(s).ok().map(json_from_value)
}

} // verus!
