//! A JSON document model: the values that the API's responses carry, as the
//! decoding logic reads them.

use vstd::prelude::*;
use crate::text::str_eq;

verus! {

/// A JSON number, as far as the decoding logic reads it: non-negative
/// integers, negative integers, and other (fractional or exponent) numbers.
#[derive(Debug, Clone, Copy, PartialEq, Eq, Structural)]
pub enum JsonNumber {
    /// A non-negative integer.
    PosInt(u64),
    /// A negative integer.
    NegInt(i64),
    /// Any number that is not an integer in the 64-bit range.
    Float,
}

/// A JSON value. An object keeps its members in order; a lookup by key
/// takes the first member with that key.
#[derive(Debug, PartialEq)]
pub enum Json {
    Null,
    Bool(bool),
    Number(JsonNumber),
    Str(String),
    Array(Vec<Json>),
    Object(Vec<(String, Json)>),
}

/// The value stored under `key` among object members (the first such member).
pub open spec fn entries_get(entries: Seq<(String, Json)>, key: Seq<char>) -> Option<Json>
    decreases entries.len(),
{
    if entries.len() == 0 {
        None
    } else if entries[0].0@ == key {
        Some(entries[0].1)
    } else {
        entries_get(entries.drop_first(), key)
    }
}

/// `value.get(key)`: the member `key` of an object, nothing for other values.
pub open spec fn json_get(v: Json, key: Seq<char>) -> Option<Json> {
    match v {
        Json::Object(m) => entries_get(m@, key),
        _ => None,
    }
}

/// `value.as_u64()`: a non-negative integer.
pub open spec fn json_as_u64(v: Json) -> Option<u64> {
    match v {
        Json::Number(JsonNumber::PosInt(u)) => Some(u),
        _ => None,
    }
}

/// `value.as_i64()`: an integer in the `i64` range.
pub open spec fn json_as_i64(v: Json) -> Option<i64> {
    match v {
        Json::Number(JsonNumber::PosInt(u)) => if u <= i64::MAX {
            Some(u as i64)
        } else {
            None
        },
        Json::Number(JsonNumber::NegInt(i)) => Some(i),
        _ => None,
    }
}

/// `value.as_str()`: the characters of a string value.
pub open spec fn json_as_str(v: Json) -> Option<Seq<char>> {
    match v {
        Json::Str(s) => Some(s@),
        _ => None,
    }
}

/// `value.as_array()`: the elements of an array value.
pub open spec fn json_as_array(v: Json) -> Option<Seq<Json>> {
    match v {
        Json::Array(a) => Some(a@),
        _ => None,
    }
}

impl Json {
    /// The member `key` of an object.
    pub fn get(&self, key: &str) -> (r: Option<&Json>)
        ensures
            match r {
                Some(x) => json_get(*self, key@) == Some(*x),
                None => json_get(*self, key@) is None,
            },
    {
        match self {
            Json::Object(m) => {
                let mut i: usize = 0;
                assert(m@.skip(0) =~= m@);
                while i < m.len()
                    invariant
                        i <= m.len(),
                        json_get(*self, key@) == entries_get(m@, key@),
                        entries_get(m@, key@) == entries_get(m@.skip(i as int), key@),
                    decreases m.len() - i,
                {
                    assert(m@.skip(i as int).drop_first() =~= m@.skip(i + 1));
                    assert(m@.skip(i as int)[0] == m@[i as int]);
                    let e = &m[i];
                    if str_eq(e.0.as_str(), key) {
                        return Some(&e.1);
                    }
                    i = i + 1;
                }
                None
            },
            _ => None,
        }
    }

    /// A non-negative integer value.
    pub fn as_u64(&self) -> (r: Option<u64>)
        ensures
            r == json_as_u64(*self),
    {
        match self {
            Json::Number(JsonNumber::PosInt(u)) => Some(*u),
            _ => None,
        }
    }

    /// An integer value in the `i64` range.
    pub fn as_i64(&self) -> (r: Option<i64>)
        ensures
            r == json_as_i64(*self),
    {
        match self {
            Json::Number(JsonNumber::PosInt(u)) => if *u <= 9223372036854775807u64 {
                Some(*u as i64)
            } else {
                None
            },
            Json::Number(JsonNumber::NegInt(i)) => Some(*i),
            _ => None,
        }
    }

    /// A string value.
    pub fn as_str(&self) -> (r: Option<&str>)
        ensures
            match r {
                Some(s) => json_as_str(*self) == Some(s@),
                None => json_as_str(*self) is None,
            },
    {
        match self {
            Json::Str(s) => Some(s.as_str()),
            _ => None,
        }
    }

    /// The elements of an array value.
    pub fn as_array(&self) -> (r: Option<&Vec<Json>>)
        ensures
            match r {
                Some(a) => json_as_array(*self) == Some(a@),
                None => json_as_array(*self) is None,
            },
    {
        match self {
            Json::Array(a) => Some(a),
            _ => None,
        }
    }
}

} // verus!
