//! A JSON value as the codec reads and writes it.
use vstd::prelude::*;

verus! {

/// A JSON number: a non-negative integer, a negative integer, or a number
/// with a fractional part or exponent (whose value the codec never reads).
#[derive(Clone, Copy, Debug, PartialEq, Eq)]
pub enum JsonNumber {
    PosInt(u64),
    NegInt(i64),
    Float,
}

/// A JSON value. The codec never looks inside arrays and objects, so
/// only their kind is kept.
#[derive(Clone, Debug, PartialEq, Eq)]
pub enum JsonValue {
    Null,
    Bool(bool),
    Number(JsonNumber),
    String(String),
    Array,
    Object,
}

/// The number as a signed 64-bit integer, when it is an integer in range.
pub open spec fn number_as_i64(n: JsonNumber) -> Option<int> {
    match n {
        JsonNumber::PosInt(u) => if u <= i64::MAX {
            Some(u as int)
        } else {
            None
        },
        JsonNumber::NegInt(i) => Some(i as int),
        JsonNumber::Float => None,
    }
}

/// The number as an unsigned 64-bit integer, when it is an integer in range.
pub open spec fn number_as_u64(n: JsonNumber) -> Option<int> {
    match n {
        JsonNumber::PosInt(u) => Some(u as int),
        JsonNumber::NegInt(i) => if i >= 0 {
            Some(i as int)
        } else {
            None
        },
        JsonNumber::Float => None,
    }
}

/// The JSON number that writes the integer `d`.
pub open spec fn json_int(d: int) -> JsonValue {
    if d >= 0 {
        JsonValue::Number(JsonNumber::PosInt(d as u64))
    } else {
        JsonValue::Number(JsonNumber::NegInt(d as i64))
    }
}

/// Whether `v` is the JSON string `s`.
pub open spec fn is_json_string(v: JsonValue, s: Seq<char>) -> bool {
    match v {
        JsonValue::String(t) => t@ == s,
        _ => false,
    }
}

impl JsonNumber {
    /// The number as a signed 64-bit integer, when it is an integer in range.
    pub fn as_i64(&self) -> (r: Option<i64>)
        ensures
            match r {
                Some(x) => number_as_i64(*self) == Some(x as int),
                None => number_as_i64(*self) is None,
            },
    {
        match *self {
            JsonNumber::PosInt(u) => if u <= 9223372036854775807u64 {
                Some(u as i64)
            } else {
                None
            },
            JsonNumber::NegInt(i) => Some(i),
            JsonNumber::Float => None,
        }
    }

    /// The number as an unsigned 64-bit integer, when it is an integer in range.
    pub fn as_u64(&self) -> (r: Option<u64>)
        ensures
            match r {
                Some(x) => number_as_u64(*self) == Some(x as int),
                None => number_as_u64(*self) is None,
            },
    {
        match *self {
            JsonNumber::PosInt(u) => Some(u),
            JsonNumber::NegInt(i) => if i >= 0 {
                Some(i as u64)
            } else {
                None
            },
            JsonNumber::Float => None,
        }
    }
}

/// Writes the integer `d` as a JSON number.
pub fn int_to_json(d: i128) -> (r: JsonValue)
    requires
        i64::MIN <= d <= u64::MAX,
    ensures
        r == json_int(d as int),
{
    if d >= 0 {
        JsonValue::Number(JsonNumber::PosInt(d as u64))
    } else {
        JsonValue::Number(JsonNumber::NegInt(d as i64))
    }
}

} // verus!
