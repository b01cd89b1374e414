//! JSON documents as yt-dlp prints them, and the reads the crate makes of them.
use vstd::prelude::*;
use crate::text::{chars_of, str_eq, owned};

verus! {

/// A JSON number: its value when it is an integer that fits in `u64`, and
/// the numeral that `serde_json` prints for it (which `f64::from_str` reads
/// back as the number's `f64` value).
#[derive(Debug, Clone)]
pub struct JsonNumber {
    pub as_u64: Option<u64>,
    pub text: String,
}

/// A JSON value; an object keeps its members in order, each key once.
#[derive(Debug)]
pub enum JsonValue {
    Null,
    Bool(bool),
    Number(JsonNumber),
    String(String),
    Array(Vec<JsonValue>),
    Object(Vec<(String, JsonValue)>),
}

/// The member named `key` among `es`.
pub open spec fn member(es: Seq<(String, JsonValue)>, key: Seq<char>) -> Option<JsonValue>
    decreases es.len(),
{
    if es.len() == 0 {
        None
    } else if es[0].0@ == key {
        Some(es[0].1)
    } else {
        member(es.drop_first(), key)
    }
}

/// `Value::get(key)`: the member of an object.
pub open spec fn field(v: JsonValue, key: Seq<char>) -> Option<JsonValue> {
    match v {
        JsonValue::Object(es) => member(es@, key),
        _ => None,
    }
}

/// `value[key]`: the member, or null.
pub open spec fn at(v: JsonValue, key: Seq<char>) -> JsonValue {
    match field(v, key) {
        Some(x) => x,
        None => JsonValue::Null,
    }
}

/// `Value::as_str`.
pub open spec fn str_of(v: JsonValue) -> Option<Seq<char>> {
    match v {
        JsonValue::String(s) => Some(s@),
        _ => None,
    }
}

/// `Value::as_u64`.
pub open spec fn u64_of(v: JsonValue) -> Option<u64> {
    match v {
        JsonValue::Number(n) => n.as_u64,
        _ => None,
    }
}

/// `Value::as_f64`, as the numeral of the number.
pub open spec fn number_text_of(v: JsonValue) -> Option<Seq<char>> {
    match v {
        JsonValue::Number(n) => Some(n.text@),
        _ => None,
    }
}

/// `Value::as_array`.
pub open spec fn array_of(v: JsonValue) -> Option<Seq<JsonValue>> {
    match v {
        JsonValue::Array(a) => Some(a@),
        _ => None,
    }
}

/// `v[key].as_str().unwrap_or(default)`.
pub open spec fn str_or(v: JsonValue, key: Seq<char>, default: Seq<char>) -> Seq<char> {
    match str_of(at(v, key)) {
        Some(s) => s,
        None => default,
    }
}

/// `v[key].as_f64().unwrap_or(0.0)`, as a numeral.
pub open spec fn number_text_or_zero(v: JsonValue, key: Seq<char>) -> Seq<char> {
    match number_text_of(at(v, key)) {
        Some(t) => t,
        None => "0"@,
    }
}

impl JsonValue {
    /// `Value::get`: the member named `key` of an object.
    pub fn get(&self, key: &str) -> (r: Option<&JsonValue>)
        ensures
            match r {
                Some(x) => field(*self, key@) == Some(*x),
                None => field(*self, key@) is None,
            },
    {
        match self {
            JsonValue::Object(es) => {
                let k = chars_of(key);
                let mut i: usize = 0;
                assert(es@.subrange(0, es@.len() as int) =~= es@);
                while i < es.len()
                    invariant
                        i <= es.len(),
                        k@ == key@,
                        field(*self, key@) == member(es@, key@),
                        member(es@, key@) == member(es@.subrange(i as int, es.len() as int), key@),
                    decreases es.len() - i,
                {
                    let ghost rest = es@.subrange(i as int, es.len() as int);
                    assert(rest.drop_first() =~= es@.subrange(i + 1, es.len() as int));
                    assert(rest[0] == es@[i as int]);
                    if str_eq(&chars_of(es[i].0.as_str()), key) {
                        assert(member(rest, key@) == Some(es@[i as int].1));
                        return Some(&es[i].1);
                    }
                    i += 1;
                }
                None
            },
            _ => None,
        }
    }

    /// `Value::as_str`.
    pub fn as_str(&self) -> (r: Option<&String>)
        ensures
            match r {
                Some(s) => str_of(*self) == Some(s@),
                None => str_of(*self) is None,
            },
    {
        match self {
            JsonValue::String(s) => Some(s),
            _ => None,
        }
    }

    /// `Value::as_u64`.
    pub fn as_u64(&self) -> (r: Option<u64>)
        ensures
            r == u64_of(*self),
    {
        match self {
            JsonValue::Number(n) => n.as_u64,
            _ => None,
        }
    }

    /// The numeral of a number.
    pub fn number_text(&self) -> (r: Option<&String>)
        ensures
            match r {
                Some(s) => number_text_of(*self) == Some(s@),
                None => number_text_of(*self) is None,
            },
    {
        match self {
            JsonValue::Number(n) => Some(&n.text),
            _ => None,
        }
    }

    /// `Value::as_array`.
    pub fn as_array(&self) -> (r: Option<&Vec<JsonValue>>)
        ensures
            match r {
                Some(a) => array_of(*self) == Some(a@),
                None => array_of(*self) is None,
            },
    {
        match self {
            JsonValue::Array(a) => Some(a),
            _ => None,
        }
    }

    /// `self[key].as_str()`.
    pub fn str_at(&self, key: &str) -> (r: Option<&String>)
        ensures
            match r {
                Some(s) => str_of(at(*self, key@)) == Some(s@),
                None => str_of(at(*self, key@)) is None,
            },
    {
        match self.get(key) {
            Some(x) => x.as_str(),
            None => None,
        }
    }

    /// `self[key].as_u64()`.
    pub fn u64_at(&self, key: &str) -> (r: Option<u64>)
        ensures
            r == u64_of(at(*self, key@)),
    {
        match self.get(key) {
            Some(x) => x.as_u64(),
            None => None,
        }
    }

    /// `self[key].as_array()`.
    pub fn array_at(&self, key: &str) -> (r: Option<&Vec<JsonValue>>)
        ensures
            match r {
                Some(a) => array_of(at(*self, key@)) == Some(a@),
                None => array_of(at(*self, key@)) is None,
            },
    {
        match self.get(key) {
            Some(x) => x.as_array(),
            None => None,
        }
    }

    /// `self[key].as_str().unwrap_or(default)`.
    pub fn str_or(&self, key: &str, default: &str) -> (r: String)
        ensures
            r@ == str_or(*self, key@, default@),
    {
        match self.str_at(key) {
            Some(s) => s.clone(),
            None => owned(default),
        }
    }

    /// `self[key].as_f64().unwrap_or(0.0)`, as a numeral.
    pub fn number_text_or_zero(&self, key: &str) -> (r: String)
        ensures
            r@ == number_text_or_zero(*self, key@),
    {
        match self.get(key) {
            Some(x) => match x.number_text() {
                Some(t) => t.clone(),
                None => owned("0"),
            },
            None => owned("0"),
        }
    }
}

} // verus!
