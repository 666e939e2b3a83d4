//! The JSON values that the pool sends, as plain data.
use vstd::prelude::*;

verus! {

/// `serde_json::Value`, carried through as an opaque value.
#[verifier::external_type_specification]
#[verifier::external_body]
pub struct ExJsonValue(serde_json::Value);

/// A parsed JSON value. Numbers keep their integer value when they have one;
/// any other number keeps only its decimal text, which the protocol never reads.
pub enum JsonValue {
    Null,
    Bool(bool),
    UInt(u64),
    NegInt(i64),
    Fraction(String),
    Str(String),
    Array(Vec<JsonValue>),
    Object(Vec<(String, JsonValue)>),
}

/// The value that `serde_json` reads from a text, if the text is JSON.
pub uninterp spec fn json_parsed(s: Seq<char>) -> Option<JsonValue>;

/// Converts a `serde_json::Value` into the library's own form, variant by
/// variant; relies on `serde_json::Number::as_u64` and `as_i64` to tell the
/// kinds of number apart.
#[verifier::external_body]
fn json_from_serde(v: serde_json::Value) -> JsonValue {
    match v {
        serde_json::Value::Null => JsonValue::Null,
        serde_json::Value::Bool(b) => JsonValue::Bool(b),
        serde_json::Value::Number(n) => match (n.as_u64(), n.as_i64()) {
            (Some(u), _) => JsonValue::UInt(u),
            (None, Some(i)) => JsonValue::NegInt(i),
            (None, None) => JsonValue::Fraction(n.to_string()),
        },
        serde_json::Value::String(s) => JsonValue::Str(s),
        serde_json::Value::Array(a) => JsonValue::Array(a.into_iter().map(json_from_serde).collect()),
        serde_json::Value::Object(o) => JsonValue::Object(
            o.into_iter().map(|(k, x)| (k, json_from_serde(x))).collect(),
        ),
    }
}

/// Converts the library's form back into a `serde_json::Value`, variant by
/// variant; relies on `serde_json::Number`'s `From<u64>`, `From<i64>` and
/// `FromStr` (for the text that `json_from_serde` keeps of other numbers).
#[verifier::external_body]
fn json_to_serde(v: &JsonValue) -> serde_json::Value {
    match v {
        JsonValue::Null => serde_json::Value::Null,
        JsonValue::Bool(b) => serde_json::Value::Bool(*b),
        JsonValue::UInt(u) => serde_json::Value::from(*u),
        JsonValue::NegInt(i) => serde_json::Value::from(*i),
        JsonValue::Fraction(t) => t.parse().map_or(serde_json::Value::Null, serde_json::Value::Number),
        JsonValue::Str(s) => serde_json::Value::String(s.clone()),
        JsonValue::Array(a) => serde_json::Value::Array(a.iter().map(json_to_serde).collect()),
        JsonValue::Object(m) => serde_json::Value::Object(
            m.iter().map(|(k, x)| (k.clone(), json_to_serde(x))).collect(),
        ),
    }
}

/// The bytes that `serde_json::to_vec` writes for a value.
pub uninterp spec fn json_text(v: JsonValue) -> Seq<u8>;

/// Relies on `serde_json::to_vec` of the value: compact JSON, which cannot
/// fail for a `serde_json::Value` (string keys, finite numbers, a `Vec` as
/// the writer), and in which no byte is a line feed (the compact formatter
/// writes no whitespace and strings escape control characters).
#[verifier::external_body]
pub(crate) fn json_bytes(v: &JsonValue) -> (r: Option<Vec<u8>>)
    ensures
        r is Some,
        r matches Some(b) ==> b@ == json_text(*v),
        r matches Some(b) ==> !b@.contains(10u8),
{
    serde_json::to_vec(&json_to_serde(v)).ok()
}

/// Relies on `serde_json::from_str::<serde_json::Value>`: whether a text is
/// JSON, and which value it denotes, depends on the text alone.
#[verifier::external_body]
pub(crate) fn parse_json(s: &str) -> (r: Option<JsonValue>)
    ensures
        r == json_parsed(s@),
{
    serde_json::from_str::<serde_json::Value>(s).ok().map(json_from_serde)
}

/// `i` is the first position of `key` among the members.
pub open spec fn first_key_at(members: Seq<(String, JsonValue)>, key: Seq<char>, i: int) -> bool {
    0 <= i < members.len() && members[i].0@ == key && forall|j: int|
        0 <= j < i ==> (#[trigger] members[j]).0@ != key
}

/// The member named `key`; the first one where a name repeats.
pub open spec fn member(members: Seq<(String, JsonValue)>, key: Seq<char>) -> Option<JsonValue> {
    if exists|i: int| first_key_at(members, key, i) {
        Some(members[choose|i: int| first_key_at(members, key, i)].1)
    } else {
        None
    }
}

/// The field `key` of an object; `None` for any other value.
pub open spec fn field(v: JsonValue, key: Seq<char>) -> Option<JsonValue> {
    match v {
        JsonValue::Object(m) => member(m@, key),
        _ => None,
    }
}

/// The value as an `i64`, where it is an integer in that range.
pub open spec fn as_i64(v: JsonValue) -> Option<i64> {
    match v {
        JsonValue::UInt(u) => if u <= i64::MAX as u64 {
            Some(u as i64)
        } else {
            None
        },
        JsonValue::NegInt(i) => Some(i),
        _ => None,
    }
}

/// Position of the first member named `key`.
pub fn find_member(members: &Vec<(String, JsonValue)>, key: &String) -> (r: Option<usize>)
    ensures
        match r {
            Some(i) => first_key_at(members@, key@, i as int) && member(members@, key@) == Some(
                members@[i as int].1,
            ),
            None => member(members@, key@) is None,
        },
{
    let mut i: usize = 0;
    while i < members.len()
        invariant
            i <= members@.len(),
            forall|j: int| 0 <= j < i ==> (#[trigger] members@[j]).0@ != key@,
        decreases members@.len() - i,
    {
        if members[i].0 == *key {
            proof {
                let s = members@;
                assert(first_key_at(s, key@, i as int));
                let c = choose|k: int| first_key_at(s, key@, k);
                assert(first_key_at(s, key@, c));
                if c < i {
                    assert(s[c].0@ != key@);
                } else if c > i {
                    assert(s[i as int].0@ != key@);
                }
                assert(c == i);
            }
            return Some(i);
        }
        i = i + 1;
    }
    proof {
        assert forall|k: int| !first_key_at(members@, key@, k) by {
            if 0 <= k < members@.len() {
                assert(members@[k].0@ != key@);
            }
        }
    }
    None
}

impl JsonValue {
    /// The field `key` of an object.
    pub fn get(&self, key: &String) -> (r: Option<&JsonValue>)
        ensures
            match r {
                Some(x) => field(*self, key@) == Some(*x),
                None => field(*self, key@) is None,
            },
    {
        match self {
            JsonValue::Object(m) => match find_member(m, key) {
                Some(i) => Some(&m[i].1),
                None => None,
            },
            _ => None,
        }
    }

    pub fn as_i64(&self) -> (r: Option<i64>)
        ensures
            r == as_i64(*self),
    {
        match self {
            JsonValue::UInt(u) => if *u <= i64::MAX as u64 {
                Some(*u as i64)
            } else {
                None
            },
            JsonValue::NegInt(i) => Some(*i),
            _ => None,
        }
    }
}

} // verus!
