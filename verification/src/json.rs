//! JSON documents as plain values, read with `serde_json`, and the few accessors the
//! feed parsers use (`get`, `as_str`, `as_array`, `as_bool`, numbers).
use vstd::prelude::*;

use crate::text::{is_digit, str_eq};

verus! {

/// A JSON number: its `Display` text, `as_i64`, and `as_f64` truncated toward zero
/// (saturating), which is what integer readings of a number use.
#[derive(Debug)]
pub struct JsonNumber {
    pub text: String,
    pub as_i64: Option<i64>,
    pub as_f64_trunc: Option<i64>,
}

/// A JSON value. Object members keep the order in which `serde_json` iterates them.
#[derive(Debug)]
pub enum Json {
    Null,
    Bool(bool),
    Number(JsonNumber),
    Str(String),
    Array(Vec<Json>),
    Object(Vec<(String, Json)>),
}

/// `serde_json::Value`, carried opaquely into the conversion below.
#[verifier::external_type_specification]
#[verifier::external_body]
pub struct ExJsonValue(serde_json::Value);

/// The document `serde_json::from_str::<Value>` reads from a text (`None` when the text is
/// not JSON).
pub uninterp spec fn json_document(s: Seq<char>) -> Option<Json>;

/// `serde_json::from_str::<serde_json::Value>`, converted member by member.
/// Trusted: the result is named by `json_document` of the text.
#[verifier::external_body]
pub(crate) fn parse_json(data: &str) -> (r: Option<Json>)
    ensures
        r == json_document(data@),
{
    serde_json::from_str::<serde_json::Value>(data).ok().map(|v| Json::from_value(&v))
}

impl Json {
    /// One-for-one conversion of a `serde_json::Value` (used by `parse_json` only).
    #[verifier::external_body]
    fn from_value(v: &serde_json::Value) -> Json {
        match v {
            serde_json::Value::Null => Json::Null,
            serde_json::Value::Bool(b) => Json::Bool(*b),
            serde_json::Value::Number(n) => Json::Number(JsonNumber {
                text: n.to_string(),
                as_i64: n.as_i64(),
                as_f64_trunc: n.as_f64().map(|f| f as i64),
            }),
            serde_json::Value::String(s) => Json::Str(s.clone()),
            serde_json::Value::Array(a) => Json::Array(a.iter().map(Json::from_value).collect()),
            serde_json::Value::Object(o) => Json::Object(
                o.iter().map(|(k, x)| (k.clone(), Json::from_value(x))).collect(),
            ),
        }
    }
}

/// Index of the first member named `key`, from position `i` on.
pub open spec fn member_index(members: Seq<(String, Json)>, key: Seq<char>, i: int) -> Option<int>
    decreases members.len() - i,
{
    if i < 0 || i >= members.len() {
        None
    } else if members[i].0@ == key {
        Some(i)
    } else {
        member_index(members, key, i + 1)
    }
}

/// `Value::get(key)`: the member named `key` of an object; `None` for any other value.
pub open spec fn get(j: Json, key: Seq<char>) -> Option<Json> {
    match j {
        Json::Object(members) => match member_index(members@, key, 0) {
            Some(i) => Some(members@[i].1),
            None => None,
        },
        _ => None,
    }
}

#[verifier::loop_isolation(false)]
pub fn json_get<'a>(j: &'a Json, key: &str) -> (r: Option<&'a Json>)
    ensures
        r is Some <==> get(*j, key@) is Some,
        r matches Some(v) ==> get(*j, key@) == Some(*v),
{
    match j {
        Json::Object(members) => {
            let mut i: usize = 0;
            while i < members.len()
                invariant
                    i <= members@.len(),
                    member_index(members@, key@, 0) == member_index(members@, key@, i as int),
                decreases members@.len() - i,
            {
                if str_eq(members[i].0.as_str(), key) {
                    assert(member_index(members@, key@, i as int) == Some(i as int));
                    return Some(&members[i].1);
                }
                i += 1;
            }
            None
        },
        _ => None,
    }
}

/// A number is positive (`as_f64() > 0`): no minus sign and a non-zero digit before
/// any exponent, in its `Display` text.
pub open spec fn number_text_positive(t: Seq<char>) -> bool {
    &&& !(t.len() > 0 && t[0] == '-')
    &&& exists|i: int| #[trigger] nonzero_mantissa_digit_at(t, i)
}

/// Position `i` holds a non-zero digit and no exponent marker comes before it.
pub open spec fn nonzero_mantissa_digit_at(t: Seq<char>, i: int) -> bool {
    &&& 0 <= i < t.len()
    &&& is_digit(t[i])
    &&& t[i] != '0'
    &&& forall|k: int| 0 <= k < i ==> t[k] != 'e' && t[k] != 'E'
}

pub fn number_is_positive(n: &JsonNumber) -> (r: bool)
    ensures
        r == number_text_positive(n.text@),
{
    let t = crate::text::chars_of(n.text.as_str());
    if t.len() > 0 && t[0] == '-' {
        return false;
    }
    let mut i: usize = 0;
    while i < t.len()
        invariant
            t@ == n.text@,
            !(t@.len() > 0 && t@[0] == '-'),
            i <= t@.len(),
            forall|k: int| 0 <= k < i ==> t@[k] != 'e' && t@[k] != 'E',
            forall|k: int| 0 <= k < i ==> !(is_digit(t@[k]) && t@[k] != '0'),
        decreases t@.len() - i,
    {
        let c = t[i];
        if c == 'e' || c == 'E' {
            assert forall|m: int| !nonzero_mantissa_digit_at(t@, m) by {
                if nonzero_mantissa_digit_at(t@, m) && m > i {
                    assert(t@[i as int] != 'e');
                }
            }
            return false;
        }
        if '1' <= c && c <= '9' {
            assert(nonzero_mantissa_digit_at(t@, i as int));
            return true;
        }
        i += 1;
    }
    assert forall|m: int| !nonzero_mantissa_digit_at(t@, m) by {
    }
    false
}

} // verus!
