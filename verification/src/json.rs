//! JSON documents as the library reads them, and the tolerant readers that Moodle's
//! loosely typed replies need (numbers sent as strings, flags sent as numbers).
use vstd::prelude::*;
use crate::course_page::{i64_parse, parse_i64};
use crate::html::{decode_entities, decode_html_entities};
use crate::text::{ascii_lower, chars_eq_str, chars_of, lower_ascii_str, trim, trim_str};

verus! {

/// A JSON number as plain values: its value as an `i64` when it is an integer in range;
/// its value as a double cut to an `i64` (saturating) when that double is finite; and the
/// bits of that double (`f64::to_bits`).
#[derive(Debug, Clone, PartialEq, Eq)]
pub struct JsonNumber {
    pub int: Option<i64>,
    pub truncated: Option<i64>,
    pub bits: Option<u64>,
}

/// A JSON string with what its trimmed text reads as when taken for a double: the double
/// cut to an `i64` (saturating) and its bits, when the text is a finite number.
#[derive(Debug, Clone, PartialEq, Eq)]
pub struct JsonText {
    pub text: String,
    pub float_truncated: Option<i64>,
    pub float_bits: Option<u64>,
}

/// A JSON value; an object keeps its members in order.
#[derive(Debug)]
pub enum JsonValue {
    Null,
    Bool(bool),
    Number(JsonNumber),
    String(JsonText),
    Array(Vec<JsonValue>),
    Object(Vec<(String, JsonValue)>),
}

/// The first member named `key` of the members from `from` on.
pub open spec fn member(ms: Seq<(String, JsonValue)>, key: Seq<char>, from: int) -> Option<JsonValue>
    decreases ms.len() - from,
{
    if from < 0 || from >= ms.len() {
        None
    } else if ms[from].0@ == key {
        Some(ms[from].1)
    } else {
        member(ms, key, from + 1)
    }
}

/// The member named `key` of an object (nothing for other values).
pub open spec fn field(v: JsonValue, key: Seq<char>) -> Option<JsonValue> {
    match v {
        JsonValue::Object(ms) => member(ms@, key, 0),
        _ => None,
    }
}

/// The member named `key` of an optional object.
pub open spec fn field_of(v: Option<JsonValue>, key: Seq<char>) -> Option<JsonValue> {
    match v {
        Some(x) => field(x, key),
        None => None,
    }
}

/// The member `key` of an object.
pub fn get<'a>(v: &'a JsonValue, key: &str) -> (r: Option<&'a JsonValue>)
    ensures
        match r {
            Some(x) => field(*v, key@) == Some(*x),
            None => field(*v, key@) is None,
        },
{
    match v {
        JsonValue::Object(ms) => {
            let k = chars_of(key);
            let mut i: usize = 0;
            while i < ms.len()
                invariant
                    i <= ms@.len(),
                    k@ == key@,
                    field(*v, key@) == member(ms@, key@, 0),
                    member(ms@, key@, 0) == member(ms@, key@, i as int),
                decreases ms.len() - i,
            {
                if crate::text::chars_eq(&chars_of(ms[i].0.as_str()), &k) {
                    return Some(&ms[i].1);
                }
                i += 1;
            }
            None
        },
        _ => None,
    }
}

/// The member `key` of an optional object.
pub fn get_opt<'a>(v: Option<&'a JsonValue>, key: &str) -> (r: Option<&'a JsonValue>)
    ensures
        match r {
            Some(x) => field_of(
                match v {
                    Some(y) => Some(*y),
                    None => None,
                },
                key@,
            ) == Some(*x),
            None => field_of(
                match v {
                    Some(y) => Some(*y),
                    None => None,
                },
                key@,
            ) is None,
        },
{
    match v {
        Some(x) => get(x, key),
        None => None,
    }
}

/// The text of a string value.
pub open spec fn j_str(v: Option<JsonValue>) -> Option<Seq<char>> {
    match v {
        Some(JsonValue::String(t)) => Some(t.text@),
        _ => None,
    }
}

/// The text of a string value with its HTML entities decoded.
pub open spec fn j_decoded(v: Option<JsonValue>) -> Option<Seq<char>> {
    match j_str(v) {
        Some(s) => Some(decode_entities(s)),
        None => None,
    }
}

/// A number read from a number or from a string: an integer as such, a finite double cut
/// to an integer, and for a string its trimmed text read as an integer or else as a double.
pub open spec fn j_i64(v: Option<JsonValue>) -> Option<i64> {
    match v {
        Some(JsonValue::Number(n)) => match n.int {
            Some(i) => Some(i),
            None => n.truncated,
        },
        Some(JsonValue::String(t)) => if trim(t.text@).len() == 0 {
            None
        } else {
            match parse_i64(trim(t.text@)) {
                Some(i) => Some(i),
                None => t.float_truncated,
            }
        },
        _ => None,
    }
}

/// A double, as its bits, read from a finite number or from a string holding one.
pub open spec fn j_f64_bits(v: Option<JsonValue>) -> Option<u64> {
    match v {
        Some(JsonValue::Number(n)) => n.bits,
        Some(JsonValue::String(t)) => t.float_bits,
        _ => None,
    }
}

/// A flag read from a boolean, an integer (non-zero is true) or a string such as
/// `yes`/`no`, `on`/`off`, `true`/`false`, `1`/`0` (any case, trimmed).
pub open spec fn j_bool(v: Option<JsonValue>) -> Option<bool> {
    match v {
        Some(JsonValue::Bool(b)) => Some(b),
        Some(JsonValue::Number(n)) => match n.int {
            Some(i) => Some(i != 0),
            None => None,
        },
        Some(JsonValue::String(t)) => {
            let w = ascii_lower(trim(t.text@));
            if w == "1"@ || w == "true"@ || w == "yes"@ || w == "on"@ {
                Some(true)
            } else if w == "0"@ || w == "false"@ || w == "no"@ || w == "off"@ {
                Some(false)
            } else {
                None
            }
        },
        _ => None,
    }
}

/// A visibility flag: a boolean as 1 or 0, else a number.
pub open spec fn j_visible(v: Option<JsonValue>) -> Option<i64> {
    match v {
        Some(JsonValue::Bool(b)) => Some(if b { 1i64 } else { 0i64 }),
        _ => j_i64(v),
    }
}

/// The items of an array value.
pub open spec fn j_array(v: Option<JsonValue>) -> Option<Seq<JsonValue>> {
    match v {
        Some(JsonValue::Array(items)) => Some(items@),
        _ => None,
    }
}

/// The view of an optional reference.
pub open spec fn opt_ref(v: Option<&JsonValue>) -> Option<JsonValue> {
    match v {
        Some(x) => Some(*x),
        None => None,
    }
}

/// `as_str`: the text of a string value.
pub fn as_str(value: Option<&JsonValue>) -> (r: Option<String>)
    ensures
        crate::models::opt_view(r) == j_str(opt_ref(value)),
{
    match value {
        Some(JsonValue::String(t)) => Some(t.text.clone()),
        _ => None,
    }
}

/// `as_decoded`: the text of a string value with its HTML entities decoded.
pub fn as_decoded(value: Option<&JsonValue>) -> (r: Option<String>)
    ensures
        crate::models::opt_view(r) == j_decoded(opt_ref(value)),
{
    match value {
        Some(JsonValue::String(t)) => Some(decode_html_entities(t.text.as_str())),
        _ => None,
    }
}

/// `as_i64`: a number read from a number or a numeric string.
pub fn as_i64(value: Option<&JsonValue>) -> (r: Option<i64>)
    ensures
        r == j_i64(opt_ref(value)),
{
    match value {
        Some(JsonValue::Number(n)) => match n.int {
            Some(i) => Some(i),
            None => n.truncated,
        },
        Some(JsonValue::String(t)) => {
            let trimmed = trim_str(t.text.as_str());
            if trimmed.as_str().is_empty() {
                proof {
                    assert(trimmed@.len() == 0);
                }
                None
            } else {
                match i64_parse(trimmed.as_str()) {
                    Some(i) => Some(i),
                    None => t.float_truncated,
                }
            }
        },
        _ => None,
    }
}

/// `as_f64`: the bits of a double read from a finite number or a numeric string.
pub fn as_f64_bits(value: Option<&JsonValue>) -> (r: Option<u64>)
    ensures
        r == j_f64_bits(opt_ref(value)),
{
    match value {
        Some(JsonValue::Number(n)) => n.bits,
        Some(JsonValue::String(t)) => t.float_bits,
        _ => None,
    }
}

/// `as_bool`: a flag read from a boolean, an integer or a yes/no word.
pub fn as_bool(value: Option<&JsonValue>) -> (r: Option<bool>)
    ensures
        r == j_bool(opt_ref(value)),
{
    match value {
        Some(JsonValue::Bool(b)) => Some(*b),
        Some(JsonValue::Number(n)) => match n.int {
            Some(i) => Some(i != 0),
            None => None,
        },
        Some(JsonValue::String(t)) => {
            let w = lower_ascii_str(trim_str(t.text.as_str()).as_str());
            let wc = chars_of(w.as_str());
            if chars_eq_str(&wc, "1") || chars_eq_str(&wc, "true") || chars_eq_str(&wc, "yes") || chars_eq_str(&wc, "on") {
                Some(true)
            } else if chars_eq_str(&wc, "0") || chars_eq_str(&wc, "false") || chars_eq_str(&wc, "no")
                || chars_eq_str(&wc, "off") {
                Some(false)
            } else {
                None
            }
        },
        _ => None,
    }
}

/// `visible_number`: a visibility flag as 1 or 0, or a number.
pub fn visible_number(value: Option<&JsonValue>) -> (r: Option<i64>)
    ensures
        r == j_visible(opt_ref(value)),
{
    match value {
        Some(JsonValue::Bool(b)) => Some(if *b { 1 } else { 0 }),
        _ => as_i64(value),
    }
}

/// `progress_value`: nothing for `null`, else the bits of the double it reads as.
pub fn progress_value_bits(value: Option<&JsonValue>) -> (r: Option<u64>)
    ensures
        r == (match opt_ref(value) {
            Some(JsonValue::Null) => None,
            _ => j_f64_bits(opt_ref(value)),
        }),
{
    match value {
        Some(JsonValue::Null) => None,
        _ => as_f64_bits(value),
    }
}

/// The items of an array value.
pub fn as_array(value: Option<&JsonValue>) -> (r: Option<&Vec<JsonValue>>)
    ensures
        match r {
            Some(items) => j_array(opt_ref(value)) == Some(items@),
            None => j_array(opt_ref(value)) is None,
        },
{
    match value {
        Some(JsonValue::Array(items)) => Some(items),
        _ => None,
    }
}

} // verus!
