//! The JSON facilities of serde_json that the envelope codec relies on.
use vstd::prelude::*;

verus! {

#[verifier::external_type_specification]
#[verifier::external_body]
pub struct ExValue(serde_json::Value);

#[verifier::external_type_specification]
#[verifier::external_body]
pub struct ExJsonError(serde_json::Error);

/// The JSON value that a byte string holds, or `None` when it is not JSON.
pub uninterp spec fn json_parse(b: Seq<u8>) -> Option<serde_json::Value>;

/// The member of a JSON object under a key; `None` when `v` is no object or
/// has no such key.
pub uninterp spec fn json_get(v: serde_json::Value, key: Seq<char>) -> Option<serde_json::Value>;

/// The text of a JSON string value; `None` for any other kind of value.
pub uninterp spec fn json_str(v: serde_json::Value) -> Option<Seq<char>>;

/// A JSON number that is a non-negative integer fitting in `u64`.
pub uninterp spec fn json_u64(v: serde_json::Value) -> Option<u64>;

/// The value is JSON `null`.
pub uninterp spec fn json_null(v: serde_json::Value) -> bool;

/// A lower-case hexadecimal digit for `n` in `0..16`.
pub open spec fn hex_digit(n: u32) -> char {
    if n < 10 {
        ((n + 48) as u8) as char
    } else {
        ((n + 87) as u8) as char
    }
}

/// How a character stands inside a JSON string literal: `"` and `\` and
/// the control characters below `0x20` are escaped, the short forms used
/// where JSON has one; every other character stands for itself.
pub open spec fn escaped_char(c: char) -> Seq<char> {
    let n = c as u32;
    if c == '"' {
        seq!['\\', '"']
    } else if c == '\\' {
        seq!['\\', '\\']
    } else if n == 8 {
        seq!['\\', 'b']
    } else if n == 9 {
        seq!['\\', 't']
    } else if n == 10 {
        seq!['\\', 'n']
    } else if n == 12 {
        seq!['\\', 'f']
    } else if n == 13 {
        seq!['\\', 'r']
    } else if n < 32 {
        seq!['\\', 'u', '0', '0', hex_digit(n / 16), hex_digit(n % 16)]
    } else {
        seq![c]
    }
}

/// The characters of `s`, each escaped.
pub open spec fn escaped(s: Seq<char>) -> Seq<char>
    decreases s.len(),
{
    if s.len() == 0 {
        Seq::empty()
    } else {
        escaped(s.drop_last()) + escaped_char(s.last())
    }
}

/// The JSON string literal that stands for a text.
pub open spec fn json_quoted(s: Seq<char>) -> Seq<char> {
    seq!['"'] + escaped(s) + seq!['"']
}

/// The compact JSON text of a value.
pub uninterp spec fn json_text_of(v: serde_json::Value) -> Seq<char>;

/// Relies on serde_json::from_slice: the parsed value depends on the bytes
/// alone.
#[verifier::external_body]
pub(crate) fn parse_json(b: &[u8]) -> (r: Result<serde_json::Value, serde_json::Error>)
    ensures
        match r {
            Ok(v) => json_parse(b@) == Some(v),
            Err(_) => json_parse(b@) is None,
        },
{
    serde_json::from_slice::<serde_json::Value>(b)
}

/// Relies on serde_json::Value::get with a string index: the member of an
/// object under that key.
#[verifier::external_body]
pub(crate) fn json_member<'a>(v: &'a serde_json::Value, key: &str) -> (r: Option<
    &'a serde_json::Value,
>)
    ensures
        match r {
            Some(m) => json_get(*v, key@) == Some(*m),
            None => json_get(*v, key@) is None,
        },
{
    v.get(key)
}

/// Relies on serde_json::Value::as_str: the text of a string value.
pub assume_specification[ serde_json::Value::as_str ](v: &serde_json::Value) -> (r: Option<&str>)
    ensures
        match r {
            Some(s) => json_str(*v) == Some(s@),
            None => json_str(*v) is None,
        },
;

/// Relies on serde_json::Value::as_u64: a number that fits in `u64`.
pub assume_specification[ serde_json::Value::as_u64 ](v: &serde_json::Value) -> (r: Option<u64>)
    ensures
        r == json_u64(*v),
;

/// Relies on serde_json::Value::is_null.
pub assume_specification[ serde_json::Value::is_null ](v: &serde_json::Value) -> (r: bool)
    ensures
        r == json_null(*v),
;

/// Relies on the derived `Clone` of serde_json::Value: a clone is the same
/// value.
pub assume_specification[ <serde_json::Value as Clone>::clone ](v: &serde_json::Value) -> (r: serde_json::Value)
    ensures
        r == *v,
;

/// Relies on serde_json::to_string on a `str`: the quoted literal, escaped
/// by serde_json's table (ser.rs, `ESCAPE` and `write_char_escape`). It
/// fails only for a failing `Serialize` impl or a map with non-string keys,
/// neither of which a `str` has.
#[verifier::external_body]
fn quote_json(s: &str) -> (r: Result<String, serde_json::Error>)
    ensures
        r is Ok,
        r matches Ok(q) ==> q@ == json_quoted(s@),
{
    serde_json::to_string(s)
}

/// Relies on serde_json::to_string on a `Value`: its compact JSON text. It
/// fails only for a failing `Serialize` impl or a map with non-string keys;
/// a `Value` has neither.
#[verifier::external_body]
fn value_json_text(v: &serde_json::Value) -> (r: Result<String, serde_json::Error>)
    ensures
        r is Ok,
        r matches Ok(t) ==> t@ == json_text_of(*v),
{
    serde_json::to_string(v)
}

/// The JSON string literal of a text.
pub fn quoted(s: &str) -> (r: String)
    ensures
        r@ == json_quoted(s@),
{
    match quote_json(s) {
        Ok(q) => q,
        Err(_) => String::new(),
    }
}

/// The compact JSON text of a value.
pub fn value_text(v: &serde_json::Value) -> (r: String)
    ensures
        r@ == json_text_of(*v),
{
    match value_json_text(v) {
        Ok(t) => t,
        Err(_) => String::new(),
    }
}

} // verus!
