//! Reading values out of JSON documents through `serde_json`.
//!
//! A document is given as text and a value in it by a JSON Pointer
//! (RFC 6901), e.g. `/message/content/0/text`; the empty pointer is the
//! whole document.
use vstd::prelude::*;
use vstd::string::*;
use crate::text::{decimal, digit_char, join, u64_decimal};

verus! {

/// `doc` parses as JSON and holds a value at `pointer`.
pub uninterp spec fn json_has(doc: Seq<char>, pointer: Seq<char>) -> bool;

/// The string at `pointer` in `doc`; `None` when `doc` does not parse,
/// nothing is there, or the value there is not a string.
pub uninterp spec fn json_str(doc: Seq<char>, pointer: Seq<char>) -> Option<Seq<char>>;

/// The length of the array at `pointer` in `doc`; `None` when `doc` does
/// not parse, nothing is there, or the value there is not an array.
pub uninterp spec fn json_array_len(doc: Seq<char>, pointer: Seq<char>) -> Option<nat>;

/// A hexadecimal digit, lower case.
pub open spec fn hex_digit(d: int) -> char {
    if d < 10 {
        digit_char(d as nat)
    } else if d == 10 {
        'a'
    } else if d == 11 {
        'b'
    } else if d == 12 {
        'c'
    } else if d == 13 {
        'd'
    } else if d == 14 {
        'e'
    } else {
        'f'
    }
}

/// One character inside a JSON string as `serde_json` writes it: `"` and
/// `\` escaped with a backslash, the control characters with a short escape
/// where JSON has one and as `\u00xx` otherwise, any other character as it is.
pub open spec fn json_char(c: char) -> Seq<char> {
    if c == '"' {
        seq!['\\', '"']
    } else if c == '\\' {
        seq!['\\', '\\']
    } else if c == '\u{8}' {
        seq!['\\', 'b']
    } else if c == '\t' {
        seq!['\\', 't']
    } else if c == '\n' {
        seq!['\\', 'n']
    } else if c == '\u{c}' {
        seq!['\\', 'f']
    } else if c == '\r' {
        seq!['\\', 'r']
    } else if (c as int) < 0x20 {
        seq!['\\', 'u', '0', '0', hex_digit((c as int) / 16), hex_digit((c as int) % 16)]
    } else {
        seq![c]
    }
}

/// The characters of a string, escaped for JSON.
pub open spec fn json_escaped(s: Seq<char>) -> Seq<char>
    decreases s.len(),
{
    if s.len() == 0 {
        Seq::empty()
    } else {
        json_escaped(s.drop_last()) + json_char(s.last())
    }
}

/// A JSON string literal.
pub open spec fn json_quoted(s: Seq<char>) -> Seq<char> {
    seq!['"'] + json_escaped(s) + seq!['"']
}

/// The compact JSON text of a list of strings, as `serde_json::to_string`
/// writes it: the quoted strings between brackets, separated by commas.
pub open spec fn json_string_list(items: Seq<Seq<char>>) -> Seq<char> {
    seq!['['] + join(items.map_values(|s: Seq<char>| json_quoted(s)), seq![',']) + seq![']']
}

/// `serde_json::from_str::<Value>(doc)`, then `Value::pointer(pointer)`:
/// whether a value is there.
#[verifier::external_body]
pub(crate) fn json_value_at(doc: &str, pointer: &str) -> (r: bool)
    ensures
        r == json_has(doc@, pointer@),
{
    match serde_json::from_str::<serde_json::Value>(doc) {
        Ok(v) => v.pointer(pointer).is_some(),
        Err(_) => false,
    }
}

/// `serde_json::from_str::<Value>(doc)`, then `Value::pointer(pointer)`,
/// then `Value::as_str`. A string found is a value found.
#[verifier::external_body]
pub(crate) fn json_str_at(doc: &str, pointer: &str) -> (r: Option<String>)
    ensures
        match r {
            Some(s) => json_str(doc@, pointer@) == Some(s@),
            None => json_str(doc@, pointer@) is None,
        },
        r is Some ==> json_has(doc@, pointer@),
{
    match serde_json::from_str::<serde_json::Value>(doc) {
        Ok(v) => v.pointer(pointer).and_then(|x| x.as_str()).map(|s| s.to_string()),
        Err(_) => None,
    }
}

/// `serde_json::from_str::<Value>(doc)`, then `Value::pointer(pointer)`,
/// then `Value::as_array` and its length. An array found is a value found.
#[verifier::external_body]
pub(crate) fn json_array_len_at(doc: &str, pointer: &str) -> (r: Option<usize>)
    ensures
        match r {
            Some(n) => json_array_len(doc@, pointer@) == Some(n as nat),
            None => json_array_len(doc@, pointer@) is None,
        },
        r is Some ==> json_has(doc@, pointer@),
{
    match serde_json::from_str::<serde_json::Value>(doc) {
        Ok(v) => v.pointer(pointer).and_then(|x| x.as_array()).map(|a| a.len()),
        Err(_) => None,
    }
}

/// `serde_json::to_string` of a list of strings (which cannot fail): the
/// compact form of [`json_string_list`] (`format_escaped_str` and the
/// compact formatter of `serde_json`).
#[verifier::external_body]
pub(crate) fn json_encode_strings(items: &Vec<String>) -> (r: String)
    ensures
        r@ == json_string_list(items@.map_values(|s: String| s@)),
{
    serde_json::to_string(items).unwrap_or_default()
}

/// The pointer `base/index/key`.
pub open spec fn item_pointer(base: Seq<char>, index: nat, key: Seq<char>) -> Seq<char> {
    base + "/"@ + decimal(index) + "/"@ + key
}

/// Exec [`item_pointer`].
pub fn item_pointer_exec(base: &str, index: usize, key: &str) -> (r: String)
    ensures
        r@ == item_pointer(base@, index as nat, key@),
{
    let mut r = String::from_str(base);
    r.append("/");
    let d = u64_decimal(index as u64);
    r.append(d.as_str());
    r.append("/");
    r.append(key);
    r
}

} // verus!
