//! The JSON encodings that the store uses for lists of strings (tags, the
//! order of menu actions) and for free-form record metadata. The encoding and
//! decoding are serde_json's; what the library claims of them is stated here.

use vstd::prelude::*;

verus! {

/// What `serde_json::from_str::<Vec<String>>` gives for a text: `None` when the
/// text is not a JSON array of strings, else the strings in order.
pub uninterp spec fn json_string_list(text: Seq<char>) -> Option<Seq<Seq<char>>>;

/// The lower-case hexadecimal digit for `n` in `0..16`.
pub open spec fn hex_digit(n: int) -> char {
    if n < 10 {
        (48 + n) as char
    } else {
        (87 + n) as char
    }
}

/// How serde_json writes one character inside a JSON string: the quote and
/// the backslash behind a backslash; backspace, tab, line feed, form feed and
/// carriage return as `\b`, `\t`, `\n`, `\f`, `\r`; any other control
/// character below 0x20 as `\u00` and two lower-case hex digits; every other
/// character as itself.
pub open spec fn json_escaped_char(c: char) -> Seq<char> {
    if c == '"' {
        seq!['\\', '"']
    } else if c == '\\' {
        seq!['\\', '\\']
    } else if c == '\u{8}' {
        seq!['\\', 'b']
    } else if c == '\t' {
        seq!['\\', 't']
    } else if c == '\n' {
        seq!['\\', 'n']
    } else if c == '\u{c}' {
        seq!['\\', 'f']
    } else if c == '\r' {
        seq!['\\', 'r']
    } else if (c as int) < 32 {
        seq!['\\', 'u', '0', '0', hex_digit(c as int / 16), hex_digit(c as int % 16)]
    } else {
        seq![c]
    }
}

/// A text written as a JSON string: in quotes, each character as
/// [`json_escaped_char`] writes it.
pub open spec fn json_quoted(text: Seq<char>) -> Seq<char>
    decreases text.len(),
{
    if text.len() == 0 {
        seq!['"', '"']
    } else {
        json_quoted(text.drop_last()).drop_last() + json_escaped_char(text.last()) + seq!['"']
    }
}

/// The strings of a list written as JSON strings, separated by commas.
pub open spec fn json_string_items(items: Seq<Seq<char>>) -> Seq<char>
    decreases items.len(),
{
    if items.len() == 0 {
        Seq::empty()
    } else if items.len() == 1 {
        json_quoted(items[0])
    } else {
        json_string_items(items.drop_last()) + seq![','] + json_quoted(items.last())
    }
}

/// The text that `serde_json::to_string` writes for a list of strings:
/// the compact JSON array of the strings, in order.
pub open spec fn json_of_string_list(items: Seq<Seq<char>>) -> Seq<char> {
    seq!['['] + json_string_items(items) + seq![']']
}

/// Calls `serde_json::from_str::<Vec<String>>`. Claimed: the result is the
/// value of `json_string_list` for the same text, and depends on nothing else.
#[verifier::external_body]
pub(crate) fn parse_string_list(text: &str) -> (r: Option<Vec<String>>)
    ensures
        r.deep_view() == json_string_list(text@),
{
    serde_json::from_str::<Vec<String>>(text).ok()
}

/// Calls `serde_json::to_string` on a list of strings. Claimed: it succeeds
/// (serde_json documents that serializing fails only when a `Serialize` impl
/// decides to fail or a map has non-string keys; a list of strings has
/// neither, and its writer, a `Vec<u8>`, does not fail); the text is
/// the compact JSON array of the items that [`json_of_string_list`] spells
/// out (serde_json's `begin_array`, `begin_array_value`, `end_array` and its
/// escape table); and `from_str` reads it back as the
/// same strings in the same order (serde_json writes each string with every
/// quote, backslash and control character escaped, and reads the escapes back).
#[verifier::external_body]
pub(crate) fn string_list_to_json(items: &Vec<String>) -> (r: Result<String, serde_json::Error>)
    ensures
        r is Ok,
        r matches Ok(text) ==> text@ == json_of_string_list(items.deep_view()),
        r matches Ok(text) ==> json_string_list(text@) == Some(items.deep_view()),
{
    serde_json::to_string(items)
}

/// The JSON value that `serde_json::from_str::<serde_json::Value>` reads from
/// a text, or JSON `null` when the text is not JSON.
pub uninterp spec fn json_value_or_null(text: Seq<char>) -> serde_json::Value;

/// Calls `serde_json::from_str::<serde_json::Value>` and keeps JSON `null`
/// when the text is not JSON. Claimed: the value depends on the text alone.
/// The value is opaque to the library, which only carries it.
#[verifier::external_body]
pub(crate) fn metadata_from_text(text: &str) -> (r: serde_json::Value)
    ensures
        r == json_value_or_null(text@),
{
    serde_json::from_str::<serde_json::Value>(text).unwrap_or_default()
}

/// The text that `serde_json::Value`'s `Display` writes for a value, as
/// `to_string` gives it.
pub uninterp spec fn json_value_text(value: serde_json::Value) -> Seq<char>;

/// Calls `to_string` on a JSON value (serde_json's `Display`, which writes
/// compact JSON and cannot fail for a `Value`). Claimed: the text depends on
/// the value alone. Whether parsing it gives the value back is not claimed:
/// that fails for some floating-point numbers, and a value has no view here
/// that could say which ones it holds.
#[verifier::external_body]
pub(crate) fn metadata_to_text(value: &serde_json::Value) -> (r: String)
    ensures
        r@ == json_value_text(*value),
{
    value.to_string()
}

/// Calls `to_string` on a serde_json error (its `Display`, the message and
/// the place in the input). Nothing is claimed of the text.
#[verifier::external_body]
pub(crate) fn json_error_text(error: &serde_json::Error) -> (r: String) {
    error.to_string()
}

/// The stored text of a list of strings: `json_string_list` of the text,
/// or the empty list when it is not a JSON list of strings.
pub open spec fn string_list_or_empty(text: Seq<char>) -> Seq<Seq<char>> {
    match json_string_list(text) {
        Some(items) => items,
        None => Seq::empty(),
    }
}

/// Reads a JSON list of strings, giving the empty list for anything else.
pub fn string_list_from_text(text: &str) -> (r: Vec<String>)
    ensures
        r.deep_view() == string_list_or_empty(text@),
{
    match parse_string_list(text) {
        Some(items) => items,
        None => {
            let v: Vec<String> = Vec::new();
            assert(v.deep_view() =~= Seq::<Seq<char>>::empty());
            v
        },
    }
}

} // verus!
