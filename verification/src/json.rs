//! Values of `serde_json` and the text that they are written as.

use crate::text::{decimal, joined_by, precedes, signed_decimal};
use vstd::prelude::*;

verus! {

/// `serde_json::Value`, a JSON document in memory.
#[verifier::external_type_specification]
#[verifier::external_body]
pub struct ExValue(serde_json::Value);

/// What a JSON value holds, as the text that `serde_json` writes for it without white space.
pub uninterp spec fn json_text(value: serde_json::Value) -> Seq<char>;

/// A hexadecimal digit, in lower case.
pub open spec fn hex_digit(value: int) -> char {
    if value < 10 {
        (('0' as u32) + value) as char
    } else {
        (('a' as u32) + (value - 10)) as char
    }
}

/// A character within a JSON string. The quotation mark, the reverse solidus and the control
/// characters below the space are escaped, five of the latter by a letter of their own.
pub open spec fn escaped(c: char) -> Seq<char> {
    if c == '"' {
        seq!['\\', '"']
    } else if c == '\\' {
        seq!['\\', '\\']
    } else if c == '\n' {
        seq!['\\', 'n']
    } else if c == '\r' {
        seq!['\\', 'r']
    } else if c == '\t' {
        seq!['\\', 't']
    } else if c as int == 0x8 {
        seq!['\\', 'b']
    } else if c as int == 0xc {
        seq!['\\', 'f']
    } else if (c as int) < 0x20 {
        seq!['\\', 'u', '0', '0', hex_digit(c as int / 16), hex_digit(c as int % 16)]
    } else {
        seq![c]
    }
}

/// The characters of a JSON string, between its quotation marks.
pub open spec fn escaped_text(text: Seq<char>) -> Seq<char>
    decreases text.len(),
{
    if text.len() == 0 {
        seq![]
    } else {
        escaped(text[0]) + escaped_text(text.drop_first())
    }
}

/// A JSON string.
pub open spec fn quoted(text: Seq<char>) -> Seq<char> {
    seq!['"'] + escaped_text(text) + seq!['"']
}

/// A JSON array.
pub open spec fn array_text(items: Seq<Seq<char>>) -> Seq<char> {
    seq!['['] + joined_by(items, seq![',']) + seq![']']
}

/// A JSON object with these keys and values.
pub open spec fn object_text(fields: Seq<(Seq<char>, Seq<char>)>) -> Seq<char> {
    seq!['{'] + joined_by(
        fields.map_values(|field: (Seq<char>, Seq<char>)| quoted(field.0) + seq![':'] + field.1),
        seq![','],
    ) + seq!['}']
}

/// The texts of some values.
pub open spec fn value_texts(values: Seq<serde_json::Value>) -> Seq<Seq<char>> {
    values.map_values(|value: serde_json::Value| json_text(value))
}

/// The keys and the texts of the values of some fields.
pub open spec fn field_texts(fields: Seq<(String, serde_json::Value)>) -> Seq<
    (Seq<char>, Seq<char>),
> {
    fields.map_values(|field: (String, serde_json::Value)| (field.0@, json_text(field.1)))
}

/// `serde_json::Value::from(i64)` makes a JSON number, written in decimal.
#[verifier::external_body]
pub(crate) fn whole_value(number: i64) -> (value: serde_json::Value)
    ensures
        json_text(value) == signed_decimal(number as int),
{
    serde_json::Value::from(number)
}

/// `serde_json::Value::from(u64)` makes a JSON number, written in decimal.
#[verifier::external_body]
pub(crate) fn count_value(number: u64) -> (value: serde_json::Value)
    ensures
        json_text(value) == decimal(number as nat),
{
    serde_json::Value::from(number)
}

/// `serde_json::Value::from(Option<i64>)` makes a JSON number, or null where there is none.
#[verifier::external_body]
pub(crate) fn optional_value(number: Option<i64>) -> (value: serde_json::Value)
    ensures
        json_text(value) == match number {
            Some(number) => signed_decimal(number as int),
            None => seq!['n', 'u', 'l', 'l'],
        },
{
    serde_json::Value::from(number)
}

/// `serde_json::Value::from(String)` makes a JSON string.
#[verifier::external_body]
pub(crate) fn text_value(text: String) -> (value: serde_json::Value)
    ensures
        json_text(value) == quoted(text@),
{
    serde_json::Value::from(text)
}

/// `serde_json::Value::from(Vec<Value>)` makes a JSON array of the values, in their order.
#[verifier::external_body]
pub(crate) fn array_value(values: Vec<serde_json::Value>) -> (value: serde_json::Value)
    ensures
        json_text(value) == array_text(value_texts(values@)),
{
    serde_json::Value::from(values)
}

/// `serde_json::Map::from_iter` makes a JSON object. Such a map is ordered by its keys, so
/// fields that come in strictly ascending order are written in the order in which they come.
#[verifier::external_body]
pub(crate) fn object_value(fields: Vec<(String, serde_json::Value)>) -> (value: serde_json::Value)
    requires
        forall|i: int|
            0 < i < fields.len() ==> precedes(fields[i - 1].0@, (#[trigger] fields[i]).0@),
    ensures
        json_text(value) == object_text(field_texts(fields@)),
{
    serde_json::Value::Object(fields.into_iter().collect())
}

/// `serde_json::Value::to_string` writes a value as JSON without white space.
#[verifier::external_body]
pub(crate) fn value_text(value: &serde_json::Value) -> (text: String)
    ensures
        text@ == json_text(*value),
{
    value.to_string()
}

} // verus!
