//! A JSON document tree that the library can reason about.
//!
//! Parsing text is serde_json's job; its result is carried over into
//! `JsonValue`, whose accessors mirror the `serde_json::Value` ones that the
//! event and message classifiers read (`get`, `as_str`, `as_bool`, `as_i64`,
//! `as_u64`, `as_array`).

use vstd::prelude::*;

use crate::paths::{hex_char, hex_digit};
use crate::text::{chars_of, push_char, str_eq};

verus! {

/// A JSON number: its value as an `i64` and as a `u64` where it is an
/// integer in range, and its textual form.
#[derive(Debug, Clone)]
pub struct JsonNumber {
    pub int: Option<i64>,
    pub uint: Option<u64>,
    pub text: String,
}

/// A JSON value. Object members keep the order serde_json hands them over in.
#[derive(Debug)]
pub enum JsonValue {
    Null,
    Bool(bool),
    Number(JsonNumber),
    String(String),
    Array(Vec<JsonValue>),
    Object(Vec<(String, JsonValue)>),
}

#[verifier::external_type_specification]
#[verifier::external_body]
pub struct ExSerdeValue(serde_json::Value);

/// The first member of `entries` named `key`.
pub open spec fn lookup(entries: Seq<(String, JsonValue)>, key: Seq<char>) -> Option<JsonValue>
    decreases entries.len(),
{
    if entries.len() == 0 {
        None
    } else if entries[0].0@ == key {
        Some(entries[0].1)
    } else {
        lookup(entries.drop_first(), key)
    }
}

/// `value.get(key)`: the member `key` of an object; `None` for anything else.
pub open spec fn member(value: JsonValue, key: Seq<char>) -> Option<JsonValue> {
    match value {
        JsonValue::Object(entries) => lookup(entries@, key),
        _ => None,
    }
}

/// `member` through an optional value.
pub open spec fn member_of(value: Option<JsonValue>, key: Seq<char>) -> Option<JsonValue> {
    match value {
        Some(v) => member(v, key),
        None => None,
    }
}

/// The text of a JSON string.
pub open spec fn str_of(value: Option<JsonValue>) -> Option<Seq<char>> {
    match value {
        Some(JsonValue::String(s)) => Some(s@),
        _ => None,
    }
}

/// The value of a JSON boolean.
pub open spec fn bool_of(value: Option<JsonValue>) -> Option<bool> {
    match value {
        Some(JsonValue::Bool(b)) => Some(b),
        _ => None,
    }
}

/// The value of a JSON number that is an `i64`.
pub open spec fn i64_of(value: Option<JsonValue>) -> Option<i64> {
    match value {
        Some(JsonValue::Number(n)) => n.int,
        _ => None,
    }
}

/// The value of a JSON number that is a `u64`.
pub open spec fn u64_of(value: Option<JsonValue>) -> Option<u64> {
    match value {
        Some(JsonValue::Number(n)) => n.uint,
        _ => None,
    }
}

/// The elements of a JSON array.
pub open spec fn array_of(value: Option<JsonValue>) -> Option<Seq<JsonValue>> {
    match value {
        Some(JsonValue::Array(items)) => Some(items@),
        _ => None,
    }
}

/// What serde_json makes of `text`: the document, or the text of its error.
pub uninterp spec fn json_parse(text: Seq<char>) -> Result<JsonValue, Seq<char>>;

/// Carries a parsed `serde_json::Value` over into a `JsonValue`, member for
/// member and element for element. Nothing is claimed of the result.
#[verifier::external_body]
fn from_serde(value: serde_json::Value) -> JsonValue {
    match value {
        serde_json::Value::Null => JsonValue::Null,
        serde_json::Value::Bool(b) => JsonValue::Bool(b),
        serde_json::Value::Number(n) => JsonValue::Number(
            JsonNumber { int: n.as_i64(), uint: n.as_u64(), text: n.to_string() },
        ),
        serde_json::Value::String(s) => JsonValue::String(s),
        serde_json::Value::Array(items) => JsonValue::Array(
            items.into_iter().map(from_serde).collect(),
        ),
        serde_json::Value::Object(map) => JsonValue::Object(
            map.into_iter().map(|(k, v)| (k, from_serde(v))).collect(),
        ),
    }
}

/// Parses `text` with `serde_json::from_str::<serde_json::Value>`. The
/// contract claims only that the outcome is a function of the text
/// (`json_parse`); which documents serde_json accepts is not restated.
#[verifier::external_body]
fn serde_parse(text: &str) -> (r: Result<JsonValue, String>)
    ensures
        json_parse(text@) == match r {
            Ok(v) => Ok(v),
            Err(e) => Err::<JsonValue, Seq<char>>(e@),
        },
{
    match serde_json::from_str::<serde_json::Value>(text) {
        Ok(value) => Ok(from_serde(value)),
        Err(err) => Err(err.to_string()),
    }
}

/// The compact JSON text of a value, as serde_json writes it.
pub uninterp spec fn json_text(value: JsonValue) -> Seq<char>;

/// Carries a `JsonValue` over into a `serde_json::Value`, member for member
/// and element for element. Nothing is claimed of the result.
#[verifier::external_body]
fn to_serde(value: &JsonValue) -> serde_json::Value {
    match value {
        JsonValue::Null => serde_json::Value::Null,
        JsonValue::Bool(b) => serde_json::Value::Bool(*b),
        JsonValue::Number(n) => serde_json::from_str(&n.text).unwrap_or(serde_json::Value::Null),
        JsonValue::String(s) => serde_json::Value::String(s.clone()),
        JsonValue::Array(items) => serde_json::Value::Array(items.iter().map(to_serde).collect()),
        JsonValue::Object(entries) => serde_json::Value::Object(
            entries.iter().map(|(k, v)| (k.clone(), to_serde(v))).collect(),
        ),
    }
}

/// The JSON text of a value (`serde_json::Value`'s `Display`). The contract
/// names the text; it does not restate serde_json's formatting.
#[verifier::external_body]
pub(crate) fn write_json(value: &JsonValue) -> (r: String)
    ensures
        r@ == json_text(*value),
{
    to_serde(value).to_string()
}

/// How serde_json writes one character inside a string literal: `"` and `\`
/// behind a backslash; backspace, tab, line feed, form feed and carriage
/// return as `\b \t \n \f \r`; every other character below U+0020 as
/// `\u00XX` in lowercase hex; anything else as itself.
pub open spec fn json_char_escape(c: char) -> Seq<char> {
    if c == '"' {
        seq!['\\', '"']
    } else if c == '\\' {
        seq!['\\', '\\']
    } else if c == '\u{8}' {
        seq!['\\', 'b']
    } else if c == '\t' {
        seq!['\\', 't']
    } else if c == '\n' {
        seq!['\\', 'n']
    } else if c == '\u{c}' {
        seq!['\\', 'f']
    } else if c == '\r' {
        seq!['\\', 'r']
    } else if (c as int) < 0x20 {
        seq!['\\', 'u', '0', '0', hex_char((c as int) / 16), hex_char((c as int) % 16)]
    } else {
        seq![c]
    }
}

/// The escaped characters of a text, in order.
pub open spec fn json_escaped(text: Seq<char>) -> Seq<char>
    decreases text.len(),
{
    if text.len() == 0 {
        Seq::empty()
    } else {
        json_escaped(text.drop_last()) + json_char_escape(text.last())
    }
}

/// The JSON encoding of a text as a string literal: quoted and escaped.
pub open spec fn json_string(text: Seq<char>) -> Seq<char> {
    seq!['"'] + json_escaped(text) + seq!['"']
}

/// Appends the JSON escape of one character.
fn push_json_char(out: &mut String, c: char)
    ensures
        final(out)@ == old(out)@ + json_char_escape(c),
{
    let escaped: Option<char> = if c == '"' {
        Some('"')
    } else if c == '\\' {
        Some('\\')
    } else if c == '\u{8}' {
        Some('b')
    } else if c == '\t' {
        Some('t')
    } else if c == '\n' {
        Some('n')
    } else if c == '\u{c}' {
        Some('f')
    } else if c == '\r' {
        Some('r')
    } else {
        None
    };
    match escaped {
        Some(e) => {
            push_char(out, '\\');
            push_char(out, e);
            assert(final(out)@ =~= old(out)@ + json_char_escape(c));
        },
        None => {
            let code = c as u32;
            if code < 0x20 {
                push_char(out, '\\');
                push_char(out, 'u');
                push_char(out, '0');
                push_char(out, '0');
                push_char(out, hex_digit((code / 16) as u8));
                push_char(out, hex_digit((code % 16) as u8));
                assert(final(out)@ =~= old(out)@ + json_char_escape(c));
            } else {
                push_char(out, c);
                assert(final(out)@ =~= old(out)@ + json_char_escape(c));
            }
        },
    }
}

/// The text as a JSON string literal, quoted and escaped as `json_string`
/// states — what `serde_json::to_string` makes of a `&str`.
pub fn encode_json_string(text: &str) -> (r: String)
    ensures
        r@ == json_string(text@),
{
    let chars = chars_of(text);
    let mut out = String::new();
    push_char(&mut out, '"');
    let mut i: usize = 0;
    assert(chars@.take(0) =~= Seq::<char>::empty());
    while i < chars.len()
        invariant
            i <= chars.len(),
            chars@ == text@,
            out@ == seq!['"'] + json_escaped(chars@.take(i as int)),
        decreases chars.len() - i,
    {
        assert(chars@.take(i as int + 1).drop_last() =~= chars@.take(i as int));
        push_json_char(&mut out, chars[i]);
        assert(out@ =~= seq!['"'] + json_escaped(chars@.take(i as int + 1)));
        i += 1;
    }
    assert(chars@.take(chars.len() as int) =~= chars@);
    push_char(&mut out, '"');
    assert(out@ =~= json_string(text@));
    out
}

/// Parses JSON text into a document, or the parser's error message.
pub fn parse_json(text: &str) -> (r: Result<JsonValue, String>)
    ensures
        json_parse(text@) == match r {
            Ok(v) => Ok(v),
            Err(e) => Err::<JsonValue, Seq<char>>(e@),
        },
{
    serde_parse(text)
}

impl JsonValue {
    /// `serde_json::Value::get`: the member `key` of an object.
    pub fn get(&self, key: &str) -> (r: Option<&JsonValue>)
        ensures
            match r {
                Some(v) => member(*self, key@) == Some(*v),
                None => member(*self, key@) is None,
            },
    {
        match self {
            JsonValue::Object(entries) => {
                let mut i: usize = 0;
                assert(entries@.skip(0) =~= entries@);
                while i < entries.len()
                    invariant
                        i <= entries.len(),
                        *self == JsonValue::Object(*entries),
                        lookup(entries@, key@) == lookup(entries@.skip(i as int), key@),
                    decreases entries.len() - i,
                {
                    assert(entries@.skip(i as int).drop_first() =~= entries@.skip(i as int + 1));
                    if str_eq(entries[i].0.as_str(), key) {
                        return Some(&entries[i].1);
                    }
                    i += 1;
                }
                None
            },
            _ => None,
        }
    }

    /// The text of a JSON string.
    pub fn as_str(&self) -> (r: Option<&str>)
        ensures
            match r {
                Some(s) => str_of(Some(*self)) == Some(s@),
                None => str_of(Some(*self)) is None,
            },
    {
        match self {
            JsonValue::String(s) => Some(s.as_str()),
            _ => None,
        }
    }

    /// The value of a JSON boolean.
    pub fn as_bool(&self) -> (r: Option<bool>)
        ensures
            r == bool_of(Some(*self)),
    {
        match self {
            JsonValue::Bool(b) => Some(*b),
            _ => None,
        }
    }

    /// The value of a JSON number that fits an `i64`.
    pub fn as_i64(&self) -> (r: Option<i64>)
        ensures
            r == i64_of(Some(*self)),
    {
        match self {
            JsonValue::Number(n) => n.int,
            _ => None,
        }
    }

    /// The value of a JSON number that fits a `u64`.
    pub fn as_u64(&self) -> (r: Option<u64>)
        ensures
            r == u64_of(Some(*self)),
    {
        match self {
            JsonValue::Number(n) => n.uint,
            _ => None,
        }
    }

    /// The elements of a JSON array.
    pub fn as_array(&self) -> (r: Option<&Vec<JsonValue>>)
        ensures
            match r {
                Some(items) => array_of(Some(*self)) == Some(items@),
                None => array_of(Some(*self)) is None,
            },
    {
        match self {
            JsonValue::Array(items) => Some(items),
            _ => None,
        }
    }

    /// The position of the member `key` of an object.
    pub fn member_index(&self, key: &str) -> (r: Option<usize>)
        ensures
            match r {
                Some(i) => match *self {
                    JsonValue::Object(entries) => i < entries.len() && member(*self, key@) == Some(
                        entries@[i as int].1,
                    ) && entries@[i as int].0@ == key@,
                    _ => false,
                },
                None => member(*self, key@) is None,
            },
    {
        match self {
            JsonValue::Object(entries) => {
                let mut i: usize = 0;
                assert(entries@.skip(0) =~= entries@);
                while i < entries.len()
                    invariant
                        i <= entries.len(),
                        *self == JsonValue::Object(*entries),
                        lookup(entries@, key@) == lookup(entries@.skip(i as int), key@),
                    decreases entries.len() - i,
                {
                    assert(entries@.skip(i as int).drop_first() =~= entries@.skip(i as int + 1));
                    if str_eq(entries[i].0.as_str(), key) {
                        assert(entries@.skip(i as int)[0] == entries@[i as int]);
                        return Some(i);
                    }
                    i += 1;
                }
                None
            },
            _ => None,
        }
    }

    /// Moves out the member `key` of an object.
    pub fn take_member(self, key: &str) -> (r: Option<JsonValue>)
        ensures
            r == member(self, key@),
    {
        match self.member_index(key) {
            None => None,
            Some(i) => match self {
                JsonValue::Object(entries) => {
                    let mut entries = entries;
                    let entry = entries.remove(i);
                    Some(entry.1)
                },
                _ => None,
            },
        }
    }

    /// Moves out element `index` of an array.
    pub fn take_element(self, index: usize) -> (r: Option<JsonValue>)
        ensures
            r == match self {
                JsonValue::Array(items) => if index < items.len() {
                    Some(items@[index as int])
                } else {
                    None
                },
                _ => None,
            },
    {
        match self {
            JsonValue::Array(items) => {
                let mut items = items;
                if index < items.len() {
                    Some(items.remove(index))
                } else {
                    None
                }
            },
            _ => None,
        }
    }

    /// Whether this is `null`.
    pub fn is_null(&self) -> (r: bool)
        ensures
            r == (*self is Null),
    {
        match self {
            JsonValue::Null => true,
            _ => false,
        }
    }
}

} // verus!
