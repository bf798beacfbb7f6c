//! What this library has from `serde_json`: reading a JSON object, looking
//! up a member of it, and writing a text as a JSON string. None of it is
//! proved here; each item says what it takes on trust.

use crate::number::digit_char;
use vstd::prelude::*;

verus! {

/// A member of a JSON object, as far as this library looks at it.
#[derive(Clone, Debug, PartialEq, Eq)]
pub enum Member {
    /// The JSON value `null`.
    Null,
    /// A number without fraction or exponent that 64 bits with a sign hold.
    Integer(i64),
    /// A JSON string, escapes resolved.
    Text(String),
    /// Any other value: `true`, `false`, another number, an array, an object.
    Other,
}

/// A `Member` as a mathematical value.
pub ghost enum MemberModel {
    Null,
    Integer(int),
    Text(Seq<char>),
    Other,
}

impl View for Member {
    type V = MemberModel;

    open spec fn view(&self) -> MemberModel {
        match self {
            Member::Null => MemberModel::Null,
            Member::Integer(n) => MemberModel::Integer(*n as int),
            Member::Text(t) => MemberModel::Text(t@),
            Member::Other => MemberModel::Other,
        }
    }
}

/// `serde_json::Value`, carried through unopened.
#[verifier::external_type_specification]
#[verifier::external_body]
pub struct ExValue(serde_json::Value);

/// `serde_json::Map`, the members of a JSON object by their keys.
#[verifier::external_type_specification]
#[verifier::external_body]
#[verifier::reject_recursive_types(K)]
#[verifier::reject_recursive_types(V)]
pub struct ExObject<K, V>(serde_json::Map<K, V>);

/// `serde_json::Error`, carried through unopened.
#[verifier::external_type_specification]
#[verifier::external_body]
pub struct ExJsonError(serde_json::Error);

/// The members that `object` holds, by their keys.
pub uninterp spec fn members(object: serde_json::Map<String, serde_json::Value>) -> Map<
    Seq<char>,
    MemberModel,
>;

/// The members of the JSON object that `text` writes, as `serde_json`
/// reads them; `None` where `text` is no JSON object with nothing but
/// white space around it. Where two members bear one key, the last of them
/// counts. Every member is read in full, whatever its key: a text with a
/// member that is nested deeper than `serde_json` follows, or that holds a
/// number beyond its range, is no object here.
pub uninterp spec fn json_object(text: Seq<char>) -> Option<Map<Seq<char>, MemberModel>>;

/// The character that writes the hexadecimal digit `d`, in lower case.
pub open spec fn hex_digit(d: int) -> char {
    if d < 10 {
        digit_char(d)
    } else if d == 10 {
        'a'
    } else if d == 11 {
        'b'
    } else if d == 12 {
        'c'
    } else if d == 13 {
        'd'
    } else if d == 14 {
        'e'
    } else {
        'f'
    }
}

/// How `c` stands inside a JSON string: the quote, the backslash and the
/// control characters escaped, every other character as itself.
pub open spec fn escaped(c: char) -> Seq<char> {
    if c == '"' {
        seq!['\\', '"']
    } else if c == '\\' {
        seq!['\\', '\\']
    } else if c == '\u{8}' {
        seq!['\\', 'b']
    } else if c == '\u{c}' {
        seq!['\\', 'f']
    } else if c == '\n' {
        seq!['\\', 'n']
    } else if c == '\r' {
        seq!['\\', 'r']
    } else if c == '\t' {
        seq!['\\', 't']
    } else if (c as int) < 32 {
        seq!['\\', 'u', '0', '0', hex_digit(c as int / 16), hex_digit(c as int % 16)]
    } else {
        seq![c]
    }
}

/// The characters of `text` as they stand inside a JSON string.
pub open spec fn escaped_text(text: Seq<char>) -> Seq<char>
    decreases text.len(),
{
    if text.len() == 0 {
        Seq::empty()
    } else {
        escaped_text(text.drop_last()) + escaped(text.last())
    }
}

/// `text` written as a JSON string: between two quotes, its characters as
/// `escaped` gives them.
pub open spec fn json_string(text: Seq<char>) -> Seq<char> {
    seq!['"'] + escaped_text(text) + seq!['"']
}

/// Calls `serde_json::from_str` for a `serde_json::Map<String, Value>`.
/// Taken on trust: the call succeeds exactly on the texts that
/// `json_object` knows, and the map it returns holds the members that
/// `json_object` gives.
#[verifier::external_body]
pub(crate) fn parse_object(text: &str) -> (parsed: Result<
    serde_json::Map<String, serde_json::Value>,
    serde_json::Error,
>)
    ensures
        match parsed {
            Ok(object) => json_object(text@) == Some(members(object)),
            Err(_) => json_object(text@).is_none(),
        },
{
    serde_json::from_str::<serde_json::Map<String, serde_json::Value>>(text)
}

/// Calls `serde_json::Map::get`, and `serde_json::Number::as_i64` on a
/// number. Taken on trust: the result is `None` exactly where `object` has
/// no member under `key`, and otherwise the member as `members` gives it.
#[verifier::external_body]
pub(crate) fn member(object: &serde_json::Map<String, serde_json::Value>, key: &str) -> (found:
    Option<Member>)
    ensures
        match found {
            Some(m) => members(*object).contains_key(key@) && members(*object)[key@] == m@,
            None => !members(*object).contains_key(key@),
        },
{
    match object.get(key) {
        None => None,
        Some(serde_json::Value::Null) => Some(Member::Null),
        Some(serde_json::Value::String(text)) => Some(Member::Text(text.clone())),
        Some(serde_json::Value::Number(number)) => match number.as_i64() {
            Some(n) => Some(Member::Integer(n)),
            None => Some(Member::Other),
        },
        Some(_) => Some(Member::Other),
    }
}

/// Calls `serde_json::to_string` on a `str`, which cannot fail: the text is
/// written to memory, and a `str` raises no error of its own. Taken on
/// trust: the result is the text between two quotes, with the escapes that
/// `json_string` states.
#[verifier::external_body]
pub(crate) fn quote(text: &str) -> (quoted: String)
    ensures
        quoted@ == json_string(text@),
{
    serde_json::to_string(text).unwrap_or_default()
}

} // verus!
