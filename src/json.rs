//! The JSON boundary: parsing and printing through serde_json, and the plain
//! facts about a JSON-RPC object that the classifier decides on.
use vstd::prelude::*;

use serde_json::Value;
use vstd::utf8::encode_utf8;

verus! {

#[verifier::external_type_specification]
#[verifier::external_body]
pub struct ExValue(serde_json::Value);

/// Relies on serde_json::Value's derived `Clone`: a deep copy of the tree.
pub assume_specification[ <serde_json::Value as Clone>::clone ](v: &serde_json::Value) -> (r: serde_json::Value)
    ensures
        r == *v,
;

/// A JSON number as serde_json holds it: a non-negative integer, a negative
/// integer, or any other number, with the text serde_json writes for it.
pub enum JsonNumber {
    PosInt(u64),
    NegInt(i64),
    Float(Seq<char>),
}

/// A JSON value as plain data. Objects map each key to one value.
pub enum Json {
    Null,
    Bool(bool),
    Number(JsonNumber),
    String(Seq<char>),
    Array(Seq<Json>),
    Object(Map<Seq<char>, Json>),
}

/// What a serde_json `Value` holds.
pub uninterp spec fn json_model(v: Value) -> Json;

/// The value serde_json reads from these bytes, if they hold one JSON
/// document.
pub uninterp spec fn json_document(text: Seq<u8>) -> Option<Json>;

/// The compact text serde_json writes for a value.
pub uninterp spec fn json_printed(j: Json) -> Seq<u8>;

/// A lowercase hexadecimal digit.
pub open spec fn hex_digit(n: nat) -> u8 {
    if n < 10 {
        (48 + n) as u8
    } else {
        (87 + n) as u8
    }
}

/// How one character is written inside a JSON string literal: quote and
/// backslash escaped, the short escapes for backspace, tab, line feed, form
/// feed and carriage return, `\u00xx` for the other control characters, and
/// everything else as its UTF-8 bytes.
pub open spec fn escaped_char(c: char) -> Seq<u8> {
    if c == '"' {
        seq![92u8, 34]
    } else if c == '\\' {
        seq![92u8, 92]
    } else if c == '\u{8}' {
        seq![92u8, 98]
    } else if c == '\t' {
        seq![92u8, 116]
    } else if c == '\n' {
        seq![92u8, 110]
    } else if c == '\u{c}' {
        seq![92u8, 102]
    } else if c == '\r' {
        seq![92u8, 114]
    } else if (c as u32) < 32 {
        seq![92u8, 117, 48, 48, hex_digit((c as u32 / 16) as nat), hex_digit((c as u32 % 16) as nat)]
    } else {
        encode_utf8(seq![c])
    }
}

pub open spec fn escaped_text(s: Seq<char>) -> Seq<u8>
    decreases s.len(),
{
    if s.len() == 0 {
        seq![]
    } else {
        escaped_text(s.drop_last()) + escaped_char(s.last())
    }
}

/// The JSON string literal that serde_json writes for a text.
pub open spec fn json_quoted(s: Seq<char>) -> Seq<u8> {
    seq![34u8] + escaped_text(s) + seq![34u8]
}

/// Whether serde_json accepts these bytes as one JSON document.
pub open spec fn json_accepts(text: Seq<u8>) -> bool {
    json_document(text) is Some
}

/// The member of an object under `key`; nothing for any other value.
pub open spec fn json_get(j: Json, key: Seq<char>) -> Option<Json> {
    match j {
        Json::Object(m) => if m.contains_key(key) {
            Some(m[key])
        } else {
            None
        },
        _ => None,
    }
}

pub open spec fn json_as_str(j: Json) -> Option<Seq<char>> {
    match j {
        Json::String(s) => Some(s),
        _ => None,
    }
}

pub open spec fn json_as_u64(j: Json) -> Option<u64> {
    match j {
        Json::Number(JsonNumber::PosInt(n)) => Some(n),
        _ => None,
    }
}

pub open spec fn json_as_i64(j: Json) -> Option<i64> {
    match j {
        Json::Number(JsonNumber::PosInt(n)) => if n <= i64::MAX {
            Some(n as i64)
        } else {
            None
        },
        Json::Number(JsonNumber::NegInt(n)) => Some(n),
        _ => None,
    }
}

/// Relies on serde_json::from_slice: succeeds exactly when the bytes hold one
/// JSON document, and yields that document's value.
#[verifier::external_body]
pub(crate) fn parse_json(text: &[u8]) -> (r: Option<Value>)
    ensures
        r is Some == json_document(text@) is Some,
        r matches Some(v) ==> json_document(text@) == Some(json_model(v)),
{
    serde_json::from_slice(text).ok()
}

/// Relies on serde_json::to_vec on a `str`: the escaped, quoted literal.
#[verifier::external_body]
pub(crate) fn quote_json(s: &str) -> (r: Vec<u8>)
    ensures
        r@ == json_quoted(s@),
{
    serde_json::to_vec(s).unwrap_or_default()
}

/// Relies on serde_json::to_vec on a `Value`: its compact JSON text.
#[verifier::external_body]
pub(crate) fn print_json(v: &Value) -> (r: Vec<u8>)
    ensures
        r@ == json_printed(json_model(*v)),
{
    serde_json::to_vec(v).unwrap_or_default()
}

/// Relies on `Value`'s `Display`: the same compact text as `to_vec`.
#[verifier::external_body]
pub(crate) fn display_json(v: &Value) -> (r: String)
    ensures
        encode_utf8(r@) == json_printed(json_model(*v)),
{
    v.to_string()
}

/// Relies on serde_json::Value::get: the member of an object under `key`.
#[verifier::external_body]
pub(crate) fn json_member(v: &Value, key: &str) -> (r: Option<Value>)
    ensures
        match r {
            Some(m) => json_get(json_model(*v), key@) == Some(json_model(m)),
            None => json_get(json_model(*v), key@) is None,
        },
{
    v.get(key).cloned()
}

/// Relies on serde_json::Value::as_str: the text of a JSON string.
#[verifier::external_body]
pub(crate) fn json_text(v: &Value) -> (r: Option<String>)
    ensures
        match json_as_str(json_model(*v)) {
            Some(s) => r matches Some(t) && t@ == s,
            None => r is None,
        },
{
    v.as_str().map(|s| s.to_owned())
}

/// Relies on serde_json::Value::is_number.
#[verifier::external_body]
pub(crate) fn json_is_number(v: &Value) -> (r: bool)
    ensures
        r == json_model(*v) is Number,
{
    v.is_number()
}

/// Relies on serde_json::Value::as_i64: a number that fits in an `i64`.
#[verifier::external_body]
pub(crate) fn json_i64(v: &Value) -> (r: Option<i64>)
    ensures
        r == json_as_i64(json_model(*v)),
{
    v.as_i64()
}

/// Relies on serde_json::Value::Null.
#[verifier::external_body]
pub(crate) fn json_null() -> (r: Value)
    ensures
        json_model(r) == Json::Null,
{
    Value::Null
}

/// The shape of an object's `id` member.
pub enum IdField {
    Absent,
    /// A number, with the text serde_json writes for it.
    Number(String),
    Text(String),
    Other,
}

/// The `error` member of a response: its `code` when it is an integer that
/// fits in an `i64`, its `message` when it is a string.
pub struct ErrorFields {
    pub code: Option<i64>,
    pub message: Option<String>,
}

/// What the classifier reads of a JSON-RPC object.
pub struct Envelope {
    pub id: IdField,
    /// The `method` member when it is a string.
    pub method: Option<String>,
    pub params: Option<Value>,
    pub result: Option<Value>,
    pub error: Option<ErrorFields>,
}

/// The text an `id` member stands for: a number as JSON writes it, a string
/// as it is, and anything else, or no id at all, a single space.
pub open spec fn id_text(id: IdField) -> Seq<char> {
    match id {
        IdField::Number(t) => t@,
        IdField::Text(s) => s@,
        _ => " "@,
    }
}

/// Computes `id_text`.
pub fn id_string(id: &IdField) -> (r: String)
    ensures
        r@ == id_text(*id),
{
    match id {
        IdField::Number(t) => t.clone(),
        IdField::Text(s) => s.clone(),
        _ => " ".to_owned(),
    }
}

pub open spec fn opt_text(o: Option<String>) -> Option<Seq<char>> {
    match o {
        Some(s) => Some(s@),
        None => None,
    }
}

/// A member carried over as a value, or absent on both sides.
pub open spec fn carries(o: Option<Value>, member: Option<Json>) -> bool {
    match (o, member) {
        (Some(v), Some(m)) => json_model(v) == m,
        (None, None) => true,
        _ => false,
    }
}

/// How the `id` member is read.
pub open spec fn reads_id(member: Option<Json>, id: IdField) -> bool {
    match member {
        None => id is Absent,
        Some(Json::Number(n)) => id matches IdField::Number(t) && encode_utf8(t@) == json_printed(
            Json::Number(n),
        ),
        Some(Json::String(s)) => id matches IdField::Text(t) && t@ == s,
        Some(_) => id is Other,
    }
}

/// How the `error` member is read: its `code` when it is an integer that fits
/// in an `i64`, its `message` when it is a string.
pub open spec fn reads_error(member: Option<Json>, error: Option<ErrorFields>) -> bool {
    match member {
        None => error is None,
        Some(ej) => error matches Some(f) && f.code == (match json_get(ej, "code"@) {
            Some(c) => json_as_i64(c),
            None => None,
        }) && opt_text(f.message) == (match json_get(ej, "message"@) {
            Some(m) => json_as_str(m),
            None => None,
        }),
    }
}

/// `e` holds what the classifier reads of the JSON value `j`.
pub open spec fn reads_envelope(j: Json, e: Envelope) -> bool {
    &&& reads_id(json_get(j, "id"@), e.id)
    &&& opt_text(e.method) == (match json_get(j, "method"@) {
        Some(m) => json_as_str(m),
        None => None,
    })
    &&& carries(e.params, json_get(j, "params"@))
    &&& carries(e.result, json_get(j, "result"@))
    &&& reads_error(json_get(j, "error"@), e.error)
}

impl Envelope {
    /// Reads the members that decide how an object is classified.
    pub fn read(v: &Value) -> (r: Envelope)
        ensures
            reads_envelope(json_model(*v), r),
    {
        let id = match json_member(v, "id") {
            None => IdField::Absent,
            Some(m) => if json_is_number(&m) {
                IdField::Number(display_json(&m))
            } else {
                match json_text(&m) {
                    Some(s) => IdField::Text(s),
                    None => IdField::Other,
                }
            },
        };
        let method = match json_member(v, "method") {
            Some(m) => json_text(&m),
            None => None,
        };
        let error = match json_member(v, "error") {
            Some(e) => {
                let code = match json_member(&e, "code") {
                    Some(c) => json_i64(&c),
                    None => None,
                };
                let message = match json_member(&e, "message") {
                    Some(m) => json_text(&m),
                    None => None,
                };
                Some(ErrorFields { code, message })
            },
            None => None,
        };
        Envelope {
            id,
            method,
            params: json_member(v, "params"),
            result: json_member(v, "result"),
            error,
        }
    }
}

} // verus!
