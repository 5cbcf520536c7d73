//! Text encoding and decoding of documents, through serde_json.
use vstd::prelude::*;

use crate::json::{Json, JsonNumber, JsonValue};
use crate::json::{view_items, view_members};
use crate::normalize::{normalize_uec, normalized_doc};
use crate::text::{error_text, join, push_error, texts};
use crate::types::ParseValidationResult;
use crate::validate::{validate_uec, validation_errors};

verus! {

broadcast use crate::json::group_json_view;

/// serde_json's value, carried through without looking inside.
#[verifier::external_type_specification]
#[verifier::external_body]
pub struct ExSerdeValue(serde_json::Value);

/// serde_json's error, carried through without looking inside.
#[verifier::external_type_specification]
#[verifier::external_body]
pub struct ExSerdeError(serde_json::Error);

/// serde_json's number, carried through without looking inside.
#[verifier::external_type_specification]
#[verifier::external_body]
pub struct ExSerdeNumber(serde_json::Number);

/// One level of a decoded value: its variant, with the children still decoded values.
enum Layer {
    Null,
    Bool(bool),
    Number(serde_json::Number),
    String(String),
    Array(Vec<serde_json::Value>),
    Object(Vec<(String, serde_json::Value)>),
}

/// The message with which serde_json refuses `text`; none when `text` decodes.
pub uninterp spec fn json_error(text: Seq<char>) -> Option<Seq<char>>;

/// Whether serde_json reads `text` as a JSON number.
pub uninterp spec fn number_text_ok(text: Seq<char>) -> bool;

/// Relies on `serde_json::from_str::<serde_json::Value>`, whose outcome depends on
/// the text alone, and on the `Display` impl of its error for the message.
#[verifier::external_body]
fn decode_text(text: &str) -> (r: Result<serde_json::Value, String>)
    ensures
        match r {
            Ok(_) => json_error(text@) is None,
            Err(m) => json_error(text@) == Some(m@),
        },
{
    match serde_json::from_str::<serde_json::Value>(text) {
        Ok(v) => Ok(v),
        Err(e) => Err(e.to_string()),
    }
}

/// Relies on `serde_json::Number::as_u64` and `as_i64` to tell the integer kinds
/// apart, and on its `Display` impl for any other number.
#[verifier::external_body]
fn number_parts(n: &serde_json::Number) -> (r: JsonNumber) {
    if let Some(u) = n.as_u64() {
        JsonNumber::PosInt(u)
    } else if let Some(i) = n.as_i64() {
        JsonNumber::NegInt(i)
    } else {
        JsonNumber::Float(n.to_string())
    }
}

/// Relies on the variants of `serde_json::Value`, moving each one's fields out;
/// an object's members come out in the map's order.
#[verifier::external_body]
fn open_value(v: serde_json::Value) -> (r: Layer) {
    match v {
        serde_json::Value::Null => Layer::Null,
        serde_json::Value::Bool(b) => Layer::Bool(b),
        serde_json::Value::Number(n) => Layer::Number(n),
        serde_json::Value::String(s) => Layer::String(s),
        serde_json::Value::Array(items) => Layer::Array(items),
        serde_json::Value::Object(m) => Layer::Object(m.into_iter().collect()),
    }
}

/// Relies on `serde_json::Value::Null`.
#[verifier::external_body]
fn serde_null() -> (r: serde_json::Value) {
    serde_json::Value::Null
}

/// Relies on `serde_json::Value::Bool`.
#[verifier::external_body]
fn serde_bool(b: bool) -> (r: serde_json::Value) {
    serde_json::Value::Bool(b)
}

/// Relies on `serde_json::Value::String`.
#[verifier::external_body]
fn serde_string(s: String) -> (r: serde_json::Value) {
    serde_json::Value::String(s)
}

/// Relies on `From<u64> for serde_json::Value`.
#[verifier::external_body]
fn serde_unsigned(u: u64) -> (r: serde_json::Value) {
    serde_json::Value::from(u)
}

/// Relies on `From<i64> for serde_json::Value`.
#[verifier::external_body]
fn serde_signed(i: i64) -> (r: serde_json::Value) {
    serde_json::Value::from(i)
}

/// Relies on `FromStr for serde_json::Number` to read a number's decimal text;
/// none for text that is no JSON number.
#[verifier::external_body]
fn serde_number_text(t: &str) -> (r: Option<serde_json::Value>)
    ensures
        r is Some <==> number_text_ok(t@),
{
    match t.parse::<serde_json::Number>() {
        Ok(n) => Some(serde_json::Value::Number(n)),
        Err(_) => None,
    }
}

/// Relies on `serde_json::Value::Array`.
#[verifier::external_body]
fn serde_array(items: Vec<serde_json::Value>) -> (r: serde_json::Value) {
    serde_json::Value::Array(items)
}

/// Relies on `FromIterator<(String, Value)> for serde_json::Map`, where a later
/// member of a key replaces an earlier one.
#[verifier::external_body]
fn serde_object(members: Vec<(String, serde_json::Value)>) -> (r: serde_json::Value) {
    serde_json::Value::Object(members.into_iter().collect())
}

/// Relies on `serde_json::to_string`, which fails only for a `Serialize` impl that
/// fails or a map with keys that are not strings; `Value`'s impl does neither.
#[verifier::external_body]
fn encode_compact(v: &serde_json::Value) -> (r: Result<String, serde_json::Error>)
    ensures
        r is Ok,
{
    serde_json::to_string(v)
}

/// Relies on `serde_json::to_string_pretty`, which fails only for a `Serialize` impl
/// that fails or a map with keys that are not strings; `Value`'s impl does neither.
#[verifier::external_body]
fn encode_pretty(v: &serde_json::Value) -> (r: Result<String, serde_json::Error>)
    ensures
        r is Ok,
{
    serde_json::to_string_pretty(v)
}

/// Deepest nesting that decoding follows. serde_json's parser refuses text nested
/// 128 levels deep, so every value it hands back fits.
pub const MAX_DEPTH: usize = 128;

/// The message for a decoded value nested deeper than `MAX_DEPTH`.
pub const TOO_DEEP: &'static str = "nesting is too deep";

/// Every number kept as text reads as a JSON number.
pub open spec fn numbers_ok(v: Json) -> bool
    decreases v, 0nat,
{
    match v {
        Json::Num(crate::json::Num::Float(t)) => number_text_ok(t),
        Json::Arr(items) => items_ok(items, items.len()),
        Json::Obj(m) => members_ok(m, m.len()),
        _ => true,
    }
}

/// The first `n` items pass `numbers_ok`.
pub open spec fn items_ok(s: Seq<Json>, n: nat) -> bool
    decreases s, n,
{
    if n == 0 || n > s.len() {
        true
    } else {
        items_ok(s, (n - 1) as nat) && numbers_ok(s[n - 1])
    }
}

/// The values of the first `n` members pass `numbers_ok`.
pub open spec fn members_ok(m: Seq<(Seq<char>, Json)>, n: nat) -> bool
    decreases m, n,
{
    if n == 0 || n > m.len() {
        true
    } else {
        members_ok(m, (n - 1) as nat) && numbers_ok(m[n - 1].1)
    }
}

/// The message for a number whose text is no JSON number.
pub const BAD_NUMBER: &'static str = "a number's text is not a JSON number";

/// The library's value for a decoded one, `None` past `depth` levels.
#[verifier::loop_isolation(false)]
fn from_serde(v: serde_json::Value, depth: usize) -> (r: Option<JsonValue>)
    decreases depth,
{
    match open_value(v) {
        Layer::Null => Some(JsonValue::Null),
        Layer::Bool(b) => Some(JsonValue::Bool(b)),
        Layer::Number(n) => Some(JsonValue::Number(number_parts(&n))),
        Layer::String(s) => Some(JsonValue::String(s)),
        Layer::Array(mut items) => {
            if depth == 0 {
                return None;
            }
            let mut rev: Vec<JsonValue> = Vec::new();
            while items.len() > 0
                decreases items.len(),
            {
                let item = items.pop().unwrap();
                match from_serde(item, depth - 1) {
                    Some(x) => rev.push(x),
                    None => return None,
                }
            }
            let mut out: Vec<JsonValue> = Vec::new();
            while rev.len() > 0
                decreases rev.len(),
            {
                out.push(rev.pop().unwrap());
            }
            Some(JsonValue::Array(out))
        },
        Layer::Object(mut members) => {
            if depth == 0 {
                return None;
            }
            let mut rev: Vec<(String, JsonValue)> = Vec::new();
            while members.len() > 0
                decreases members.len(),
            {
                let (k, item) = members.pop().unwrap();
                match from_serde(item, depth - 1) {
                    Some(x) => rev.push((k, x)),
                    None => return None,
                }
            }
            let mut out: Vec<(String, JsonValue)> = Vec::new();
            while rev.len() > 0
                decreases rev.len(),
            {
                out.push(rev.pop().unwrap());
            }
            Some(JsonValue::Object(out))
        },
    }
}

/// The serde_json value for one of the library's; none when a number's text is
/// no JSON number.
#[verifier::loop_isolation(false)]
fn to_serde(v: &JsonValue) -> (r: Option<serde_json::Value>)
    ensures
        r is Some <==> numbers_ok(v@),
    decreases v, 0nat,
{
    match v {
        JsonValue::Null => Some(serde_null()),
        JsonValue::Bool(b) => Some(serde_bool(*b)),
        JsonValue::Number(JsonNumber::PosInt(u)) => Some(serde_unsigned(*u)),
        JsonValue::Number(JsonNumber::NegInt(i)) => Some(serde_signed(*i)),
        JsonValue::Number(JsonNumber::Float(t)) => serde_number_text(t.as_str()),
        JsonValue::String(s) => Some(serde_string(s.clone())),
        JsonValue::Array(items) => {
            let ghost s = view_items(items@);
            let mut out: Vec<serde_json::Value> = Vec::new();
            let mut ok = true;
            let mut i: usize = 0;
            while i < items.len()
                invariant
                    i <= items.len(),
                    s.len() == items.len(),
                    ok == items_ok(s, i as nat),
                decreases items.len() - i,
            {
                assert(decreases_to!(items@ => items@[i as int]));
                match to_serde(&items[i]) {
                    Some(x) => out.push(x),
                    None => ok = false,
                }
                i += 1;
            }
            if ok {
                Some(serde_array(out))
            } else {
                None
            }
        },
        JsonValue::Object(members) => {
            let ghost m = view_members(members@);
            let mut out: Vec<(String, serde_json::Value)> = Vec::new();
            let mut ok = true;
            let mut i: usize = 0;
            while i < members.len()
                invariant
                    i <= members.len(),
                    m.len() == members.len(),
                    ok == members_ok(m, i as nat),
                decreases members.len() - i,
            {
                assert(decreases_to!(members@ => members@[i as int]));
                assert(decreases_to!(members@[i as int] => members@[i as int].1));
                match to_serde(&members[i].1) {
                    Some(x) => out.push((members[i].0.clone(), x)),
                    None => ok = false,
                }
                i += 1;
            }
            if ok {
                Some(serde_object(out))
            } else {
                None
            }
        },
    }
}

/// Decodes JSON text into the library's value; the error carries serde_json's message.
pub fn decode_json(text: &str) -> (r: Result<JsonValue, String>)
    ensures
        json_error(text@) is Some ==> decoded_view(r) == Err::<Json, Seq<char>>(json_error(text@)->0),
        r matches Err(m) ==> json_error(text@) == Some(m@) || (json_error(text@) is None && m@
            == TOO_DEEP@),
{
    match decode_text(text) {
        Ok(v) => match from_serde(v, MAX_DEPTH) {
            Some(j) => Ok(j),
            None => Err(String::from_str(TOO_DEEP)),
        },
        Err(m) => Err(m),
    }
}

/// What parsing gives for a decoding outcome: the decoder's message as the single
/// error, or the validation of the decoded value.
pub open spec fn parse_outcome(decoded: Result<Json, Seq<char>>, strict: bool) -> (
    bool,
    Option<Json>,
    Seq<Seq<char>>,
) {
    match decoded {
        Err(m) => (false, None, seq![error_text("root"@, "invalid JSON ("@ + m + ")"@)]),
        Ok(v) => if validation_errors(v, strict).len() == 0 {
            (true, Some(v), seq![])
        } else {
            (false, None, validation_errors(v, strict))
        },
    }
}

pub open spec fn parse_view(r: ParseValidationResult) -> (bool, Option<Json>, Seq<Seq<char>>) {
    (
        r.ok,
        match r.value {
            Some(v) => Some(v@),
            None => None,
        },
        texts(r.errors@),
    )
}

pub open spec fn decoded_view(d: Result<JsonValue, String>) -> Result<Json, Seq<char>> {
    match d {
        Ok(v) => Ok(v@),
        Err(m) => Err(m@),
    }
}

/// Validates the outcome of decoding a document's text.
pub fn parse_decoded(decoded: Result<JsonValue, String>, strict: bool) -> (r:
    ParseValidationResult)
    ensures
        parse_view(r) == parse_outcome(decoded_view(decoded), strict),
{
    match decoded {
        Err(m) => {
            let message = join("invalid JSON (", m.as_str()).concat(")");
            let mut errors: Vec<String> = Vec::new();
            assert(texts(errors@) =~= seq![]);
            push_error(&mut errors, "root", message.as_str());
            assert(texts(errors@) =~= seq![error_text("root"@, "invalid JSON ("@ + m@ + ")"@)]);
            ParseValidationResult { ok: false, value: None, errors }
        },
        Ok(v) => {
            let result = validate_uec(&v, strict);
            if result.ok {
                let errors: Vec<String> = Vec::new();
                assert(texts(errors@) =~= seq![]);
                ParseValidationResult { ok: true, value: Some(v), errors }
            } else {
                ParseValidationResult { ok: false, value: None, errors: result.errors }
            }
        },
    }
}

/// Decodes `input` as JSON and validates it. Text that serde_json refuses gives its
/// message as the single error; text that decodes gives the validation of the
/// decoded value.
pub fn parse_uec(input: &str, strict: bool) -> (r: ParseValidationResult)
    ensures
        json_error(input@) is Some ==> parse_view(r) == parse_outcome(
            Err::<Json, Seq<char>>(json_error(input@)->0),
            strict,
        ),
        json_error(input@) is None ==> exists|d: Result<Json, Seq<char>>|
            (d is Ok || d == Err::<Json, Seq<char>>(TOO_DEEP@)) && parse_view(r) == parse_outcome(
                d,
                strict,
            ),
{
    let decoded = decode_json(input);
    let ghost d = decoded_view(decoded);
    parse_decoded(decoded, strict)
}

/// Normalizes `card` and encodes it as JSON text; fails only when a number's text
/// is no JSON number.
pub fn stringify_uec(card: &JsonValue, pretty: bool) -> (r: Result<String, String>)
    ensures
        r is Ok <==> numbers_ok(normalized_doc(card@)),
        r matches Err(m) ==> m@ == BAD_NUMBER@,
{
    let normalized = normalize_uec(card);
    let v = match to_serde(&normalized) {
        Some(v) => v,
        None => return Err(String::from_str(BAD_NUMBER)),
    };
    let encoded = if pretty {
        encode_pretty(&v)
    } else {
        encode_compact(&v)
    };
    match encoded {
        Ok(s) => Ok(s),
        Err(_) => Err(String::from_str(BAD_NUMBER)),
    }
}

} // verus!
