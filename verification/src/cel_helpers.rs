//! Values and texts around expressions.

use vstd::prelude::*;
use vstd::string::*;
use vstd::utf8::*;

#[allow(unused_imports)]
use crate::json::{serde_value, serialized, value_to_vec};
#[allow(unused_imports)]
use crate::text::{debug_quote, debug_quoted};

verus! {

/// The expression that a configured text stands for. A duration such as `2s` stands for a call of
/// `duration`, and anything else for itself.
pub fn de_duration_or_expression(raw: String, is_duration: bool) -> (r: String)
    ensures
        r@ == if is_duration {
            "duration("@ + debug_quoted(raw@) + ")"@
        } else {
            raw@
        },
        r@ == expression_of(raw@, is_duration),
{
    if is_duration {
        let mut text = "duration(".to_owned();
        let quoted = debug_quote(raw.as_str());
        text.append(quoted.as_str());
        text.append(")");
        text
    } else {
        raw
    }
}

/// The value of an expression, as far as its bytes go.
#[derive(Debug)]
pub enum ExpressionValue {
    Text(String),
    Bytes(Vec<u8>),
    /// Another value, as a document.
    Document(serde_json::Value),
    /// Another value that is no document, with the reason.
    NoDocument(String),
}

/// The bytes of a value: those of a text, those that the value is, or those of its document.
pub fn value_as_byte_or_json(v: ExpressionValue) -> (r: Result<Vec<u8>, String>)
    ensures
        match v {
            ExpressionValue::Text(s) => r matches Ok(bytes) && bytes@ == encode_utf8(s@),
            ExpressionValue::Bytes(b) => r == Ok::<Vec<u8>, String>(b),
            ExpressionValue::Document(j) => r matches Ok(bytes) && bytes@ == serialized(
                serde_value(j),
            ),
            ExpressionValue::NoDocument(e) => r == Err::<Vec<u8>, String>(e),
        },
{
    match v {
        ExpressionValue::Text(s) => Ok(s.as_str().as_bytes_vec()),
        ExpressionValue::Bytes(b) => Ok(b),
        ExpressionValue::Document(j) => Ok(value_to_vec(&j)),
        ExpressionValue::NoDocument(e) => Err(e),
    }
}

/// The expression that a configured text stands for.
pub open spec fn expression_of(raw: Seq<char>, is_duration: bool) -> Seq<char> {
    if is_duration {
        "duration("@ + debug_quoted(raw) + ")"@
    } else {
        raw
    }
}

/// What is no duration stands for itself; a duration stands for a call that holds it as a whole,
/// in quotes.
pub proof fn law_durations_become_calls(raw: Seq<char>)
    ensures
        expression_of(raw, false) == raw,
        crate::text::starts_with(expression_of(raw, true), "duration("@),
        crate::text::ends_with(expression_of(raw, true), ")"@),
        crate::text::contains_text(expression_of(raw, true), debug_quoted(raw)),
{
    crate::text::law_parts_are_found("duration("@, debug_quoted(raw), ")"@);
}

} // verus!
