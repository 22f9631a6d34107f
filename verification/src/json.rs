//! Reading and writing the JSON documents exchanged with the speech and
//! language services. Parsing and string quoting are done by `serde_json`;
//! what a lookup yields is named here and the rest of the library works on
//! the plain values it hands back.
use vstd::prelude::*;

use crate::vault::{key_pointer, payload_json};

verus! {

/// What a JSON pointer designates in a document, reduced to the cases the
/// library tells apart.
#[derive(Clone, Debug, PartialEq, Eq)]
pub enum JsonField {
    /// The pointer designates nothing.
    Missing,
    /// `null`.
    Null,
    /// A string.
    Text(String),
    /// A boolean.
    Flag(bool),
    /// A number, array or object.
    Other,
}

/// The view of a [`JsonField`]: strings become character sequences.
pub enum JsonFieldView {
    Missing,
    Null,
    Text(Seq<char>),
    Flag(bool),
    Other,
}

impl View for JsonField {
    type V = JsonFieldView;

    open spec fn view(&self) -> JsonFieldView {
        match self {
            JsonField::Missing => JsonFieldView::Missing,
            JsonField::Null => JsonFieldView::Null,
            JsonField::Text(s) => JsonFieldView::Text(s@),
            JsonField::Flag(b) => JsonFieldView::Flag(*b),
            JsonField::Other => JsonFieldView::Other,
        }
    }
}

/// The view of a lookup outcome: the field, or the parser's error message.
pub open spec fn lookup_view(r: Result<JsonField, String>) -> Result<JsonFieldView, Seq<char>> {
    match r {
        Ok(f) => Ok(f@),
        Err(e) => Err(e@),
    }
}

/// What `serde_json` finds at a JSON pointer (RFC 6901) of a document: the
/// document is parsed with `serde_json::from_str` into a `Value`, and on
/// success `Value::pointer` is applied; a syntax error yields the error's
/// message.
pub uninterp spec fn json_field_at(body: Seq<char>, pointer: Seq<char>) -> Result<JsonFieldView, Seq<char>>;

/// The length of the array at a JSON pointer, `None` when the pointer
/// designates nothing or something other than an array; a syntax error
/// yields the error's message.
pub uninterp spec fn json_array_len_at(body: Seq<char>, pointer: Seq<char>) -> Result<Option<nat>, Seq<char>>;

/// `serde_json::to_string` of a string: the string as a JSON string literal,
/// quotes and escapes included.
pub uninterp spec fn json_quoted(s: Seq<char>) -> Seq<char>;

/// Parse `body` with `serde_json::from_str::<serde_json::Value>` and read
/// what `Value::pointer_mut(pointer)` designates (taken out of the parsed
/// document). The contract names the result. It also states what reading
/// gives on a vault payload document, an object whose members are written
/// with `serde_json::to_string` of each string: `/api_keys/<i>` is the i-th
/// written string and `/llm_key` the last one, as serde_json parses a string
/// literal it wrote back to the same string.
#[verifier::external_body]
pub(crate) fn json_field(body: &str, pointer: &str) -> (r: Result<JsonField, String>)
    ensures
        lookup_view(r) == json_field_at(body@, pointer@),
        (forall|ks: Seq<Seq<char>>, l: Seq<char>, i: nat|
            #![trigger payload_json(ks, l), key_pointer(i)]
            body@ == payload_json(ks, l) && pointer@ == key_pointer(i) && i < ks.len() ==> lookup_view(r)
                == Ok::<JsonFieldView, Seq<char>>(JsonFieldView::Text(ks[i as int]))),
        (forall|ks: Seq<Seq<char>>, l: Seq<char>|
            #![trigger payload_json(ks, l)]
            body@ == payload_json(ks, l) && pointer@ == "/llm_key"@ ==> lookup_view(r) == Ok::<
                JsonFieldView,
                Seq<char>,
            >(JsonFieldView::Text(l))),
{
    let mut v: serde_json::Value = match serde_json::from_str(body) {
        Ok(v) => v,
        Err(e) => return Err(e.to_string()),
    };
    Ok(match v.pointer_mut(pointer).map(serde_json::Value::take) {
        None => JsonField::Missing,
        Some(serde_json::Value::Null) => JsonField::Null,
        Some(serde_json::Value::String(s)) => JsonField::Text(s),
        Some(serde_json::Value::Bool(b)) => JsonField::Flag(b),
        Some(_) => JsonField::Other,
    })
}

/// The length an array lookup found, seen as a natural number.
pub open spec fn array_len_view(r: Result<Option<usize>, String>) -> Option<nat> {
    match r {
        Ok(Some(n)) => Some(n as nat),
        _ => None,
    }
}

/// Parse `body` with `serde_json::from_str::<serde_json::Value>` and read the
/// length of the array that `Value::pointer(pointer)` designates. The
/// contract names the result; on a vault payload document `/api_keys` is the
/// array of the written strings.
#[verifier::external_body]
pub(crate) fn json_array_len(body: &str, pointer: &str) -> (r: Result<Option<usize>, String>)
    ensures
        match r {
            Ok(Some(n)) => json_array_len_at(body@, pointer@) == Ok::<Option<nat>, Seq<char>>(
                Some(n as nat),
            ),
            Ok(None) => json_array_len_at(body@, pointer@) == Ok::<Option<nat>, Seq<char>>(None),
            Err(e) => json_array_len_at(body@, pointer@) == Err::<Option<nat>, Seq<char>>(e@),
        },
        (forall|ks: Seq<Seq<char>>, l: Seq<char>|
            #![trigger payload_json(ks, l)]
            body@ == payload_json(ks, l) && pointer@ == "/api_keys"@ ==> array_len_view(r) == Some(ks.len())),
{
    let v: serde_json::Value = match serde_json::from_str(body) {
        Ok(v) => v,
        Err(e) => return Err(e.to_string()),
    };
    Ok(match v.pointer(pointer) {
        Some(serde_json::Value::Array(items)) => Some(items.len()),
        _ => None,
    })
}

/// `serde_json::to_string` on a string slice: a JSON string literal. Writing
/// a string cannot fail, so the error branch is unreachable in practice; the
/// contract names the result and bounds its length: two quotes around each
/// character written as itself or escaped in at most six characters
/// (`\u00XX`).
#[verifier::external_body]
pub(crate) fn json_quote(s: &str) -> (r: String)
    ensures
        r@ == json_quoted(s@),
        s@.len() + 2 <= r@.len() <= 6 * s@.len() + 2,
{
    match serde_json::to_string(s) {
        Ok(q) => q,
        Err(_) => String::new(),
    }
}

} // verus!
