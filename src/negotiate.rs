//! The read path's content negotiation: a stored value that parses as a JSON
//! object or array is answered as JSON, anything else as the raw text.

use crate::kv_store::{lookup, KeyValueStore};
use vstd::prelude::*;

verus! {

/// What a read answers.
pub enum Reply {
    /// No such context, or no such key in it.
    NotFound,
    /// The stored text as it is, served as plain text.
    Text(String),
    /// A JSON object or array, re-encoded, served as JSON.
    Json(String),
}

/// The kind of a JSON value at the top level of a text.
#[derive(Clone, Copy, Debug, PartialEq, Eq, Structural)]
pub enum JsonKind {
    Null,
    Bool,
    Number,
    Str,
    Array,
    Object,
}

/// The kind of the JSON value that a text parses as; `None` where it does
/// not parse.
pub uninterp spec fn json_kind_of(text: Seq<char>) -> Option<JsonKind>;

/// The compact encoding of the JSON value that a text parses as.
pub uninterp spec fn json_compact_of(text: Seq<char>) -> Seq<char>;

/// Relies on `serde_json::from_str` into a `serde_json::Value`: `None` on a
/// parse error, else the value's kind, one per variant, and its compact
/// encoding by the value's `Display`.
#[verifier::external_body]
fn parse_json(text: &str) -> (r: Option<(JsonKind, String)>)
    ensures
        match r {
            None => json_kind_of(text@) is None,
            Some((k, e)) => json_kind_of(text@) == Some(k) && e@ == json_compact_of(text@),
        },
{
    let v = serde_json::from_str::<serde_json::Value>(text).ok()?;
    let kind = match &v {
        serde_json::Value::Null => JsonKind::Null,
        serde_json::Value::Bool(_) => JsonKind::Bool,
        serde_json::Value::Number(_) => JsonKind::Number,
        serde_json::Value::String(_) => JsonKind::Str,
        serde_json::Value::Array(_) => JsonKind::Array,
        serde_json::Value::Object(_) => JsonKind::Object,
    };
    Some((kind, v.to_string()))
}

/// A JSON reading that is served as JSON: an object or an array. Scalars
/// are deliberately not.
pub open spec fn is_structured(kind: Option<JsonKind>) -> bool {
    kind == Some(JsonKind::Object) || kind == Some(JsonKind::Array)
}

/// `r` answers the stored text `raw`, whose JSON reading has kind `kind` and
/// compact encoding `compact`: that encoding as JSON for an object or an
/// array, else the raw text unchanged as plain text.
pub open spec fn answers(
    r: Reply,
    raw: Seq<char>,
    kind: Option<JsonKind>,
    compact: Seq<char>,
) -> bool {
    if is_structured(kind) {
        match r {
            Reply::Json(j) => j@ == compact,
            _ => false,
        }
    } else {
        match r {
            Reply::Text(x) => x@ == raw,
            _ => false,
        }
    }
}

/// Picks the representation of a stored text from its JSON reading (kind
/// and compact encoding, `None` where it is not JSON): an object or an array
/// is served re-encoded as JSON, a scalar or a non-JSON text raw.
pub fn negotiate(raw: String, parsed: Option<(JsonKind, String)>) -> (r: Reply)
    ensures
        match parsed {
            Some((k, e)) => answers(r, raw@, Some(k), e@),
            None => answers(r, raw@, None, Seq::empty()),
        },
{
    match parsed {
        Some((JsonKind::Object, e)) => Reply::Json(e),
        Some((JsonKind::Array, e)) => Reply::Json(e),
        _ => Reply::Text(raw),
    }
}

/// The answer for a stored text.
pub fn respond(raw: String) -> (r: Reply)
    ensures
        answers(r, raw@, json_kind_of(raw@), json_compact_of(raw@)),
{
    let parsed = parse_json(raw.as_str());
    negotiate(raw, parsed)
}

/// Reads `key` in `context` and answers it: not found, or the stored value
/// in its negotiated representation.
pub fn read_kv(store: &KeyValueStore, context: &str, key: &str) -> (r: Reply)
    requires
        store.wf(),
    ensures
        match lookup(store@, context@, key@) {
            None => r is NotFound,
            Some(v) => answers(r, v, json_kind_of(v), json_compact_of(v)),
        },
{
    match store.get(context, key) {
        None => Reply::NotFound,
        Some(v) => respond(v),
    }
}

impl Reply {
    /// The HTTP status: 404 when nothing was found, else 200.
    pub fn status(&self) -> (r: u16)
        ensures
            r == (if self is NotFound { 404u16 } else { 200u16 }),
    {
        match self {
            Reply::NotFound => 404,
            _ => 200,
        }
    }

    /// The content type of the answer.
    pub fn content_type(&self) -> (r: &'static str)
        ensures
            r@ == (if self is Json { "application/json"@ } else { "text/plain; charset=utf-8"@ }),
    {
        match self {
            Reply::Json(_) => "application/json",
            _ => "text/plain; charset=utf-8",
        }
    }

    /// The body of the answer.
    pub fn body(self) -> (r: String)
        ensures
            match self {
                Reply::NotFound => r@ == "Key not found"@,
                Reply::Text(t) => r@ == t@,
                Reply::Json(j) => r@ == j@,
            },
    {
        match self {
            Reply::NotFound => String::from_str("Key not found"),
            Reply::Text(t) => t,
            Reply::Json(j) => j,
        }
    }
}

} // verus!
