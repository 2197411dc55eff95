//! What the library reads from a JSON text: whether it is a JSON object and,
//! if so, what one of its fields holds. The parsing is `serde_json`'s.

use vstd::prelude::*;

verus! {

/// A field of a JSON object.
#[derive(Debug, Clone)]
pub enum JsonField {
    /// The object has no such field.
    Absent,
    /// The field holds a JSON string.
    Text(String),
    /// The field holds a value that is not a string.
    NonText,
}

/// A JSON text, as far as the library reads it.
#[derive(Debug, Clone)]
pub enum JsonDocument {
    /// The text is not JSON; the parser's description of the fault.
    Malformed(String),
    /// The text is JSON but not an object.
    NotAnObject,
    /// The text is a JSON object; the field that was asked for.
    Object(JsonField),
}

pub enum JsonFieldView {
    Absent,
    Text(Seq<char>),
    NonText,
}

pub enum JsonDocumentView {
    Malformed(Seq<char>),
    NotAnObject,
    Object(JsonFieldView),
}

impl View for JsonField {
    type V = JsonFieldView;

    open spec fn view(&self) -> JsonFieldView {
        match self {
            JsonField::Absent => JsonFieldView::Absent,
            JsonField::Text(s) => JsonFieldView::Text(s@),
            JsonField::NonText => JsonFieldView::NonText,
        }
    }
}

impl View for JsonDocument {
    type V = JsonDocumentView;

    open spec fn view(&self) -> JsonDocumentView {
        match self {
            JsonDocument::Malformed(e) => JsonDocumentView::Malformed(e@),
            JsonDocument::NotAnObject => JsonDocumentView::NotAnObject,
            JsonDocument::Object(f) => JsonDocumentView::Object(f@),
        }
    }
}

/// What `serde_json::from_str::<serde_json::Value>` makes of `text`, with the
/// field `key` looked up when the value is an object.
pub uninterp spec fn json_document(text: Seq<char>, key: Seq<char>) -> JsonDocumentView;

/// Parses `text` with `serde_json::from_str` into a `serde_json::Value` and
/// reports whether it is an object and what its field `key` holds; on a parse
/// error, the error's `Display` text. The contract only names the result:
/// JSON syntax is `serde_json`'s.
#[verifier::external_body]
pub(crate) fn inspect_json(text: &str, key: &str) -> (d: JsonDocument)
    ensures
        d@ == json_document(text@, key@),
{
    match serde_json::from_str::<serde_json::Value>(text) {
        Err(e) => JsonDocument::Malformed(e.to_string()),
        Ok(serde_json::Value::Object(map)) => JsonDocument::Object(
            match map.get(key) {
                None => JsonField::Absent,
                Some(serde_json::Value::String(s)) => JsonField::Text(s.clone()),
                Some(_) => JsonField::NonText,
            },
        ),
        Ok(_) => JsonDocument::NotAnObject,
    }
}

} // verus!
