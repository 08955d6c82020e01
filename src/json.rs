//! Structured values, and the one place where completion text is decoded.
use vstd::prelude::*;

verus! {

/// A structured value as serde_json holds it; the loop carries it through unread.
#[verifier::external_type_specification]
#[verifier::external_body]
pub struct ExValue(serde_json::Value);

/// The value of a top-level field of a decoded object, with its text where
/// that value is a JSON string.
pub struct JsonField {
    pub text: Option<String>,
    pub value: serde_json::Value,
}

impl JsonField {
    /// The text of the field, if it is a JSON string.
    pub open spec fn text_view(self) -> Option<Seq<char>> {
        match self.text {
            Some(s) => Some(s@),
            None => None,
        }
    }
}

/// The top-level entries of `text` read as a JSON object, each key with the
/// text of its value where that value is a string; `None` where `text` is not
/// a JSON object.
pub uninterp spec fn json_object_entries(text: Seq<char>) -> Option<Seq<(Seq<char>, Option<Seq<char>>)>>;

/// The plain-value outline of decoded entries.
pub open spec fn entries_outline(fields: Seq<(String, JsonField)>) -> Seq<(Seq<char>, Option<Seq<char>>)> {
    fields.map_values(|e: (String, JsonField)| (e.0@, e.1.text_view()))
}

/// Relies on `serde_json::from_str` into a `serde_json::Map<String, Value>`:
/// it succeeds exactly on the text of a JSON object, and its result depends on
/// the text alone.
#[verifier::external_body]
pub(crate) fn decode_object(text: &str) -> (r: Option<Vec<(String, JsonField)>>)
    ensures
        r is Some <==> json_object_entries(text@) is Some,
        r is Some ==> entries_outline(r->0@) == json_object_entries(text@)->0,
{
    match serde_json::from_str::<serde_json::Map<String, serde_json::Value>>(text) {
        Ok(m) => Some(m.into_iter().map(|(k, v)| {
            (k, JsonField { text: v.as_str().map(str::to_owned), value: v })
        }).collect()),
        Err(_) => None,
    }
}

/// Relies on `serde_json::Value`'s `Display`: the compact JSON text of a value.
#[verifier::external_body]
pub(crate) fn value_text(v: &serde_json::Value) -> (r: String) {
    v.to_string()
}

} // verus!
