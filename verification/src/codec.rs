//! The document serializer: the boundary to `serde_json`.
//!
//! A document is persisted as one pretty-printed JSON object. The text of a
//! document and the document a text parses to are named by the two
//! uninterpreted functions below. The parser refuses input nested deeper
//! than a fixed budget while the serializer has no such limit, so encoding
//! does not promise a round trip outright: the trusted encoder parses its
//! own output back and compares before handing the text out, and returns
//! nothing when the text would not decode to the same document.

use crate::doc::Document;
use vstd::prelude::*;

verus! {

/// A JSON value: a number, string, boolean, null, array or object. Values
/// are carried through the store unread.
#[verifier::external_type_specification]
#[verifier::external_body]
pub struct ExValue(serde_json::Value);

/// The JSON text that encodes a document. The encoder walks an ordered map,
/// so the text depends on the document alone.
pub uninterp spec fn json_of(m: Map<Seq<char>, serde_json::Value>) -> Seq<char>;

/// The document a text parses to: `None` unless the text is a JSON object
/// within the parser's nesting budget.
pub uninterp spec fn parsed_doc(s: Seq<char>) -> Option<Map<Seq<char>, serde_json::Value>>;

/// Relies on `serde_json::to_string_pretty` over a `serde_json::Map` built
/// from the document's entries (the map is ordered, so the text depends on
/// the document alone; serializing a map with string keys cannot fail; the
/// text of an object is never empty), and on `serde_json::from_str` and the
/// structural equality of `serde_json::Map` for the round-trip check: the
/// body parses the produced text back and compares, so `Some` is returned
/// exactly when the text decodes to this document — the parser's nesting
/// budget makes that fail for documents holding very deeply nested values.
#[verifier::external_body]
pub fn encode_doc(doc: &Document) -> (r: Option<String>)
    ensures
        match r {
            Some(text) => {
                &&& text@ == json_of(doc@)
                &&& text@.len() > 0
                &&& parsed_doc(text@) == Some(doc@)
            },
            None => parsed_doc(json_of(doc@)) != Some(doc@),
        },
{
    let mut m = serde_json::Map::new();
    for (k, v) in doc.entries.iter() {
        m.insert(k.clone(), v.clone());
    }
    let text = serde_json::to_string_pretty(&m).expect("object keys are strings");
    match serde_json::from_str::<serde_json::Value>(&text) {
        Ok(serde_json::Value::Object(back)) if back == m => Some(text),
        _ => None,
    }
}

/// Relies on `serde_json::from_str`: which document a text parses to, if
/// any, depends on the text alone; the keys of a parsed object are
/// distinct; and every failure, the nesting budget included, is an error
/// return, never a panic.
#[verifier::external_body]
pub fn decode_doc(s: &str) -> (r: Option<Document>)
    ensures
        match r {
            Some(d) => d.wf() && parsed_doc(s@) == Some(d@),
            None => parsed_doc(s@) is None,
        },
{
    match serde_json::from_str::<serde_json::Value>(s) {
        Ok(serde_json::Value::Object(m)) => Some(Document { entries: m.into_iter().collect() }),
        _ => None,
    }
}

} // verus!
