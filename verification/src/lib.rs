//! A minimal persistent key-value store core.
//!
//! A [`Document`] is an in-memory mapping from string keys to JSON values,
//! and a [`Toiletdb`] pairs a document with the path of the file that backs
//! it. Every mutation updates the document and hands back the full encoded
//! text that the caller must place on disk with an atomic replace; the text
//! is checked to decode back to the document before it is handed out, so
//! reopening a path from it yields the same document.

mod codec;
mod doc;
mod store;

pub use codec::{decode_doc, encode_doc, json_of, parsed_doc};
pub use doc::{doc_map, has_key, unique_keys, Document};
pub use store::{disk_chars, lemma_reopen_of_persisted, opened_doc, StoreError, Toiletdb};
