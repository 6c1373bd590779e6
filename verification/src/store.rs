//! The store: a document paired with the path of its backing file.
//!
//! The store owns the document; the caller owns the file. Construction
//! decodes the file's current text (handed in by the caller) or starts
//! empty; every mutation updates the document and returns the full encoded
//! text, which the caller must place at the path with an atomic replace.
//! A mutation hands the text out only after the encoder has checked that
//! it decodes back to the document, so reopening a path from text that a
//! mutation returned yields exactly the document that was in memory when
//! that text was produced.

use crate::codec::{decode_doc, encode_doc, json_of, parsed_doc};
use crate::doc::Document;
use vstd::prelude::*;

verus! {

/// Why a store could not be produced or updated.
#[derive(Debug, PartialEq, Eq, Structural)]
pub enum StoreError {
    /// The backing file's existing content is not a JSON object. Opening
    /// over such a file is refused rather than silently discarding data.
    Decode,
    /// The document's encoded text would not decode back to the document —
    /// it holds a value nested deeper than the parser accepts. The text is
    /// withheld rather than persisted as unreadable state.
    Encode,
}

/// The character content of the backing file: `None` when the file does not
/// exist, otherwise its text.
pub open spec fn disk_chars(d: Option<String>) -> Option<Seq<char>> {
    match d {
        Option::None => Option::None,
        Option::Some(s) => Option::Some(s@),
    }
}

/// The document a store opened over the given file content holds: an empty
/// document for an absent or empty file, the parsed document otherwise, and
/// nothing at all when parsing fails.
pub open spec fn opened_doc(disk: Option<Seq<char>>) -> Option<
    Map<Seq<char>, serde_json::Value>,
> {
    match disk {
        Option::None => Option::Some(Map::empty()),
        Option::Some(s) => if s.len() == 0 {
            Option::Some(Map::empty())
        } else {
            parsed_doc(s)
        },
    }
}

/// A key-value store kept consistent with a single file: the whole document
/// is re-encoded on every mutation, and the caller replaces the file
/// atomically with the returned text.
pub struct Toiletdb {
    path: String,
    state: Document,
}

impl View for Toiletdb {
    type V = Map<Seq<char>, serde_json::Value>;

    closed spec fn view(&self) -> Self::V {
        self.state@
    }
}

impl Toiletdb {
    /// The document representation keeps one entry per key.
    pub closed spec fn wf(&self) -> bool {
        self.state.wf()
    }

    /// The path of the backing file.
    pub closed spec fn path_chars(&self) -> Seq<char> {
        self.path@
    }

    /// Open a store over the given path, from the file content the caller
    /// read there: `None` when the file does not exist. An absent or empty
    /// file yields an empty document; anything else must parse as a JSON
    /// object, and a file that does not is a fatal decode error.
    pub fn new(path: String, disk: Option<String>) -> (r: Result<Toiletdb, StoreError>)
        ensures
            match r {
                Result::Ok(db) => {
                    &&& db.wf()
                    &&& db.path_chars() == path@
                    &&& Some(db@) == opened_doc(disk_chars(disk))
                },
                Result::Err(e) => {
                    &&& e == StoreError::Decode
                    &&& opened_doc(disk_chars(disk)) is None
                },
            },
    {
        match disk {
            Option::None => Ok(Toiletdb { path, state: Document::empty() }),
            Option::Some(s) => {
                if s.as_str().is_empty() {
                    Ok(Toiletdb { path, state: Document::empty() })
                } else {
                    match decode_doc(s.as_str()) {
                        Option::Some(d) => Ok(Toiletdb { path, state: d }),
                        Option::None => Err(StoreError::Decode),
                    }
                }
            },
        }
    }

    /// Set `key` to `value` in the document and return the full encoded
    /// text, which the caller must place at the path with an atomic
    /// replace. The document reflects the change whether or not the text
    /// could be produced or the caller then succeeds in persisting it; the
    /// error comes exactly when the new document's text would not decode
    /// back to it.
    pub fn write(&mut self, key: String, value: serde_json::Value) -> (r: Result<
        String,
        StoreError,
    >)
        requires
            old(self).wf(),
        ensures
            final(self).wf(),
            final(self).path_chars() == old(self).path_chars(),
            final(self)@ == old(self)@.insert(key@, value),
            match r {
                Result::Ok(out) => {
                    &&& out@ == json_of(final(self)@)
                    &&& out@.len() > 0
                    &&& parsed_doc(out@) == Some(final(self)@)
                },
                Result::Err(e) => {
                    &&& e == StoreError::Encode
                    &&& parsed_doc(json_of(final(self)@)) != Some(final(self)@)
                },
            },
    {
        self.state.insert(key, value);
        match encode_doc(&self.state) {
            Option::Some(out) => Ok(out),
            Option::None => Err(StoreError::Encode),
        }
    }

    /// The value stored under `key`, out of memory alone.
    pub fn read_key(&self, key: &String) -> (r: Option<&serde_json::Value>)
        requires
            self.wf(),
        ensures
            match r {
                Option::Some(v) => self@.dom().contains(key@) && *v == self@[key@],
                Option::None => !self@.dom().contains(key@),
            },
    {
        self.state.get(key)
    }

    /// Remove `key` from the document and return the full encoded text,
    /// which the caller must place at the path with an atomic replace.
    /// Removing an absent key is a no-op, not an error: the document is
    /// unchanged. The error comes exactly when the new document's text
    /// would not decode back to it.
    pub fn delete(&mut self, key: &String) -> (r: Result<String, StoreError>)
        requires
            old(self).wf(),
        ensures
            final(self).wf(),
            final(self).path_chars() == old(self).path_chars(),
            final(self)@ == old(self)@.remove(key@),
            !old(self)@.dom().contains(key@) ==> final(self)@ == old(self)@,
            match r {
                Result::Ok(out) => {
                    &&& out@ == json_of(final(self)@)
                    &&& out@.len() > 0
                    &&& parsed_doc(out@) == Some(final(self)@)
                },
                Result::Err(e) => {
                    &&& e == StoreError::Encode
                    &&& parsed_doc(json_of(final(self)@)) != Some(final(self)@)
                },
            },
    {
        proof {
            if !old(self)@.dom().contains(key@) {
                assert(old(self)@.remove(key@) =~= old(self)@);
            }
        }
        self.state.remove(key);
        match encode_doc(&self.state) {
            Option::Some(out) => Ok(out),
            Option::None => Err(StoreError::Encode),
        }
    }

    /// Clear the document. The caller must then remove the backing file;
    /// the store stays usable and behaves as if freshly opened over a path
    /// with no file.
    pub fn flush(&mut self)
        ensures
            final(self).wf(),
            final(self).path_chars() == old(self).path_chars(),
            final(self)@ == Map::<Seq<char>, serde_json::Value>::empty(),
    {
        self.state = Document::empty();
    }

    /// The path of the backing file, as handed to `new`.
    pub fn path(&self) -> (r: &String)
        ensures
            r@ == self.path_chars(),
    {
        &self.path
    }
}

/// Reopening a path whose file holds exactly the text that a mutation
/// returned yields the document that was in memory when the text was
/// produced: persisted state survives a restart.
pub proof fn lemma_reopen_of_persisted(s: Seq<char>, m: Map<Seq<char>, serde_json::Value>)
    requires
        s.len() > 0,
        parsed_doc(s) == Some(m),
    ensures
        opened_doc(Some(s)) == Some(m),
{
}

} // verus!
