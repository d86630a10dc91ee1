//! The stored object and its mathematical model.

use vstd::prelude::*;

verus! {

/// A stored file: its path key, content type, time of the last write
/// (seconds since the Unix epoch) and bytes.
pub struct Blob {
    pub path: String,
    pub mime: String,
    pub date_updated: i64,
    pub content: Vec<u8>,
}

/// What a `Blob` holds, as plain mathematical values.
pub struct BlobView {
    pub path: Seq<char>,
    pub mime: Seq<char>,
    pub date_updated: i64,
    pub content: Seq<u8>,
}

impl View for Blob {
    type V = BlobView;

    open spec fn view(&self) -> BlobView {
        BlobView {
            path: self.path@,
            mime: self.mime@,
            date_updated: self.date_updated,
            content: self.content@,
        }
    }
}

/// The contents of a backend: each stored path mapped to its blob.
pub type StoreModel = Map<Seq<char>, BlobView>;

/// A backend after `put(b)`: the blob at `b.path` is replaced wholesale.
pub open spec fn put_model(m: StoreModel, b: BlobView) -> StoreModel {
    m.insert(b.path, b)
}

/// What `get(p)` finds in a backend: the blob stored at `p`, or absence.
pub open spec fn get_model(m: StoreModel, p: Seq<char>) -> Option<BlobView> {
    if m.contains_key(p) {
        Some(m[p])
    } else {
        None
    }
}

/// After a blob is put at its path, getting that path gives the blob back,
/// with the same content and content type.
pub proof fn lemma_get_after_put(m: StoreModel, b: BlobView)
    ensures
        get_model(put_model(m, b), b.path) == Some(b),
{
}

/// Putting the same blob twice leaves the backend as putting it once: one
/// entry at its path, which reads back as the blob.
pub proof fn lemma_put_twice(m: StoreModel, b: BlobView)
    ensures
        put_model(put_model(m, b), b) == put_model(m, b),
        get_model(put_model(put_model(m, b), b), b.path) == Some(b),
{
    assert(put_model(put_model(m, b), b) =~= put_model(m, b));
}

impl Blob {
    /// A blob from its parts.
    pub fn new(path: String, mime: String, date_updated: i64, content: Vec<u8>) -> (r: Blob)
        ensures
            r.path@ == path@,
            r.mime@ == mime@,
            r.date_updated == date_updated,
            r.content@ == content@,
    {
        Blob { path, mime, date_updated, content }
    }

    /// A field-by-field copy.
    pub fn duplicate(&self) -> (r: Blob)
        ensures
            r@ == self@,
    {
        Blob {
            path: self.path.clone(),
            mime: self.mime.clone(),
            date_updated: self.date_updated,
            content: self.content.clone(),
        }
    }
}

} // verus!
