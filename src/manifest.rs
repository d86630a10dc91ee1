//! The manifest of one ingestion: `(mime, relative path)` pairs in the order
//! the files were stored.

use vstd::prelude::*;
use rustc_serialize::json::{Json, ToJson};

verus! {

#[verifier::external_type_specification]
#[verifier::external_body]
pub struct ExJson(rustc_serialize::json::Json);

/// One manifest entry as plain values: `(mime, relative path)`.
pub type EntryView = (Seq<char>, Seq<char>);

/// The entries of a list of `(mime, relative path)` strings.
pub open spec fn entries_view(v: Seq<(String, String)>) -> Seq<EntryView> {
    v.map_values(|e: (String, String)| (e.0@, e.1@))
}

/// The JSON value that `rustc_serialize` builds for a manifest: an array
/// holding, for each entry in order, the array `[mime, relative path]`.
pub uninterp spec fn manifest_json(entries: Seq<EntryView>) -> Json;

/// Relies on `ToJson::to_json` of `rustc_serialize` for `Vec<Vec<String>>`:
/// the value depends on the strings alone.
#[verifier::external_body]
fn entries_to_json(entries: &Vec<(String, String)>) -> (r: Json)
    ensures
        r == manifest_json(entries_view(entries@)),
{
    let rows: Vec<Vec<String>> = entries.iter().map(|e| vec![e.0.clone(), e.1.clone()]).collect();
    rows.to_json()
}

/// Collects manifest entries; `finish` hands them out.
pub struct ManifestBuilder {
    entries: Vec<(String, String)>,
}

impl View for ManifestBuilder {
    type V = Seq<EntryView>;

    closed spec fn view(&self) -> Seq<EntryView> {
        entries_view(self.entries@)
    }
}

impl ManifestBuilder {
    /// A builder with no entries.
    pub fn new() -> (r: ManifestBuilder)
        ensures
            r@ == Seq::<EntryView>::empty(),
    {
        let r = ManifestBuilder { entries: Vec::new() };
        assert(r@ =~= Seq::<EntryView>::empty());
        r
    }

    /// Appends the entry `(mime, relative_path)`.
    pub fn add(&mut self, mime: String, relative_path: String)
        ensures
            final(self)@ == old(self)@.push((mime@, relative_path@)),
    {
        self.entries.push((mime, relative_path));
        assert(self@ =~= old(self)@.push((mime@, relative_path@)));
    }

    /// The entries, in the order they were added.
    pub fn finish(self) -> (r: Vec<(String, String)>)
        ensures
            entries_view(r@) == self@,
    {
        self.entries
    }
}

/// The manifest as JSON: `[[mime, relative path], ...]` in the order given.
pub fn file_list_to_json(file_list: Vec<(String, String)>) -> (r: Json)
    ensures
        r == manifest_json(entries_view(file_list@)),
{
    entries_to_json(&file_list)
}

} // verus!
