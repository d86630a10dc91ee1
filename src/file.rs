//! Storing a directory's files and reading them back by path.

use vstd::prelude::*;
use rustc_serialize::json::Json;
use crate::blob::{Blob, get_model};
use crate::error::StorageError;
use crate::manifest::{EntryView, entries_view, file_list_to_json, manifest_json};
use crate::storage::{SourceFile, Storage, files_view, ingest_outcome, manifest_of};

verus! {

/// The blob stored at `path`: `Ok(None)` when nothing is stored there, and
/// an error when the backend could not be read.
pub fn get_path(storage: &mut Storage, path: &str) -> (r: Result<Option<Blob>, StorageError>)
    requires
        old(storage).wf(),
    ensures
        final(storage).wf(),
        match (*old(storage), *final(storage)) {
            (Storage::ObjectStore(s0), Storage::ObjectStore(s1)) => s1 == s0 && match r {
                Ok(Some(b)) => get_model(s0@, path@) == Some(b@),
                Ok(None) => get_model(s0@, path@) is None,
                Err(_) => false,
            },
            (Storage::Database(d0), Storage::Database(d1)) => {
                &&& d1.writes() == d0.writes()
                &&& r matches Ok(Some(b)) ==> b.path@ == path@
                &&& r matches Err(e) ==> e is Database
            },
            _ => false,
        },
{
    storage.get(path)
}

/// Stores every file of `files` (in the order found) under `prefix` through
/// the active backend, and returns the manifest `[[mime, relative path], ...]`
/// as JSON. The first failed write ends the call with its error.
pub fn add_path_into_database(
    storage: &mut Storage,
    prefix: &str,
    files: &Vec<SourceFile>,
    now: i64,
) -> (r: Result<Json, StorageError>)
    requires
        old(storage).wf(),
    ensures
        final(storage).wf(),
        r matches Ok(j) ==> j == manifest_json(manifest_of(files_view(files@))),
        files@.len() == 0 ==> (r matches Ok(j) && j == manifest_json(Seq::<EntryView>::empty())),
        ingest_outcome(
            *old(storage),
            *final(storage),
            prefix@,
            files_view(files@),
            now,
            match r {
                Ok(_) => None,
                Err(e) => Some(e),
            },
        ),
{
    match storage.store_all(prefix, files, now) {
        Ok(file_list) => {
            assert(files@.len() == 0 ==> entries_view(file_list@) =~= Seq::<EntryView>::empty());
            Ok(file_list_to_json(file_list))
        },
        Err(e) => Err(e),
    }
}

} // verus!
