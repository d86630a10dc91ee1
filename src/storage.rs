//! The backend-agnostic facade and bulk ingestion of files through it.

use vstd::prelude::*;
use vstd::string::StringExecFns;
use crate::blob::{Blob, BlobView, StoreModel, put_model, get_model};
use crate::database::DatabaseBackend;
use crate::error::StorageError;
use crate::manifest::{EntryView, ManifestBuilder, entries_view};
use crate::mime::{classify, mime_of_path};
use crate::object_store::{ObjectStore, put_outcome};

verus! {

/// A file found under the ingestion root: its path relative to the root,
/// with `/` between components, and its bytes.
pub struct SourceFile {
    pub relative_path: String,
    pub content: Vec<u8>,
}

/// What a `SourceFile` holds, as plain values.
pub struct SourceFileView {
    pub relative_path: Seq<char>,
    pub content: Seq<u8>,
}

impl View for SourceFile {
    type V = SourceFileView;

    open spec fn view(&self) -> SourceFileView {
        SourceFileView { relative_path: self.relative_path@, content: self.content@ }
    }
}

/// The views of a list of files.
pub open spec fn files_view(files: Seq<SourceFile>) -> Seq<SourceFileView> {
    files.map_values(|f: SourceFile| f@)
}

/// The key of a file under `prefix`: the two joined by `/`, or the relative
/// path alone under an empty prefix.
pub open spec fn key_of(prefix: Seq<char>, relative_path: Seq<char>) -> Seq<char> {
    if prefix.len() == 0 {
        relative_path
    } else {
        prefix + "/"@ + relative_path
    }
}

/// The blob that ingesting `f` under `prefix` at time `now` writes.
pub open spec fn blob_of(prefix: Seq<char>, f: SourceFileView, now: i64) -> BlobView {
    BlobView {
        path: key_of(prefix, f.relative_path),
        mime: mime_of_path(f.relative_path, f.content),
        date_updated: now,
        content: f.content,
    }
}

/// The manifest entry of `f`: its content type and relative path.
pub open spec fn entry_of(f: SourceFileView) -> EntryView {
    (mime_of_path(f.relative_path, f.content), f.relative_path)
}

/// The manifest of `files`: one entry per file, in the same order.
pub open spec fn manifest_of(files: Seq<SourceFileView>) -> Seq<EntryView> {
    files.map_values(|f: SourceFileView| entry_of(f))
}

/// The contents of a backend that held `m`, after each of `files` was
/// written under `prefix`, in order.
pub open spec fn store_files(
    m: StoreModel,
    prefix: Seq<char>,
    files: Seq<SourceFileView>,
    now: i64,
) -> StoreModel
    decreases files.len(),
{
    if files.len() == 0 {
        m
    } else {
        put_model(store_files(m, prefix, files.drop_last(), now), blob_of(prefix, files.last(), now))
    }
}

/// What ingesting `files` under `prefix` does to a backend that was `s0`
/// and is now `s1`, where `failure` is the error returned, if any. In an
/// object store, success leaves every file written in order; a failure is a
/// full store at the first file that could not be written, with the files
/// before it kept. Only a bounded object store fails. A database is sent one
/// write per file, in order: the call succeeds exactly when each of them did,
/// and ends with the first one the database refused, after which nothing
/// more is sent.
pub open spec fn ingest_outcome(
    s0: Storage,
    s1: Storage,
    prefix: Seq<char>,
    files: Seq<SourceFileView>,
    now: i64,
    failure: Option<StorageError>,
) -> bool {
    match (s0, s1) {
        (Storage::ObjectStore(s0), Storage::ObjectStore(s1)) => {
            &&& s1.bound() == s0.bound()
            &&& failure is None ==> s1@ == store_files(s0@, prefix, files, now)
            &&& failure is Some ==> (failure matches Some(StorageError::ObjectStoreFull))
                && exists|k: int|
                0 <= k < files.len() && s1@ == store_files(s0@, prefix, files.take(k), now)
                    && !s1@.contains_key(key_of(prefix, files[k].relative_path)) && s1.bound()
                    == Some(s1.count() as usize)
            &&& s0.bound() is None ==> failure is None
        },
        (Storage::Database(d0), Storage::Database(d1)) => {
            &&& failure is None ==> d1.writes() == d0.writes() + sent_ok(prefix, files, now)
            &&& failure is Some ==> (failure matches Some(e) && e is Database) && exists|k: int|
                0 <= k < files.len() && d1.writes() == (d0.writes() + sent_ok(
                    prefix,
                    files.take(k),
                    now,
                )).push((blob_of(prefix, files[k], now), false))
        },
        _ => false,
    }
}

/// The write statements of an ingestion of `files` in which every write
/// succeeded: one per file, in order.
pub open spec fn sent_ok(prefix: Seq<char>, files: Seq<SourceFileView>, now: i64) -> Seq<
    (BlobView, bool),
> {
    files.map_values(|f: SourceFileView| (blob_of(prefix, f, now), true))
}

/// Which backend a `Storage` uses, with what it needs: a database
/// connection, or the bound of a fresh object store (`None`: unbounded).
pub enum StorageConfig {
    Database(postgres::Client),
    ObjectStore(Option<usize>),
}

/// The active backend, chosen once at construction.
pub enum Storage {
    Database(DatabaseBackend),
    ObjectStore(ObjectStore),
}

fn make_key(prefix: &str, relative_path: &str) -> (r: String)
    ensures
        r@ == key_of(prefix@, relative_path@),
{
    if prefix.is_empty() {
        relative_path.to_owned()
    } else {
        let mut k = prefix.to_owned();
        k.append("/");
        k.append(relative_path);
        k
    }
}

impl SourceFile {
    /// A file from its relative path and bytes.
    pub fn new(relative_path: String, content: Vec<u8>) -> (r: SourceFile)
        ensures
            r.relative_path@ == relative_path@,
            r.content@ == content@,
    {
        SourceFile { relative_path, content }
    }
}

impl Storage {
    pub open spec fn wf(&self) -> bool {
        match self {
            Storage::ObjectStore(s) => s.wf(),
            Storage::Database(_) => true,
        }
    }

    /// The backend that `config` selects; an object store starts empty.
    pub fn new(config: StorageConfig) -> (r: Storage)
        ensures
            r.wf(),
            match config {
                StorageConfig::Database(_) => r matches Storage::Database(d) && d.writes()
                    == Seq::<(BlobView, bool)>::empty(),
                StorageConfig::ObjectStore(limit) => r matches Storage::ObjectStore(s) && s@
                    == StoreModel::empty() && s.count() == 0 && s.bound() == limit,
            },
    {
        match config {
            StorageConfig::Database(client) => Storage::Database(DatabaseBackend::new(client)),
            StorageConfig::ObjectStore(Some(n)) => Storage::ObjectStore(ObjectStore::with_limit(n)),
            StorageConfig::ObjectStore(None) => Storage::ObjectStore(ObjectStore::new()),
        }
    }

    /// Writes `blob` under its path, replacing what was there.
    pub fn put(&mut self, blob: Blob) -> (r: Result<(), StorageError>)
        requires
            old(self).wf(),
        ensures
            final(self).wf(),
            match (*old(self), *final(self)) {
                (Storage::ObjectStore(s0), Storage::ObjectStore(s1)) => put_outcome(
                    s0,
                    s1,
                    blob@,
                    r,
                ),
                (Storage::Database(d0), Storage::Database(d1)) => {
                    &&& d1.writes() == d0.writes().push((blob@, r is Ok))
                    &&& r matches Err(e) ==> e is Database
                },
                _ => false,
            },
    {
        match self {
            Storage::ObjectStore(s) => s.put(blob),
            Storage::Database(d) => d.put(&blob),
        }
    }

    /// The blob stored at `path`; `Ok(None)` when there is none.
    pub fn get(&mut self, path: &str) -> (r: Result<Option<Blob>, StorageError>)
        requires
            old(self).wf(),
        ensures
            final(self).wf(),
            match (*old(self), *final(self)) {
                (Storage::ObjectStore(s0), Storage::ObjectStore(s1)) => s1 == s0 && match r {
                    Ok(Some(b)) => get_model(s0@, path@) == Some(b@),
                    Ok(None) => get_model(s0@, path@) is None,
                    Err(_) => false,
                },
                (Storage::Database(d0), Storage::Database(d1)) => {
                    &&& d1.writes() == d0.writes()
                    &&& r matches Ok(Some(b)) ==> b.path@ == path@
                    &&& r matches Err(e) ==> e is Database
                },
                _ => false,
            },
    {
        match self {
            Storage::ObjectStore(s) => Ok(s.get(path)),
            Storage::Database(d) => d.get(path),
        }
    }

    /// Whether a blob is stored at `path`.
    pub fn contains(&mut self, path: &str) -> (r: Result<bool, StorageError>)
        requires
            old(self).wf(),
        ensures
            final(self).wf(),
            match (*old(self), *final(self)) {
                (Storage::ObjectStore(s0), Storage::ObjectStore(s1)) => s1 == s0 && r == Ok::<
                    bool,
                    StorageError,
                >(s0@.contains_key(path@)),
                (Storage::Database(d0), Storage::Database(d1)) => d1.writes() == d0.writes() && (
                r matches Err(e) ==> e is Database),
                _ => false,
            },
    {
        match self {
            Storage::ObjectStore(s) => Ok(s.contains(path)),
            Storage::Database(d) => d.contains(path),
        }
    }

    /// Classifies `file`, writes it under `prefix` and, once the write
    /// succeeded, records it in `manifest`.
    pub fn store_file(
        &mut self,
        manifest: &mut ManifestBuilder,
        prefix: &str,
        file: &SourceFile,
        now: i64,
    ) -> (r: Result<(), StorageError>)
        requires
            old(self).wf(),
        ensures
            final(self).wf(),
            r is Ok ==> final(manifest)@ == old(manifest)@.push(entry_of(file@)),
            r is Err ==> final(manifest)@ == old(manifest)@,
            match (*old(self), *final(self)) {
                (Storage::ObjectStore(s0), Storage::ObjectStore(s1)) => put_outcome(
                    s0,
                    s1,
                    blob_of(prefix@, file@, now),
                    r,
                ),
                (Storage::Database(d0), Storage::Database(d1)) => {
                    &&& d1.writes() == d0.writes().push((blob_of(prefix@, file@, now), r is Ok))
                    &&& r matches Err(e) ==> e is Database
                },
                _ => false,
            },
    {
        let mime = classify(file.relative_path.as_str(), file.content.as_slice());
        let key = make_key(prefix, file.relative_path.as_str());
        let blob = Blob::new(key, mime.clone(), now, file.content.clone());
        match self.put(blob) {
            Ok(()) => {
                manifest.add(mime, file.relative_path.clone());
                Ok(())
            },
            Err(e) => Err(e),
        }
    }

    /// Writes every file of `files`, in order, under `prefix`, and returns
    /// the manifest. Ingestion is all or nothing: the first failed write
    /// ends it with that error and no manifest. Each write commits on its
    /// own, so the files before the failed one stay stored.
    pub fn store_all(&mut self, prefix: &str, files: &Vec<SourceFile>, now: i64) -> (r: Result<
        Vec<(String, String)>,
        StorageError,
    >)
        requires
            old(self).wf(),
        ensures
            final(self).wf(),
            r matches Ok(m) ==> entries_view(m@) == manifest_of(files_view(files@)),
            files@.len() == 0 ==> (r matches Ok(m) && m@.len() == 0),
            ingest_outcome(
                *old(self),
                *final(self),
                prefix@,
                files_view(files@),
                now,
                match r {
                    Ok(_) => None,
                    Err(e) => Some(e),
                },
            ),
    {
        let ghost fv = files_view(files@);
        let mut manifest = ManifestBuilder::new();
        let mut i: usize = 0;
        while i < files.len()
            invariant
                self.wf(),
                fv == files_view(files@),
                0 <= i <= files@.len(),
                manifest@ == manifest_of(fv.take(i as int)),
                match (*old(self), *self) {
                    (Storage::ObjectStore(s0), Storage::ObjectStore(s1)) => {
                        &&& s1.bound() == s0.bound()
                        &&& s1@ == store_files(s0@, prefix@, fv.take(i as int), now)
                    },
                    (Storage::Database(d0), Storage::Database(d1)) => d1.writes() == d0.writes()
                        + sent_ok(prefix@, fv.take(i as int), now),
                    _ => false,
                },
            decreases files.len() - i,
        {
            let ghost s_before = *self;
            let ghost m_before = manifest@;
            let res = self.store_file(&mut manifest, prefix, &files[i], now);
            assert(fv.take(i + 1).drop_last() =~= fv.take(i as int));
            assert(fv[i as int] == files@[i as int]@);
            match res {
                Ok(()) => {
                    assert(manifest@ =~= manifest_of(fv.take(i + 1)));
                },
                Err(e) => {
                    let ghost s_now = *self;
                    proof {
                        if let (Storage::ObjectStore(s0), Storage::ObjectStore(s1)) = (*old(self), s_now) {
                            let k = i as int;
                            assert(0 <= k < files@.len() && s1@ == store_files(
                                s0@,
                                prefix@,
                                fv.take(k),
                                now,
                            ) && !s1@.contains_key(key_of(prefix@, fv[k].relative_path)));
                        }
                    }
                    return Err(e);
                },
            }
            i = i + 1;
        }
        assert(fv.take(i as int) =~= fv);
        let out = manifest.finish();
        Ok(out)
    }
}

/// A path that no file of an ingestion is keyed to, and that was absent
/// before, reads back as absent afterwards.
pub proof fn lemma_unwritten_path_absent(
    m: StoreModel,
    prefix: Seq<char>,
    files: Seq<SourceFileView>,
    now: i64,
    p: Seq<char>,
)
    requires
        !m.contains_key(p),
        forall|i: int| 0 <= i < files.len() ==> key_of(prefix, #[trigger] files[i].relative_path) != p,
    ensures
        get_model(store_files(m, prefix, files, now), p) is None,
    decreases files.len(),
{
    if files.len() > 0 {
        let init = files.drop_last();
        assert forall|i: int| 0 <= i < init.len() implies key_of(prefix, #[trigger] init[i].relative_path) != p by {
            assert(init[i] == files[i]);
        }
        lemma_unwritten_path_absent(m, prefix, init, now, p);
        assert(files.last() == files[files.len() - 1]);
    }
}

/// Ingesting no files writes nothing: the backend is left as it was.
pub proof fn lemma_empty_ingestion_writes_nothing(m: StoreModel, prefix: Seq<char>, now: i64)
    ensures
        store_files(m, prefix, Seq::<SourceFileView>::empty(), now) == m,
        manifest_of(Seq::<SourceFileView>::empty()).len() == 0,
{
}

/// After a successful ingestion every file reads back, under its key, with
/// its own content and content type, as long as no later file of the same
/// ingestion has the same key.
pub proof fn lemma_ingested_file_reads_back(
    m: StoreModel,
    prefix: Seq<char>,
    files: Seq<SourceFileView>,
    now: i64,
    k: int,
)
    requires
        0 <= k < files.len(),
        forall|j: int|
            k < j < files.len() ==> #[trigger] files[j].relative_path != files[k].relative_path,
    ensures
        get_model(store_files(m, prefix, files, now), key_of(prefix, files[k].relative_path))
            == Some(blob_of(prefix, files[k], now)),
    decreases files.len(),
{
    let init = files.drop_last();
    if k < files.len() - 1 {
        assert forall|j: int| k < j < init.len() implies #[trigger] init[j].relative_path
            != init[k].relative_path by {
            assert(init[j] == files[j]);
        }
        lemma_ingested_file_reads_back(m, prefix, init, now, k);
        let last = files[files.len() - 1];
        assert(last.relative_path != files[k].relative_path);
        assert(files.last() == last);
        assert(key_of(prefix, last.relative_path) != key_of(prefix, files[k].relative_path)) by {
            if prefix.len() != 0 {
                let a = prefix + "/"@;
                assert((a + last.relative_path).subrange(a.len() as int, (a + last.relative_path).len() as int) =~= last.relative_path);
                assert((a + files[k].relative_path).subrange(a.len() as int, (a + files[k].relative_path).len() as int) =~= files[k].relative_path);
            }
        }
    } else {
        assert(files.last() == files[k]);
    }
}

/// Writing `files` into a backend equals laying what they write, on their
/// own, over what the backend held: for each key, the last file written
/// there wins.
pub proof fn lemma_store_files_overlay(
    m: StoreModel,
    prefix: Seq<char>,
    files: Seq<SourceFileView>,
    now: i64,
)
    ensures
        store_files(m, prefix, files, now) == m.union_prefer_right(
            store_files(StoreModel::empty(), prefix, files, now),
        ),
    decreases files.len(),
{
    if files.len() == 0 {
        assert(m.union_prefer_right(StoreModel::empty()) =~= m);
    } else {
        lemma_store_files_overlay(m, prefix, files.drop_last(), now);
        let w = store_files(StoreModel::empty(), prefix, files.drop_last(), now);
        let b = blob_of(prefix, files.last(), now);
        assert(put_model(m.union_prefer_right(w), b) =~= m.union_prefer_right(put_model(w, b)));
    }
}

/// Ingesting the same files twice, at the same time and under the same
/// prefix, leaves the backend as ingesting them once: the same keys, each
/// with the same blob, and no copies.
pub proof fn lemma_ingest_twice(m: StoreModel, prefix: Seq<char>, files: Seq<SourceFileView>, now: i64)
    ensures
        store_files(store_files(m, prefix, files, now), prefix, files, now) == store_files(
            m,
            prefix,
            files,
            now,
        ),
{
    let once = store_files(m, prefix, files, now);
    let w = store_files(StoreModel::empty(), prefix, files, now);
    lemma_store_files_overlay(m, prefix, files, now);
    lemma_store_files_overlay(once, prefix, files, now);
    assert(m.union_prefer_right(w).union_prefer_right(w) =~= m.union_prefer_right(w));
}

} // verus!
