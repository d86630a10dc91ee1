//! An object store held in process memory: each blob is one object under its
//! path key, and each write replaces a whole object at once.
//!
//! The store lives as long as the value does; it is the medium for runs that
//! need no database, and for exercising ingestion. Objects are kept in a
//! `Vec` and found by a linear scan, since the proofs rest on the sequence of
//! objects and their path strings: a lookup costs time linear in the number of
//! objects, so a large ingestion belongs on the database backend.

use vstd::prelude::*;
use crate::blob::{Blob, BlobView, StoreModel, put_model, get_model};
use crate::error::StorageError;

verus! {

pub struct ObjectStore {
    objects: Vec<Blob>,
    limit: Option<usize>,
    model: Ghost<StoreModel>,
}

impl View for ObjectStore {
    type V = StoreModel;

    closed spec fn view(&self) -> StoreModel {
        self.model@
    }
}

/// What a write of `b` into `s0` leaves (`s1`) and returns (`r`): it fails
/// exactly when the path is new and the store is at its bound, and then
/// changes nothing; otherwise the blob at `b.path` is replaced wholesale.
pub open spec fn put_outcome(
    s0: ObjectStore,
    s1: ObjectStore,
    b: BlobView,
    r: Result<(), StorageError>,
) -> bool {
    &&& s1.wf()
    &&& s1.bound() == s0.bound()
    &&& r is Err <==> (!s0@.contains_key(b.path) && s0.bound() == Some(s0.count() as usize))
    &&& r is Ok ==> s1@ == put_model(s0@, b) && s1.count() == if s0@.contains_key(b.path) {
        s0.count()
    } else {
        s0.count() + 1
    }
    &&& r is Err ==> (r matches Err(StorageError::ObjectStoreFull)) && s1@ == s0@ && s1.count()
        == s0.count()
}

impl ObjectStore {
    /// The number of objects stored.
    pub closed spec fn count(&self) -> nat {
        self.objects@.len()
    }

    /// The most objects the store accepts, if it was given a bound.
    pub closed spec fn bound(&self) -> Option<usize> {
        self.limit
    }

    /// Paths are unique, each object is what the model maps its path to,
    /// the model holds no other path, and the bound is kept.
    pub closed spec fn wf(&self) -> bool {
        &&& forall|i: int, j: int|
            0 <= i < j < self.objects@.len() ==> self.objects@[i].path@
                != self.objects@[j].path@
        &&& forall|i: int|
            0 <= i < self.objects@.len() ==> self.model@.contains_key(self.objects@[i].path@)
                && self.model@[self.objects@[i].path@] == self.objects@[i]@
        &&& forall|k: Seq<char>|
            self.model@.contains_key(k) ==> exists|i: int|
                0 <= i < self.objects@.len() && self.objects@[i].path@ == k
        &&& self.limit matches Some(n) ==> self.objects@.len() <= n
    }

    /// An empty store without a bound.
    pub fn new() -> (r: ObjectStore)
        ensures
            r.wf(),
            r@ == StoreModel::empty(),
            r.count() == 0,
            r.bound() is None,
    {
        ObjectStore { objects: Vec::new(), limit: None, model: Ghost(StoreModel::empty()) }
    }

    /// An empty store that holds at most `max_objects` objects.
    pub fn with_limit(max_objects: usize) -> (r: ObjectStore)
        ensures
            r.wf(),
            r@ == StoreModel::empty(),
            r.count() == 0,
            r.bound() == Some(max_objects),
    {
        ObjectStore {
            objects: Vec::new(),
            limit: Some(max_objects),
            model: Ghost(StoreModel::empty()),
        }
    }

    /// The number of objects stored.
    pub fn len(&self) -> (r: usize)
        ensures
            r == self.count(),
    {
        self.objects.len()
    }

    fn position(&self, path: &str) -> (r: Option<usize>)
        requires
            self.wf(),
        ensures
            match r {
                Some(i) => i < self.objects@.len() && self.objects@[i as int].path@ == path@,
                None => !self@.contains_key(path@),
            },
    {
        let key: String = path.to_owned();
        let mut i: usize = 0;
        while i < self.objects.len()
            invariant
                self.wf(),
                key@ == path@,
                0 <= i <= self.objects@.len(),
                forall|j: int| 0 <= j < i ==> self.objects@[j].path@ != path@,
            decreases self.objects.len() - i,
        {
            if self.objects[i].path == key {
                return Some(i);
            }
            i = i + 1;
        }
        None
    }

    /// Stores `blob` under its path, replacing any object there. Fails only
    /// when the path is new and the store is at its bound; a failed write
    /// leaves the store as it was.
    pub fn put(&mut self, blob: Blob) -> (r: Result<(), StorageError>)
        requires
            old(self).wf(),
        ensures
            put_outcome(*old(self), *final(self), blob@, r),
    {
        let ghost m0 = self.model@;
        let ghost b = blob@;
        match self.position(blob.path.as_str()) {
            Some(i) => {
                let ghost objs0 = self.objects@;
                self.objects.set(i, blob);
                self.model = Ghost(m0.insert(b.path, b));
                assert forall|k: Seq<char>| self.model@.contains_key(k) implies exists|j: int|
                    0 <= j < self.objects@.len() && self.objects@[j].path@ == k by {
                    if k != b.path {
                        let j = choose|j: int| 0 <= j < objs0.len() && objs0[j].path@ == k;
                        assert(self.objects@[j].path@ == k);
                    } else {
                        assert(self.objects@[i as int].path@ == k);
                    }
                }
                Ok(())
            },
            None => {
                match self.limit {
                    Some(n) => {
                        if self.objects.len() >= n {
                            return Err(StorageError::ObjectStoreFull);
                        }
                    },
                    None => {},
                }
                let ghost objs0 = self.objects@;
                self.objects.push(blob);
                self.model = Ghost(m0.insert(b.path, b));
                assert forall|k: Seq<char>| self.model@.contains_key(k) implies exists|j: int|
                    0 <= j < self.objects@.len() && self.objects@[j].path@ == k by {
                    if k != b.path {
                        let j = choose|j: int| 0 <= j < objs0.len() && objs0[j].path@ == k;
                        assert(self.objects@[j].path@ == k);
                    } else {
                        assert(self.objects@[objs0.len() as int].path@ == k);
                    }
                }
                Ok(())
            },
        }
    }

    /// The blob stored at `path`, or `None` when nothing was stored there.
    pub fn get(&self, path: &str) -> (r: Option<Blob>)
        requires
            self.wf(),
        ensures
            match r {
                Some(b) => get_model(self@, path@) == Some(b@),
                None => get_model(self@, path@) is None,
            },
    {
        match self.position(path) {
            Some(i) => Some(self.objects[i].duplicate()),
            None => None,
        }
    }

    /// Whether a blob is stored at `path`.
    pub fn contains(&self, path: &str) -> (r: bool)
        requires
            self.wf(),
        ensures
            r == self@.contains_key(path@),
    {
        self.position(path).is_some()
    }
}

} // verus!
