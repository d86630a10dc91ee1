//! The relational backend: one row per blob in the table
//! `files (path TEXT PRIMARY KEY, mime TEXT NOT NULL, date_updated BIGINT NOT NULL, content BYTEA NOT NULL)`.
//!
//! A write is a single `INSERT ... ON CONFLICT` statement, which PostgreSQL
//! runs in a transaction of its own: a failed write leaves no half-written row,
//! and blobs written before it stay committed.

use vstd::prelude::*;
use crate::blob::{Blob, BlobView};
use crate::error::StorageError;

verus! {

#[verifier::external_type_specification]
#[verifier::external_body]
pub struct ExPgClient(postgres::Client);

#[verifier::external_type_specification]
#[verifier::external_body]
pub struct ExPgRow(postgres::Row);

/// Relies on `postgres::Client::execute`: runs `statement` once with
/// `path`, `mime`, `date_updated` and `content` bound to `$1` to `$4`.
/// What the database does with it is not known here.
#[verifier::external_body]
fn execute_with_blob(
    client: &mut postgres::Client,
    statement: &str,
    path: &str,
    mime: &str,
    date_updated: i64,
    content: &[u8],
) -> (r: Result<u64, postgres::Error>) {
    client.execute(statement, &[&path, &mime, &date_updated, &content])
}

/// Relies on `postgres::Client::query_opt`: runs `statement` with `path`
/// bound to `$1`, giving the one row found or none.
#[verifier::external_body]
fn query_opt_by_path(client: &mut postgres::Client, statement: &str, path: &str) -> (r: Result<
    Option<postgres::Row>,
    postgres::Error,
>) {
    client.query_opt(statement, &[&path])
}

/// Relies on `postgres::Row::try_get`: column `idx` of `row` as text.
#[verifier::external_body]
fn row_text(row: &postgres::Row, idx: usize) -> (r: Result<String, postgres::Error>) {
    row.try_get(idx)
}

/// Relies on `postgres::Row::try_get`: column `idx` of `row` as a `BIGINT`.
#[verifier::external_body]
fn row_i64(row: &postgres::Row, idx: usize) -> (r: Result<i64, postgres::Error>) {
    row.try_get(idx)
}

/// Relies on `postgres::Row::try_get`: column `idx` of `row` as bytes.
#[verifier::external_body]
fn row_bytes(row: &postgres::Row, idx: usize) -> (r: Result<Vec<u8>, postgres::Error>) {
    row.try_get(idx)
}

/// A blob store over a PostgreSQL connection.
///
/// What the table holds is the database's to say; what this backend asked
/// of it is recorded: each write statement sent, in order, with the blob
/// it carried and whether the database accepted it.
pub struct DatabaseBackend {
    client: postgres::Client,
    sent: Ghost<Seq<(BlobView, bool)>>,
}

impl DatabaseBackend {
    /// The write statements sent so far, oldest first: the blob written and
    /// whether the statement succeeded.
    pub closed spec fn writes(&self) -> Seq<(BlobView, bool)> {
        self.sent@
    }

    /// A backend that works through `client`; it has sent nothing yet.
    pub fn new(client: postgres::Client) -> (r: DatabaseBackend)
        ensures
            r.writes() == Seq::<(BlobView, bool)>::empty(),
    {
        DatabaseBackend { client, sent: Ghost(Seq::empty()) }
    }

    /// Gives the connection back.
    pub fn into_client(self) -> (r: postgres::Client) {
        self.client
    }

    /// Inserts `blob`, or replaces all columns of the row at its path, with
    /// one statement.
    pub fn put(&mut self, blob: &Blob) -> (r: Result<(), StorageError>)
        ensures
            final(self).writes() == old(self).writes().push((blob@, r is Ok)),
            r matches Err(e) ==> e is Database,
    {
        let res = execute_with_blob(
            &mut self.client,
            "INSERT INTO files (path, mime, date_updated, content) VALUES ($1, $2, $3, $4) \
             ON CONFLICT (path) DO UPDATE SET mime = EXCLUDED.mime, \
             date_updated = EXCLUDED.date_updated, content = EXCLUDED.content",
            blob.path.as_str(),
            blob.mime.as_str(),
            blob.date_updated,
            blob.content.as_slice(),
        );
        self.sent = Ghost(self.sent@.push((blob@, res is Ok)));
        match res {
            Ok(_) => Ok(()),
            Err(e) => Err(StorageError::Database(e)),
        }
    }

    /// The blob stored at `path`; `Ok(None)` when no row has that path.
    pub fn get(&mut self, path: &str) -> (r: Result<Option<Blob>, StorageError>)
        ensures
            final(self).writes() == old(self).writes(),
            r matches Ok(Some(b)) ==> b.path@ == path@,
            r matches Err(e) ==> e is Database,
    {
        let found = query_opt_by_path(
            &mut self.client,
            "SELECT mime, date_updated, content FROM files WHERE path = $1",
            path,
        );
        match found {
            Err(e) => Err(StorageError::Database(e)),
            Ok(None) => Ok(None),
            Ok(Some(row)) => {
                let mime = match row_text(&row, 0) {
                    Ok(m) => m,
                    Err(e) => return Err(StorageError::Database(e)),
                };
                let date_updated = match row_i64(&row, 1) {
                    Ok(d) => d,
                    Err(e) => return Err(StorageError::Database(e)),
                };
                let content = match row_bytes(&row, 2) {
                    Ok(c) => c,
                    Err(e) => return Err(StorageError::Database(e)),
                };
                Ok(Some(Blob::new(path.to_owned(), mime, date_updated, content)))
            },
        }
    }

    /// Whether a row has `path`.
    pub fn contains(&mut self, path: &str) -> (r: Result<bool, StorageError>)
        ensures
            final(self).writes() == old(self).writes(),
            r matches Err(e) ==> e is Database,
    {
        let found = query_opt_by_path(
            &mut self.client,
            "SELECT path FROM files WHERE path = $1",
            path,
        );
        match found {
            Err(e) => Err(StorageError::Database(e)),
            Ok(row) => Ok(row.is_some()),
        }
    }
}

} // verus!
