//! Blob storage for large numbers of small generated files.
//!
//! Files are classified by content type, stored under a path key in one of
//! two interchangeable backends (a PostgreSQL table or an object store), and
//! recorded in a manifest of `(mime, relative path)` pairs.

pub mod mime;
pub mod blob;
pub mod error;
pub mod object_store;
pub mod database;
pub mod manifest;
pub mod storage;
pub mod file;
