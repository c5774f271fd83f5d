//! Verified core of a file-backed store for business project records.
//!
//! A record is a structured text document (parsed through an outside yaml
//! parser) together with its file location and an optional version-control
//! status tag.  This crate holds the verified logic of that lifecycle:
//! the template engine that creates new documents, the path accessors over
//! the parsed tree, field validation and readiness gates, bill grouping,
//! the version-status cache, and the directory-layout planning of the store.
//! All file and subprocess I/O stays with the caller, which hands plain
//! values (strings, listings, status entries) in and out.

pub mod text;
pub mod error;
pub mod template;
pub mod doc;
pub mod dates;
pub mod bill;
pub mod project;
pub mod computed_field;
pub mod repo;
pub mod storage;
