//! Workspace vault library: the decisions behind a document-annotation
//! application's file operations, workspace layout and annotation model.
//!
//! Every function here works on plain values. Reading and writing the file
//! system is left to the caller, which hands in what it observed (whether a
//! path exists and what kind of entry it is, the names in a directory, the
//! bytes of a file) and carries out what these functions decide.

pub mod content;
pub mod document;
pub mod error;
pub mod fsops;
pub mod names;
pub mod paths;
pub mod workspace;

pub use error::VaultError;
