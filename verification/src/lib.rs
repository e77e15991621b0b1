//! Core of a language server for package manifests: span arithmetic, the
//! manifest parser that extracts dependency records, and the registry cache
//! that resolves a crate name to its latest published metadata. Around them:
//! the open document and its edits, the queries that find what the cursor
//! is on, and the texts that are shown for it.

pub mod crates;
pub mod document;
pub mod dom;
pub mod format;
pub mod ls;
pub mod map;
pub mod parse;
