//! Management of text-expansion matches (trigger / replacement pairs) kept in
//! YAML files: decoding, filtering, editing and re-encoding of one file's
//! collection, and the editing session that sits between a user interface and
//! that collection.

pub mod text;
pub mod entry;
pub mod document;
pub mod catalog;
pub mod helper;
