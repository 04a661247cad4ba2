//! A variable-substitution engine for hierarchical documents.
//!
//! Given a table of named values and a document tree, every textual node is
//! rewritten by replacing placeholder tokens of the form `${{name}}` with the
//! value bound to `name`; placeholders naming an unbound variable are flagged
//! inline rather than dropped or turned into an error.

pub mod book;
pub mod engine;
pub mod laws;
pub mod plugin;
pub mod table;
pub mod text;
