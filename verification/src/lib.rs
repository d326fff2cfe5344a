//! A placeholder-expansion engine.
//!
//! The engine scans a byte buffer for `{{{...}}}` placeholders, classifies
//! each by a sigil-prefixed pattern, resolves it to replacement text (a file's
//! contents, optionally rendered from Markdown, or a formatted article record
//! from a storage collaborator), and splices the replacement into the buffer
//! in place. Storage and filesystem work is requested from the caller through
//! a small state-machine protocol; the decisions themselves are verified.

pub mod article;
pub mod engine;
pub mod errors;
pub mod pattern;
pub mod scan;
