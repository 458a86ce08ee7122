//! Live preview of a text document: the synchronisation core.
//!
//! An edit, seen on disk or submitted in a request, becomes a change event;
//! the document store applies it and renders the new text; once the markup is
//! persisted the generation advances and every viewer session learns of it.

pub mod document;
pub mod failure;
pub mod render;
pub mod session;
pub mod broadcast;
pub mod changes;
pub mod sync;
pub mod page;
