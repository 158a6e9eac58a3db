//! A log sink that turns structured log records into documents and hands
//! them to a document store, one at a time or in batches.
//!
//! The library decides everything that does not touch the store: how each
//! typed field becomes a document value, in which order fields land in a
//! record's document, and when pending documents are flushed. The caller
//! performs the write that a [`batch::WriteAction`] asks for.

pub mod value;
pub mod document;
pub mod batch;
pub mod laws;
pub mod record;

pub use value::{encode, EncodeError, Field, FieldValue, Value};
pub use document::{serialize_record, Document, DocumentSerializer, Entry};
pub use batch::{BatchBuffer, FlushPolicy, WriteAction};
pub use record::{accept_record, accept_record_at, default_fields, default_fields_at};
