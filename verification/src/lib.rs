//! A task-tracking domain layer over a record store.
//!
//! The library owns the task domain model (`Task`, `Status`, `TodoList`),
//! the storage adapter that translates domain operations into record-store
//! operations and decodes raw stored values, and an in-memory record store
//! that realises the contract the storage engine must satisfy: identifier
//! issuance, field-level partial updates, idempotent deletes, and the
//! quoted-string encoding of text fields on read-back.

pub mod codec;
pub mod error;
pub mod status;
pub mod store;
pub mod adapter;
pub mod todo;
