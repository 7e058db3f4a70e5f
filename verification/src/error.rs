//! The error taxonomy of the storage adapter and the task domain model.

use vstd::prelude::*;

verus! {

/// Failures of the storage adapter and the record store.
#[derive(Debug, Clone, Copy, PartialEq, Eq, Structural)]
pub enum StoreError {
    /// The identifier string does not parse as a `table:key` reference.
    InvalidId,
    /// A create succeeded at the query level but no identifier could be
    /// extracted from the response.
    NoIdReturned,
    /// A strict-mode operation targeted a record that does not exist.
    RecordNotFound,
    /// A listed row was not a structured record, or a numeric field failed
    /// strict base-10 parsing.
    MalformedRow,
    /// The underlying store execution itself failed.
    QueryError,
}

/// Failures surfaced by the task domain model.
#[derive(Debug, Clone, Copy, PartialEq, Eq, Structural)]
pub enum DomainError {
    /// A domain-level precondition was violated before any store call was
    /// made.
    InvalidInput,
    /// A storage failure, propagated unchanged.
    Store(StoreError),
}

} // verus!
