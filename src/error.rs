//! What an operation reports when it does not succeed.
use vstd::prelude::*;

verus! {

/// The kinds of record that the store holds.
#[derive(Clone, Copy, Debug, PartialEq, Eq, Structural)]
pub enum Entity {
    Area,
    Project,
    Task,
    Note,
    InboxItem,
}

/// Which input constraint a rejected call broke.
#[derive(Clone, Copy, Debug, PartialEq, Eq, Structural)]
pub enum Problem {
    EmptyName,
    EmptyTitle,
    EmptyContent,
    InvalidSource,
    InvalidStatus,
    InvalidState,
}

#[derive(Debug, PartialEq, Eq)]
pub enum CommandError {
    /// The caller's input breaks a documented constraint; nothing was written.
    Validation(Problem),
    /// No record has the given id.
    NotFound(Entity),
    /// The record is in a state that forbids the operation.
    InvalidState,
    /// A record with the freshly generated id already exists; nothing was written.
    DuplicateId(Entity),
    /// The chat endpoint could not be reached, or answered with a non-success
    /// status (then `status` holds it and `detail` the response body).
    Transport { status: Option<u16>, detail: String },
    /// The chat response body is not of the expected shape.
    Parse(String),
    /// The chat response carried no text.
    EmptyResponse,
}

} // verus!
