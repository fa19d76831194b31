use vstd::prelude::*;

verus! {

/// The closed set of failure kinds. Translation to wire formats (status
/// codes, machine-readable code strings) is the boundary's business, not the
/// core's, and lives outside this crate's verified surface.
#[derive(Debug, Clone, PartialEq, Eq)]
pub enum AppError {
    /// No user with the given identifier exists.
    UserNotFound(u128),
    /// A user with the given canonical email already exists.
    UserAlreadyExists(String),
    /// A request failed validation, with the first failing rule's message.
    InvalidInput(String),
    /// Reserved for persistent backends; the in-memory store never raises it.
    Database(String),
    /// An internal failure, such as an identifier collision on insertion.
    Internal(String),
    /// Reserved for the configuration boundary.
    Config(String),
}

pub type AppResult<T> = Result<T, AppError>;

} // verus!
