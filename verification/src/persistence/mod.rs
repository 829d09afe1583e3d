//! What the service stores, and how stored rows become values again.
use vstd::prelude::*;

pub mod keyframes;
pub mod records;
pub mod rows;
pub mod stream_copies;

verus! {

/// Why the database could not be used. `Sqlx` and `Migrate` hold the text of
/// the database's error.
#[derive(Debug, PartialEq, Eq)]
pub enum PersistenceError {
    Sqlx(String),
    Migrate(String),
    InvalidData(String),
}

impl PersistenceError {
    /// The text of the error.
    pub open spec fn text(self) -> Seq<char> {
        match self {
            PersistenceError::Sqlx(message) => message@,
            PersistenceError::Migrate(message) => message@,
            PersistenceError::InvalidData(message) => message@,
        }
    }

    /// The text of the error.
    pub fn message(&self) -> (r: String)
        ensures
            r@ == self.text(),
    {
        match self {
            PersistenceError::Sqlx(message) => message.clone(),
            PersistenceError::Migrate(message) => message.clone(),
            PersistenceError::InvalidData(message) => message.clone(),
        }
    }
}

/// A result with an error of invalid data taken by its text; no other error
/// has one.
pub open spec fn stored<T>(r: Result<T, PersistenceError>) -> Option<Result<T, Seq<char>>> {
    match r {
        Ok(value) => Some(Ok(value)),
        Err(PersistenceError::InvalidData(message)) => Some(Err(message@)),
        Err(_) => None,
    }
}

} // verus!
