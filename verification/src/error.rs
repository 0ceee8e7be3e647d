//! The library's error type.
use vstd::prelude::*;

use crate::text::concat;

verus! {

/// Errors of the memory system. `Io` and `Json` carry the message of the underlying
/// I/O or JSON error.
#[derive(Debug, Clone, PartialEq, Eq)]
pub enum PhronesisError {
    Io(String),
    Embedding(String),
    Validation(String),
    NotFound(String),
    Json(String),
    Config(String),
}

/// The human-readable message of an error.
pub open spec fn error_message(e: PhronesisError) -> Seq<char> {
    match e {
        PhronesisError::Io(m) => "IO error: "@ + m@,
        PhronesisError::Embedding(m) => "Embedding error: "@ + m@,
        PhronesisError::Validation(m) => "Validation warning: "@ + m@,
        PhronesisError::NotFound(m) => "Not found: "@ + m@,
        PhronesisError::Json(m) => "JSON error: "@ + m@,
        PhronesisError::Config(m) => "Config error: "@ + m@,
    }
}

impl PhronesisError {
    /// The message a user sees for this error.
    pub fn message(&self) -> (r: String)
        ensures
            r@ == error_message(*self),
    {
        match self {
            PhronesisError::Io(m) => concat("IO error: ", m.as_str()),
            PhronesisError::Embedding(m) => concat("Embedding error: ", m.as_str()),
            PhronesisError::Validation(m) => concat("Validation warning: ", m.as_str()),
            PhronesisError::NotFound(m) => concat("Not found: ", m.as_str()),
            PhronesisError::Json(m) => concat("JSON error: ", m.as_str()),
            PhronesisError::Config(m) => concat("Config error: ", m.as_str()),
        }
    }
}

} // verus!
