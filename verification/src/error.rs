//! The error vocabulary of the service: a client fault names the field
//! it rejects; a storage or conversion fault carries a diagnostic for
//! the log.

use vstd::prelude::*;

verus! {

/// What went wrong, and at whose door.
#[derive(Debug)]
pub enum AppError {
    /// A malformed request value; surfaced as a client error naming the
    /// field.
    Validation { field: String, message: String },
    /// A connection, execution or row-mapping failure in the store;
    /// surfaced as a server error.
    Storage { message: String },
    /// A failure promoting a request into options; surfaced as a server
    /// error.
    Conversion { message: String },
}

impl AppError {
    /// True of the errors a client caused.
    pub fn is_client_error(&self) -> (r: bool)
        ensures
            r == (self is Validation),
    {
        match self {
            AppError::Validation { .. } => true,
            _ => false,
        }
    }
}

} // verus!
