//! Errors of the indexing core.

use vstd::prelude::*;

verus! {

/// The three error kinds that the indexing core distinguishes.
///
/// `InvalidInput` marks a query or batch that violates a documented contract,
/// `NotSupported` an operation that is undefined for the index variant it was
/// asked of, and `Index` an internal consistency failure such as an
/// unsupported element type reaching the product quantizer.
#[derive(Debug)]
pub enum Error {
    InvalidInput { message: String },
    NotSupported { message: String },
    Index { message: String },
}

impl Error {
    pub fn invalid_input(message: &str) -> (e: Error)
        ensures
            e is InvalidInput,
    {
        Error::InvalidInput { message: message.to_owned() }
    }

    pub fn not_supported(message: &str) -> (e: Error)
        ensures
            e is NotSupported,
    {
        Error::NotSupported { message: message.to_owned() }
    }

    pub fn index(message: &str) -> (e: Error)
        ensures
            e is Index,
    {
        Error::Index { message: message.to_owned() }
    }

    /// The diagnostic string carried by the error.
    pub fn message(&self) -> &String {
        match self {
            Error::InvalidInput { message } => message,
            Error::NotSupported { message } => message,
            Error::Index { message } => message,
        }
    }
}

} // verus!
