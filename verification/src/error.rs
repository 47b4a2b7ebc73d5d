//! The error type for malformed or incomplete input trees.

use vstd::prelude::*;

verus! {

/// A structural or deserialization error: the engine reports these once for a
/// malformed snapshot and does not attempt partial recovery.
#[derive(Debug, Clone, PartialEq, Eq)]
pub enum Error {
    /// A number could not be parsed from an attribute value.
    ParseInt(String),
    /// An element of an unknown kind was encountered.
    UnknownElement(String),
    /// An enumeration token was not one of the expected words.
    UnknownVariant(String),
    /// The snapshot violates a structural rule of the game.
    InvalidState(String),
    /// The server reported an error.
    ServerError(String),
    /// A required attribute is missing.
    MissingAttribute(String),
    /// A required child element is missing.
    MissingChild(String),
    /// The input ended unexpectedly.
    Eof,
    /// Any other error, with a description.
    Custom(String),
}

} // verus!
