//! The ways in which a read can fail.

use vstd::prelude::*;

verus! {

/// Why a read returned no value.
#[derive(Clone, Copy, Debug, PartialEq, Eq, Structural)]
pub enum ParseError {
    /// Fewer bytes remain from the position on than the read needs.
    OutOfBounds,
    /// The bytes of a string are not valid UTF-8.
    InvalidEncoding,
}

impl ParseError {
    /// A short description of the failure.
    pub fn message(&self) -> (r: &'static str)
        ensures
            r@ == match *self {
                ParseError::OutOfBounds => "read past the end of the buffer"@,
                ParseError::InvalidEncoding => "string is not valid UTF-8"@,
            },
    {
        match self {
            ParseError::OutOfBounds => "read past the end of the buffer",
            ParseError::InvalidEncoding => "string is not valid UTF-8",
        }
    }
}

} // verus!
