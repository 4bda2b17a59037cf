//! The error values shared by every decoder of this crate.
use vstd::prelude::*;

verus! {

/// The errors that may be raised by this crate
#[derive(Debug, Clone, Copy, PartialEq, Eq, Structural)]
pub enum Errors {
    /// No data was provided despite some being required
    NoData,
    /// The buffer used for an operation was too small
    BufferTooSmall,
    /// The buffer used for an operation was malformed or corrupted
    /// and did not match the expected content constraints
    InvalidBuffer,
}

impl Errors {
    /// A human-readable description of the error
    pub fn message(&self) -> (r: &'static str) {
        match self {
            Errors::NoData => "No data was loaded or provided",
            Errors::BufferTooSmall => "The provided data buffer was too small to be used",
            Errors::InvalidBuffer => "The provided data buffer did not provide usable data",
        }
    }
}

} // verus!
