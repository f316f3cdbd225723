//! The classes of errors in reading and writing.

use vstd::prelude::*;

verus! {

/// The class of an I/O error.
#[derive(Debug, Clone, Copy, PartialEq, Eq, Structural)]
pub enum IoErrorKind {
    InvalidData,
    InvalidInput,
    NotFound,
    UnexpectedEof,
    Other,
}

} // verus!
