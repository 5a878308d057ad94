//! The codec's result-error type.
//!
//! Parsing itself is total and never fails; this type exists so that the
//! transport collaborators around the codec (the read loop that pumps bytes
//! into the decoder) can report I/O failures through the same result shape
//! used for decode outcomes. It carries the platform's I/O failure category,
//! which is what equality of two errors compares.

use vstd::prelude::*;

verus! {

/// `std::io::ErrorKind`, the platform-independent category of an I/O
/// failure, held as an opaque value. The codec never constructs or inspects
/// one; it only stores and compares the category a collaborator supplies.
#[verifier::external_type_specification]
#[verifier::external_body]
pub struct ExIoErrorKind(std::io::ErrorKind);

/// Errors shared between the codec and its transport collaborators.
#[derive(Debug, PartialEq, Eq)]
pub enum EspError {
    /// An I/O failure of the given category on the underlying transport.
    Io(std::io::ErrorKind),
}

} // verus!
