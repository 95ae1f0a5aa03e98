//! The error value of reads and materialization: an I/O error kind and a message.
use vstd::prelude::*;

verus! {

#[verifier::external_type_specification]
pub struct ExErrorKind(std::io::ErrorKind);

/// An error with the kind of `std::io::Error` and a human readable message.
#[derive(Debug, PartialEq, Eq)]
pub struct IoError {
    pub kind: std::io::ErrorKind,
    pub message: String,
}

impl Clone for IoError {
    fn clone(&self) -> (r: Self)
        ensures
            r == *self,
    {
        IoError { kind: self.kind, message: self.message.clone() }
    }
}

impl IoError {
    pub fn new(kind: std::io::ErrorKind, message: String) -> (r: Self)
        ensures
            r.kind == kind,
            r.message@ == message@,
    {
        IoError { kind, message }
    }

    pub fn kind(&self) -> (r: std::io::ErrorKind)
        ensures
            r == self.kind,
    {
        self.kind
    }

    /// The error's message.
    pub fn to_string(&self) -> (r: String)
        ensures
            r@ == self.message@,
    {
        self.message.clone()
    }
}

} // verus!
