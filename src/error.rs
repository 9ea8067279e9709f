//! Errors.

use vstd::prelude::*;

verus! {

/// What went wrong.
#[derive(Clone, Copy, Debug, PartialEq, Eq, Structural)]
pub enum ErrorKind {
    /// The dimensions of the circuit's matrices do not agree, or one is zero.
    Dimensions,
    /// A thermal capacitance is not positive.
    Capacitance,
    /// The time step is not positive.
    TimeStep,
    /// A count or a size does not fit in a machine word.
    Overflow,
    /// The stack holds microchannels, which are not supported.
    Channel,
    /// The analysis type of a 3D-ICE system is not steady.
    Analysis,
    /// An outside collaborator (a model backend, a decomposition) failed.
    Backend,
}

/// An error.
#[derive(Clone, Debug)]
pub struct Error {
    /// The kind of the error.
    pub kind: ErrorKind,
    /// A description of the error.
    pub message: String,
}

impl Error {
    /// Create an error of the given kind with the given description.
    pub fn new(kind: ErrorKind, message: &str) -> (e: Error)
        ensures
            e.kind == kind,
            e.message@ == message@,
    {
        Error { kind, message: message.to_owned() }
    }

    /// The description of the error.
    pub fn description(&self) -> (r: &str)
        ensures
            r@ == self.message@,
    {
        self.message.as_str()
    }
}

} // verus!
