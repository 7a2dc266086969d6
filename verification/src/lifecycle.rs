//! How far a failure reaches: what it ends, and what goes on in spite of
//! it.

use vstd::prelude::*;
use crate::transfer::Failure;

verus! {

/// Something that went wrong, by the step at which it did. A dump that could
/// not be appended is not among them: it ends nothing, and the chunk is
/// relayed all the same.
#[derive(Clone, Copy, Debug, PartialEq, Eq, Structural)]
pub enum Fault {
    /// The listen address could not be bound.
    Bind,
    /// The dump file could not be opened.
    OpenSink,
    /// Accepting a connection failed.
    Accept,
    /// The target could not be reached.
    Connect,
    /// One direction of a connection failed.
    Transfer(Failure),
}

/// What a failure puts an end to.
#[derive(Clone, Copy, Debug, PartialEq, Eq, Structural)]
pub enum Scope {
    /// The whole process.
    Process,
    /// The one connection it happened on; the listener goes on serving.
    Connection,
    /// The one direction it happened in; the other direction of the same
    /// connection runs on to its own end.
    Direction,
}

impl Fault {
    /// What this failure puts an end to. A relay that cannot listen, or
    /// cannot dump where it was asked to, does not start. A connection that
    /// cannot be accepted or cannot reach the target is dropped. A failure
    /// while relaying ends the direction it happened in.
    pub open spec fn reach(self) -> Scope {
        match self {
            Fault::Bind | Fault::OpenSink => Scope::Process,
            Fault::Accept | Fault::Connect => Scope::Connection,
            Fault::Transfer(_) => Scope::Direction,
        }
    }

    /// What this failure puts an end to.
    pub fn scope(self) -> (scope: Scope)
        ensures
            scope == self.reach(),
    {
        match self {
            Fault::Bind | Fault::OpenSink => Scope::Process,
            Fault::Accept | Fault::Connect => Scope::Connection,
            Fault::Transfer(_) => Scope::Direction,
        }
    }

    /// Whether the process ends with this failure.
    pub fn is_fatal(self) -> (fatal: bool)
        ensures
            fatal == (self.reach() == Scope::Process),
            fatal == (self == Fault::Bind || self == Fault::OpenSink),
    {
        match self {
            Fault::Bind | Fault::OpenSink => true,
            _ => false,
        }
    }
}

} // verus!
