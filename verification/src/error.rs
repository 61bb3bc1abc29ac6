//! The ways in which a simulation step can fail.

use vstd::prelude::*;

verus! {

/// A fatal error of the simulation. None of them is recovered from: a step
/// that fails leaves the bodies as they were before it.
#[derive(Clone, Copy, Debug, PartialEq, Eq, Structural)]
pub enum SimError {
    /// Two bodies are so close that their squared distance came out as zero.
    DegenerateConfiguration,
    /// A body has a mass that is zero or negative.
    InvalidMass,
    /// A force array does not have one entry per body.
    ProtocolMismatch,
    /// No force array arrived from the coordinator in time.
    CommunicationTimeout,
    /// A payload is not a whole number of encoded force vectors.
    SerializationError,
}

} // verus!
