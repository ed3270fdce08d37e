//! The failure taxonomy of the prover core.  None of these is recovered
//! locally: each aborts the enclosing batch operation and is surfaced to the
//! caller.

use vstd::prelude::*;

verus! {

/// An error returned by an instance's constraint-generation capability.
#[derive(Clone, Copy, Debug, PartialEq, Eq, Structural)]
pub struct SynthesisError;

/// A fatal failure of witness construction or selector combination.
#[derive(Clone, Copy, Debug, PartialEq, Eq, Structural)]
pub enum AhpError {
    /// The instance's constraint-generation capability failed.
    SynthesisFailure,
    /// The realized constraint or variable counts differ from the circuit
    /// index's recorded values.
    InstanceDoesNotMatchIndex,
    /// The padded public vector fails the admissibility predicate.
    InadmissiblePublicInput,
    /// A vanishing-polynomial division yielded a non-zero remainder where
    /// the protocol guarantees zero: an internal contract breach, not a
    /// user-input error.
    DivisionInvariantViolation,
    /// A division was attempted against a degenerate (empty) domain.
    UndefinedDivision,
}

} // verus!
