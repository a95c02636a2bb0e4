//! The ways a verification run can fail.
use vstd::prelude::*;

verus! {

/// Why a verification run stopped. Every failure is fatal for that run.
#[derive(Clone, Copy, Debug, PartialEq, Eq, Structural)]
pub enum VerifyError {
    /// The transcript ended early, or what it holds does not match the
    /// layout that the verifying key declares.
    MalformedProof,
    /// A gate polynomial still holds a selector, which has no evaluation.
    UnsupportedExpression,
    /// A division by the additive identity.
    DivisionByZero,
}

} // verus!
