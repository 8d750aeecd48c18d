//! Why a step of an operation is refused, as a value that a failure delivers.

use crate::failure::{Error, FailureKind, OperationFailure};
use crate::local_paths::generic;
use crate::plan_admission::PlanAdmissionError;
use crate::rows::{carries, unsupported};
use vstd::prelude::*;

verus! {

/// Why a step is refused.
pub enum Refusal {
    /// A category without an original error.
    Kind(FailureKind),
    /// An input outside the supported subset.
    Unsupported(Seq<char>),
    /// A refused plan.
    Plan(PlanAdmissionError),
    /// An error of the table implementation or of the engine.
    Carried(Error),
    /// An error that consists of its description.
    Described(Seq<char>),
}

impl Refusal {
    /// The failure delivers this refusal.
    pub open spec fn delivered(self, failure: OperationFailure) -> bool {
        match self {
            Refusal::Kind(kind) => failure.is_terminal(kind),
            Refusal::Unsupported(text) => unsupported(failure, text),
            Refusal::Plan(error) => error.failed(failure),
            Refusal::Carried(error) => carries(failure, error),
            Refusal::Described(text) => generic(failure, text),
        }
    }
}

/// `r` is the expected value, or a failure that delivers the expected refusal.
pub open spec fn told<T>(expected: Result<T, Refusal>, r: Result<T, OperationFailure>) -> bool {
    match expected {
        Ok(value) => r == Ok::<T, OperationFailure>(value),
        Err(refusal) => r matches Err(failure) && refusal.delivered(failure),
    }
}

} // verus!
