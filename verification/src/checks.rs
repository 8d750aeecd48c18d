//! Comparisons with allowances, outside of any ledger.

use crate::accounting::{refusal, Resource, TaskLimits};
use crate::failure::{FailureKind, OperationFailure, ResourceExhausted};
use vstd::prelude::*;

verus! {

/// What comparing an amount with its allowance gives.
pub open spec fn allowed(limits: TaskLimits, resource: Resource, observed: int) -> Result<
    (),
    FailureKind,
> {
    if observed > limits.allowance(resource) {
        Err(
            FailureKind::ResourceExhausted(
                refusal(resource, limits.allowance(resource), observed as nat),
            ),
        )
    } else {
        Ok(())
    }
}

/// The category of an amount that the machine cannot hold.
pub open spec fn uncountable(limits: TaskLimits, resource: Resource) -> FailureKind {
    FailureKind::ResourceExhausted(
        ResourceExhausted { resource, limit: limits.allowance(resource), observed: usize::MAX },
    )
}

/// `r` is success, or a failure of the expected category that carries nothing else.
pub open spec fn outcome<T>(expected: Result<T, FailureKind>, r: Result<T, OperationFailure>) -> bool {
    match expected {
        Ok(value) => r == Ok::<T, OperationFailure>(value),
        Err(kind) => r matches Err(failure) && failure.is_terminal(kind),
    }
}

/// Compares an amount with its allowance.
pub fn check(resource: Resource, observed: usize, limits: &TaskLimits) -> (r: Result<
    (),
    OperationFailure,
>)
    ensures
        outcome(allowed(*limits, resource, observed as int), r),
{
    let limit: usize = limits.limit(resource);
    if observed > limit {
        return Err(OperationFailure::exhausted(ResourceExhausted { resource, limit, observed }));
    }
    Ok(())
}

/// The failure of an amount that the machine cannot hold.
pub fn exhausted(resource: Resource, limits: &TaskLimits) -> (failure: OperationFailure)
    ensures
        failure.is_terminal(uncountable(*limits, resource)),
{
    OperationFailure::exhausted(
        ResourceExhausted { resource, limit: limits.limit(resource), observed: usize::MAX },
    )
}

/// A total, unless the machine cannot hold it.
pub fn counted(total: Option<usize>, resource: Resource, limits: &TaskLimits) -> (r: Result<
    usize,
    OperationFailure,
>)
    ensures
        match total {
            Some(total) => r == Ok::<usize, OperationFailure>(total),
            None => r matches Err(failure) && failure.is_terminal(uncountable(*limits, resource)),
        },
{
    match total {
        Some(total) => Ok(total),
        None => Err(exhausted(resource, limits)),
    }
}

/// An amount is allowed exactly up to its allowance, and a refusal says what was allowed and what was
/// asked for.
pub proof fn amounts_are_allowed_up_to_their_allowance(
    limits: TaskLimits,
    resource: Resource,
    observed: usize,
)
    ensures
        allowed(limits, resource, observed as int) is Ok <==> observed <= limits.allowance(resource),
        allowed(limits, resource, observed as int) matches Err(kind) ==> kind
            == FailureKind::ResourceExhausted(
            ResourceExhausted { resource, limit: limits.allowance(resource), observed },
        ),
{
}

} // verus!
