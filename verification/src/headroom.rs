//! Room for what a task is about to own, next to everything that it holds already.

use crate::accounting::{Resource, TaskAccounting, TaskLimits};
use crate::checks::{allowed, exhausted, outcome, uncountable};
use crate::failure::{FailureKind, OperationFailure};
use vstd::prelude::*;

verus! {

/// What a task holds while it considers owning more.
#[derive(Debug, Clone, Copy, PartialEq, Eq, Structural)]
pub struct Headroom {
    /// The bytes that the task holds, or none where the machine cannot hold their sum.
    pub held: Option<usize>,
    /// Whether the host keeps execution state for the task.
    pub host_live: bool,
}

impl Headroom {
    /// What considering `extra` bytes gives: they fit beside what is held, and also in the
    /// metadata domain where the host keeps state. `ledger` holds the allowances of the ledger.
    pub open spec fn considered(self, ledger: TaskLimits, limits: TaskLimits, extra: usize) -> Result<
        (),
        FailureKind,
    > {
        match self.held {
            None => Err(uncountable(limits, Resource::TaskStateBytes)),
            Some(held) => if held + extra > usize::MAX {
                Err(uncountable(limits, Resource::TaskStateBytes))
            } else {
                match allowed(ledger, Resource::TaskStateBytes, held + extra) {
                    Err(kind) => Err(kind),
                    Ok(()) => if self.host_live {
                        allowed(ledger, Resource::MetadataAllocatedBytes, held + extra)
                    } else {
                        Ok(())
                    },
                }
            },
        }
    }

    /// Considers owning `extra` bytes more.
    pub fn consider(&self, accounting: &TaskAccounting, limits: &TaskLimits, extra: usize) -> (r: Result<
        (),
        OperationFailure,
    >)
        ensures
            outcome(self.considered(accounting.allowances(), *limits, extra), r),
    {
        let held: usize = match self.held {
            Some(held) => held,
            None => return Err(exhausted(Resource::TaskStateBytes, limits)),
        };
        let total: usize = match held.checked_add(extra) {
            Some(total) => total,
            None => return Err(exhausted(Resource::TaskStateBytes, limits)),
        };
        match accounting.check(Resource::TaskStateBytes, total) {
            Ok(()) => {},
            Err(error) => return Err(OperationFailure::exhausted(error)),
        }
        if self.host_live {
            match accounting.check(Resource::MetadataAllocatedBytes, total) {
                Ok(()) => {},
                Err(error) => return Err(OperationFailure::exhausted(error)),
            }
        }
        Ok(())
    }
}

/// Room for more is room for less.
pub proof fn room_for_more_is_room_for_less(
    headroom: Headroom,
    ledger: TaskLimits,
    limits: TaskLimits,
    less: usize,
    more: usize,
)
    requires
        less <= more,
        headroom.considered(ledger, limits, more) is Ok,
    ensures
        headroom.considered(ledger, limits, less) is Ok,
{
}

/// More is owned exactly where it fits beside everything that is held: within the task's storage, and
/// while a host keeps something for the task, within its metadata too.
pub proof fn more_is_owned_beside_what_is_held(
    headroom: Headroom,
    ledger: TaskLimits,
    limits: TaskLimits,
    extra: usize,
)
    ensures
        headroom.considered(ledger, limits, extra) is Ok <==> {
            &&& headroom.held matches Some(held)
            &&& held + extra <= ledger.allowance(Resource::TaskStateBytes)
            &&& headroom.host_live ==> held + extra <= ledger.allowance(
                Resource::MetadataAllocatedBytes,
            )
        },
        headroom.considered(ledger, limits, extra) matches Err(kind) ==> kind is ResourceExhausted,
{
}

} // verus!
