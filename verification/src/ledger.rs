//! A ledger as a value, and the work that semantic states charge to it.

use crate::accounting::{refusal, Resource, ResourceUsage, TaskAccounting, TaskLimits};
use crate::checks::outcome;
use crate::failure::{FailureKind, OperationFailure};
use crate::machine::{protocol_domain, semantic_work};
use vstd::prelude::*;

verus! {

broadcast use crate::accounting::usage_parts;

/// What a ledger holds.
#[verifier::ext_equal]
pub struct LedgerView {
    /// The allowances.
    pub limits: TaskLimits,
    /// The measurements of each domain.
    pub counters: spec_fn(Resource) -> ResourceUsage,
}

impl TaskAccounting {
    /// The ledger as a value.
    pub open spec fn book(self) -> LedgerView {
        LedgerView { limits: self.allowances(), counters: |r: Resource| self.counters(r) }
    }
}

impl LedgerView {
    /// The cumulative work of a domain.
    pub open spec fn spent(self, resource: Resource) -> usize {
        (self.counters)(resource).spent()
    }

    /// The live amount of a domain.
    pub open spec fn held(self, resource: Resource) -> usize {
        (self.counters)(resource).held()
    }

    /// What charging an amount gives.
    pub open spec fn charge_result(self, resource: Resource, amount: usize) -> Result<
        (),
        FailureKind,
    > {
        let total = (self.spent(resource) + amount) as nat;
        if total <= self.limits.allowance(resource) {
            Ok(())
        } else {
            Err(
                FailureKind::ResourceExhausted(
                    refusal(resource, self.limits.allowance(resource), total),
                ),
            )
        }
    }

    /// The ledger after charging an amount: a refused charge changes nothing.
    pub open spec fn charged(self, resource: Resource, amount: usize) -> LedgerView {
        if self.charge_result(resource, amount) is Ok {
            LedgerView {
                limits: self.limits,
                counters: |r: Resource|
                    if r == resource {
                        ResourceUsage::of(
                            (self.spent(resource) + amount) as usize,
                            (self.counters)(resource).held(),
                            (self.counters)(resource).peak(),
                        )
                    } else {
                        (self.counters)(r)
                    },
            }
        } else {
            self
        }
    }
}

/// Charges semantic work before it is done.
pub(crate) fn spend(accounting: &mut TaskAccounting, resource: Resource, amount: usize) -> (r: Result<
    (),
    OperationFailure,
>)
    requires
        !protocol_domain(resource),
    ensures
        outcome(old(accounting).book().charge_result(resource, amount), r),
        final(accounting).book() == old(accounting).book().charged(resource, amount),
        semantic_work(*old(accounting), *final(accounting)),
{
    let r = accounting.charge(resource, amount);
    assert(accounting.book() =~= old(accounting).book().charged(resource, amount));
    match r {
        Ok(()) => Ok(()),
        Err(error) => Err(OperationFailure::exhausted(error)),
    }
}

/// Semantic work on a ledger after semantic work is semantic work.
pub broadcast proof fn semantic_work_chains(a: TaskAccounting, b: TaskAccounting, c: TaskAccounting)
    requires
        #[trigger] semantic_work(a, b),
        #[trigger] semantic_work(b, c),
    ensures
        semantic_work(a, c),
{
    crate::accounting::precedence_is_transitive(a, b, c);
    assert forall|r: Resource|
        protocol_domain(r) implies #[trigger] c.counters(r) == a.counters(r) by {
        assert(b.counters(r) == a.counters(r));
    }
}

/// No work is semantic work.
pub broadcast proof fn idleness_is_semantic_work(ledger: TaskAccounting)
    ensures
        #[trigger] semantic_work(ledger, ledger),
{
}

/// A ledger as a value takes a charge exactly as the ledger does: where what was spent and the amount
/// are within the allowance, and then by adding the amount to its domain alone.
pub proof fn books_take_charges_up_to_their_allowance(
    book: LedgerView,
    resource: Resource,
    amount: usize,
    other: Resource,
)
    ensures
        book.charge_result(resource, amount) is Ok <==> book.spent(resource) + amount
            <= book.limits.allowance(resource),
        book.charge_result(resource, amount) matches Err(kind) ==> {
            &&& kind matches FailureKind::ResourceExhausted(error)
            &&& error.resource == resource
            &&& error.limit == book.limits.allowance(resource)
            &&& book.spent(resource) + amount <= usize::MAX ==> error.observed == book.spent(
                resource,
            ) + amount
            &&& book.charged(resource, amount) == book
        },
        book.charge_result(resource, amount) is Ok ==> {
            let later = book.charged(resource, amount);
            &&& later.spent(resource) == book.spent(resource) + amount
            &&& later.held(resource) == book.held(resource)
            &&& other != resource ==> (later.counters)(other) == (book.counters)(other)
            &&& later.limits == book.limits
        },
{
}

} // verus!
