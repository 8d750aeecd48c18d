//! Steps of a bounded inspection, and what running them against limits gives.

use crate::accounting::{refusal, Resource, TaskLimits};
use crate::failure::ResourceExhausted;
use crate::text::{decimal, decimal_text};
use vstd::prelude::*;

verus! {

/// Bounds a field's tag and length prefix, or a fixed-width field, in the plan's wire format.
///
/// The largest field number takes two tag bytes, and a varint takes at most ten.
pub const FIELD_BOUND: usize = 12;

/// Bounds the call stack independently of the caller's allowances.
pub const MAX_NESTING: usize = 64;

/// A structural preflight failure containing no caller-owned payload or allocated message.
#[derive(Debug, Clone, Copy, PartialEq, Eq, Structural)]
#[non_exhaustive]
pub enum PlanShapeError {
    /// A plan must have a terminal node.
    Empty,
    /// An operator's input count is invalid.
    InvalidArity {
        /// Index of the invalid node.
        node: usize,
    },
    /// An input is not a preceding node or cannot be encoded without truncation.
    InvalidInput {
        /// Index of the node containing the input.
        node: usize,
    },
    /// Opaque callbacks and unknown executable expressions cannot enter task mode.
    UnsupportedExpression,
    /// A map of the borrowed plan has entries that no producer admitted.
    UnadmittedMap,
    /// A literal does not fit its declared type.
    InvalidLiteral,
    /// A checked resource allowance or the nesting ceiling was exceeded.
    ResourceExhausted(ResourceExhausted),
    /// The caller-provided workspace cannot hold the topology depths.
    ScratchTooSmall {
        /// Required number of `usize` entries.
        required: usize,
    },
}

impl PlanShapeError {
    /// The text of [`PlanShapeError::message`].
    pub open spec fn text(self) -> Seq<char> {
        match self {
            PlanShapeError::Empty => "empty plan"@,
            PlanShapeError::InvalidArity { node } => "invalid input count at plan node "@
                + decimal_text(node as nat),
            PlanShapeError::InvalidInput { node } => "invalid input index at plan node "@
                + decimal_text(node as nat),
            PlanShapeError::UnsupportedExpression => "unsupported task expression"@,
            PlanShapeError::UnadmittedMap => "unadmitted task plan map"@,
            PlanShapeError::InvalidLiteral => "invalid task literal"@,
            PlanShapeError::ResourceExhausted(error) => error.text(),
            PlanShapeError::ScratchTooSmall { required } => "plan scratch requires "@
                + decimal_text(required as nat) + " entries"@,
        }
    }

    /// Describes the refusal without any source.
    pub fn message(&self) -> (s: String)
        ensures
            s@ == self.text(),
    {
        match self {
            PlanShapeError::Empty => "empty plan".to_owned(),
            PlanShapeError::InvalidArity { node } => {
                let mut s = "invalid input count at plan node ".to_owned();
                s.append(decimal(*node).as_str());
                s
            },
            PlanShapeError::InvalidInput { node } => {
                let mut s = "invalid input index at plan node ".to_owned();
                s.append(decimal(*node).as_str());
                s
            },
            PlanShapeError::UnsupportedExpression => "unsupported task expression".to_owned(),
            PlanShapeError::UnadmittedMap => "unadmitted task plan map".to_owned(),
            PlanShapeError::InvalidLiteral => "invalid task literal".to_owned(),
            PlanShapeError::ResourceExhausted(error) => error.message(),
            PlanShapeError::ScratchTooSmall { required } => {
                let mut s = "plan scratch requires ".to_owned();
                s.append(decimal(*required).as_str());
                s.append(" entries");
                s
            },
        }
    }
}

/// What was counted so far.
#[derive(Debug, Clone, Copy, PartialEq, Eq, Structural)]
pub struct Tally {
    /// Encoded bytes.
    pub encoded: usize,
    /// Work units.
    pub work: usize,
    /// Schema nodes.
    pub schema_nodes: usize,
}

impl Tally {
    /// Nothing was counted yet.
    pub open spec fn zero() -> Tally {
        Tally { encoded: 0, work: 0, schema_nodes: 0 }
    }
}

/// One step of an inspection.
pub enum Step {
    /// Work is charged.
    Work(nat),
    /// Encoded bytes are charged.
    Bytes(nat),
    /// One schema node is charged.
    SchemaNode,
    /// A nesting depth is checked.
    Nest(nat),
    /// A topology depth is checked.
    Depth(nat),
    /// The plan is refused.
    Refuse(PlanShapeError),
}

/// The nesting depth that limits allow.
pub open spec fn nesting_cap(limits: TaskLimits) -> usize {
    if limits.allowance(Resource::SchemaDepth) < MAX_NESTING {
        limits.allowance(Resource::SchemaDepth)
    } else {
        MAX_NESTING
    }
}

/// The new total, unless it is over the allowance.
pub open spec fn within(limits: TaskLimits, resource: Resource, total: nat) -> Result<
    usize,
    PlanShapeError,
> {
    if total > limits.allowance(resource) {
        Err(PlanShapeError::ResourceExhausted(refusal(resource, limits.allowance(resource), total)))
    } else {
        Ok(total as usize)
    }
}

/// What one step does to the tally.
pub open spec fn advance(limits: TaskLimits, tally: Tally, step: Step) -> Result<
    Tally,
    PlanShapeError,
> {
    match step {
        Step::Work(amount) => match within(limits, Resource::WorkUnits, tally.work as nat + amount) {
            Ok(work) => Ok(Tally { work, ..tally }),
            Err(error) => Err(error),
        },
        Step::Bytes(amount) => match within(
            limits,
            Resource::PlanEncodedBytes,
            tally.encoded as nat + amount,
        ) {
            Ok(encoded) => Ok(Tally { encoded, ..tally }),
            Err(error) => Err(error),
        },
        Step::SchemaNode => match within(
            limits,
            Resource::SchemaNodes,
            tally.schema_nodes as nat + 1,
        ) {
            Ok(schema_nodes) => Ok(Tally { schema_nodes, ..tally }),
            Err(error) => Err(error),
        },
        Step::Nest(depth) => if depth > nesting_cap(limits) {
            Err(
                PlanShapeError::ResourceExhausted(
                    refusal(Resource::SchemaDepth, nesting_cap(limits), depth),
                ),
            )
        } else {
            Ok(tally)
        },
        Step::Depth(depth) => match within(limits, Resource::PlanDepth, depth) {
            Ok(_) => Ok(tally),
            Err(error) => Err(error),
        },
        Step::Refuse(error) => Err(error),
    }
}

/// What running steps in order gives: the tally behind the last, or the first failure.
pub open spec fn run(limits: TaskLimits, tally: Tally, steps: Seq<Step>) -> Result<
    Tally,
    PlanShapeError,
>
    decreases steps.len(),
{
    if steps.len() == 0 {
        Ok(tally)
    } else {
        match run(limits, tally, steps.drop_last()) {
            Ok(tally) => advance(limits, tally, steps.last()),
            Err(error) => Err(error),
        }
    }
}

/// Running nothing changes nothing.
pub broadcast proof fn run_nothing(limits: TaskLimits, tally: Tally)
    ensures
        #[trigger] run(limits, tally, Seq::<Step>::empty()) == Ok::<Tally, PlanShapeError>(tally),
{
}

/// One more step runs behind the others.
pub broadcast proof fn run_push(limits: TaskLimits, tally: Tally, steps: Seq<Step>, step: Step)
    ensures
        #[trigger] run(limits, tally, steps.push(step)) == (match run(limits, tally, steps) {
            Ok(tally) => advance(limits, tally, step),
            Err(error) => Err(error),
        }),
{
    assert(steps.push(step).drop_last() =~= steps);
}

/// Running steps and then others is running them all.
pub broadcast proof fn run_concat(limits: TaskLimits, tally: Tally, first: Seq<Step>, second: Seq<Step>)
    ensures
        #[trigger] run(limits, tally, first + second) == (match run(limits, tally, first) {
            Ok(tally) => run(limits, tally, second),
            Err(error) => Err(error),
        }),
    decreases second.len(),
{
    if second.len() == 0 {
        assert(first + second =~= first);
    } else {
        run_concat(limits, tally, first, second.drop_last());
        assert((first + second).drop_last() =~= first + second.drop_last());
    }
}

/// How steps compose.
pub broadcast group group_run {
    run_nothing,
    run_push,
    run_concat,
}

/// The steps of the first `n` items of a list.
pub open spec fn flat(each: spec_fn(int) -> Seq<Step>, n: nat) -> Seq<Step>
    decreases n,
{
    if n == 0 {
        Seq::empty()
    } else {
        flat(each, (n - 1) as nat) + each(n - 1)
    }
}

/// A failure at one item is the failure of the whole list.
pub proof fn flat_stops(
    limits: TaskLimits,
    tally: Tally,
    each: spec_fn(int) -> Seq<Step>,
    i: nat,
    n: nat,
)
    requires
        i <= n,
    ensures
        run(limits, tally, flat(each, i)) matches Err(error) ==> run(limits, tally, flat(each, n))
            == Err::<Tally, PlanShapeError>(error),
    decreases n,
{
    broadcast use group_run;

    if i < n {
        flat_stops(limits, tally, each, i, (n - 1) as nat);
    }
}

/// The work that steps charge.
pub open spec fn work_of(steps: Seq<Step>) -> nat
    decreases steps.len(),
{
    if steps.len() == 0 {
        0
    } else {
        work_of(steps.drop_last()) + (match steps.last() {
            Step::Work(amount) => amount,
            _ => 0,
        })
    }
}

/// The encoded bytes that steps charge.
pub open spec fn bytes_of(steps: Seq<Step>) -> nat
    decreases steps.len(),
{
    if steps.len() == 0 {
        0
    } else {
        bytes_of(steps.drop_last()) + (match steps.last() {
            Step::Bytes(amount) => amount,
            _ => 0,
        })
    }
}

/// The schema nodes that steps charge.
pub open spec fn nodes_of(steps: Seq<Step>) -> nat
    decreases steps.len(),
{
    if steps.len() == 0 {
        0
    } else {
        nodes_of(steps.drop_last()) + (match steps.last() {
            Step::SchemaNode => 1nat,
            _ => 0,
        })
    }
}

/// A step that no total decides is allowed.
pub open spec fn allowed(limits: TaskLimits, step: Step) -> bool {
    match step {
        Step::Nest(depth) => depth <= nesting_cap(limits),
        Step::Depth(depth) => depth <= limits.allowance(Resource::PlanDepth),
        Step::Refuse(_) => false,
        _ => true,
    }
}

/// A tally is within its allowances.
pub open spec fn affordable(limits: TaskLimits, work: int, encoded: int, schema_nodes: int) -> bool {
    &&& work <= limits.allowance(Resource::WorkUnits)
    &&& encoded <= limits.allowance(Resource::PlanEncodedBytes)
    &&& schema_nodes <= limits.allowance(Resource::SchemaNodes)
}

/// An inspection succeeds exactly where every depth is allowed, nothing is refused and the sums
/// of all charges are within the allowances; it then counts these sums.
pub proof fn inspections_add_up(limits: TaskLimits, tally: Tally, steps: Seq<Step>)
    requires
        affordable(limits, tally.work as int, tally.encoded as int, tally.schema_nodes as int),
    ensures
        run(limits, tally, steps) is Ok <==> (forall|i: int|
            0 <= i < steps.len() ==> allowed(limits, #[trigger] steps[i])) && affordable(
            limits,
            tally.work + work_of(steps),
            tally.encoded + bytes_of(steps),
            tally.schema_nodes + nodes_of(steps),
        ),
        run(limits, tally, steps) matches Ok(counted) ==> {
            &&& counted.work == tally.work + work_of(steps)
            &&& counted.encoded == tally.encoded + bytes_of(steps)
            &&& counted.schema_nodes == tally.schema_nodes + nodes_of(steps)
        },
    decreases steps.len(),
{
    if steps.len() > 0 {
        let before = steps.drop_last();
        inspections_add_up(limits, tally, before);
        assert forall|i: int| 0 <= i < before.len() implies before[i] == #[trigger] steps[i] by {}
        if run(limits, tally, steps) is Ok {
            assert forall|i: int| 0 <= i < steps.len() implies allowed(limits, #[trigger] steps[i]) by {
                if i < before.len() {
                    assert(allowed(limits, before[i]));
                }
            }
        }
        if forall|i: int| 0 <= i < steps.len() ==> allowed(limits, #[trigger] steps[i]) {
            assert(allowed(limits, steps[steps.len() - 1]));
            assert forall|i: int| 0 <= i < before.len() implies allowed(
                limits,
                #[trigger] before[i],
            ) by {
                assert(allowed(limits, steps[i]));
            }
        }
    }
}

/// More generous limits do not change what an inspection counts.
pub proof fn wider_limits_count_the_same(
    limits: TaskLimits,
    wider: TaskLimits,
    tally: Tally,
    steps: Seq<Step>,
)
    requires
        forall|resource: Resource| #[trigger]
            limits.allowance(resource) <= wider.allowance(resource),
        run(limits, tally, steps) is Ok,
    ensures
        run(wider, tally, steps) == run(limits, tally, steps),
    decreases steps.len(),
{
    if steps.len() > 0 {
        wider_limits_count_the_same(limits, wider, tally, steps.drop_last());
        assert(limits.allowance(Resource::WorkUnits) <= wider.allowance(Resource::WorkUnits));
        assert(limits.allowance(Resource::PlanEncodedBytes) <= wider.allowance(
            Resource::PlanEncodedBytes,
        ));
        assert(limits.allowance(Resource::SchemaNodes) <= wider.allowance(Resource::SchemaNodes));
        assert(limits.allowance(Resource::SchemaDepth) <= wider.allowance(Resource::SchemaDepth));
        assert(limits.allowance(Resource::PlanDepth) <= wider.allowance(Resource::PlanDepth));
    }
}

/// What an inspection counted stays counted.
pub proof fn counts_never_go_back(limits: TaskLimits, tally: Tally, steps: Seq<Step>)
    ensures
        run(limits, tally, steps) matches Ok(counted) ==> {
            &&& tally.work <= counted.work
            &&& tally.encoded <= counted.encoded
            &&& tally.schema_nodes <= counted.schema_nodes
        },
    decreases steps.len(),
{
    if steps.len() > 0 {
        counts_never_go_back(limits, tally, steps.drop_last());
    }
}

} // verus!
