//! The request and resume protocol around one semantic state.

use crate::accounting::{
    precedence_is_transitive, refusal, PendingWork, Resource, ResourceUsage, TaskAccounting,
    TaskLimits, TaskUsage,
};
use crate::failure::{FailureKind, OperationFailure, ResourceExhausted, TaskProtocolError};
use crate::protocol::{
    CancelDisposition, CancelReason, CpuSlice, OperationTask, RequestKey,
    ResponseKind, TaskId, TaskRequest, TaskRequestV1, TaskResponseV1, TaskStep,
};
use vstd::prelude::*;

verus! {

broadcast use {crate::accounting::usage_parts, crate::protocol::key_parts};

/// An unkeyed semantic decision made during one CPU turn.
pub enum TaskAction<T> {
    /// Admit a request before calling `TaskState::take_request` to construct its payload.
    Request,
    /// Continue semantic work in another CPU turn.
    Yield,
    /// Transfer the final admitted output.
    Complete(T),
}

/// A domain whose counters belong to the machine, not to semantic states.
pub open spec fn protocol_domain(resource: Resource) -> bool {
    resource == Resource::Requests || resource == Resource::Yields || resource == Resource::CpuTurns
        || resource == Resource::TaskStateBytes
}

/// `later` is the ledger after semantic work: nothing was reset, and the machine's own domains
/// are as they were.
pub open spec fn semantic_work(ledger: TaskAccounting, later: TaskAccounting) -> bool {
    &&& ledger.precedes(later)
    &&& ledger.wf() ==> later.wf()
    &&& forall|r: Resource|
        protocol_domain(r) ==> #[trigger] later.counters(r) == ledger.counters(r)
}

/// Bounded owned semantic state driven by the shared protocol machine.
///
/// The machine enforces transitions and protocol counters, while each implementation must prove
/// its own CPU and allocation bounds. State retains no driver, handler, iterator or execution
/// context. It may retain admitted pages, descriptors and numeric identities. Dropping state must
/// release that ownership immediately; cancellation does not call a semantic-state hook.
///
/// Producers admit response allocations before resumption. State validates actual response shape,
/// object identity, ordering, nested schemas and backing capacity before retaining them. Use the
/// supplied ledger before copying, allocating or growing, in semantic work domains only; the
/// machine owns request, yield, CPU-turn and total task-state accounting.
pub trait TaskState {
    /// Admitted output transferred once on completion.
    type Output;

    /// Reports conservative dynamic backing allocations without allocating or performing I/O.
    ///
    /// Includes full backing owners and collection capacities, but not the state's own fixed
    /// storage, which the machine counts. Returns typed exhaustion on overflow.
    fn retained_bytes(&self) -> Result<usize, ResourceExhausted>;

    /// `r` is what `advance` may give of this state, with `later` and `after` behind it. A state
    /// that says nothing here may give anything.
    open spec fn advances(
        &self,
        later: &Self,
        cpu: CpuSlice,
        ledger: TaskAccounting,
        after: TaskAccounting,
        r: Result<TaskAction<Self::Output>, OperationFailure>,
    ) -> bool {
        true
    }

    /// `r` is what `take_request` may give of this state.
    open spec fn requests(
        &self,
        later: &Self,
        ledger: TaskAccounting,
        after: TaskAccounting,
        r: Result<TaskRequestV1, OperationFailure>,
    ) -> bool {
        true
    }

    /// `r` is what `resume` may give of this state.
    open spec fn resumes(
        &self,
        later: &Self,
        response: TaskResponseV1,
        cpu: CpuSlice,
        ledger: TaskAccounting,
        after: TaskAccounting,
        r: Result<TaskAction<Self::Output>, OperationFailure>,
    ) -> bool {
        true
    }

    /// Performs at most one CPU slice and returns an unkeyed decision or terminal failure.
    ///
    /// Returning `Request` must not construct or allocate its outgoing payload. Preserve its
    /// bounded source data for `take_request`, which runs only after protocol admission succeeds.
    fn advance(&mut self, cpu: CpuSlice, accounting: &mut TaskAccounting) -> (r: Result<
        TaskAction<Self::Output>,
        OperationFailure,
    >)
        ensures
            semantic_work(*old(accounting), *final(accounting)),
            old(self).advances(final(self), cpu, *old(accounting), *final(accounting), r),
    ;

    /// Materializes the requested effect after checked request-count and identity admission.
    ///
    /// Admit requested I/O and owned payload bytes before allocating or cloning them. Moving
    /// previously admitted ownership is allowed. Return a typed failure on exhaustion or invalid
    /// semantic state; the machine then drops all state without issuing an effect.
    fn take_request(&mut self, accounting: &mut TaskAccounting) -> (r: Result<
        TaskRequestV1,
        OperationFailure,
    >)
        ensures
            semantic_work(*old(accounting), *final(accounting)),
            old(self).requests(final(self), *old(accounting), *final(accounting), r),
    ;

    /// Validates a matching response and performs at most one CPU slice.
    ///
    /// Variant and evaluation-identity checks have already run. Matching operational errors never
    /// reach state. Malformed payloads must return `OperationFailure::malformed_response`; resource
    /// failures must remain terminal rather than triggering semantic fallback.
    fn resume(&mut self, response: TaskResponseV1, cpu: CpuSlice, accounting: &mut TaskAccounting) -> (r:
        Result<TaskAction<Self::Output>, OperationFailure>)
        ensures
            semantic_work(*old(accounting), *final(accounting)),
            old(self).resumes(final(self), response, cpu, *old(accounting), *final(accounting), r),
    ;
}

/// Bounded, source-free protocol status.
#[derive(Debug, Clone, Copy, PartialEq, Eq, Structural)]
pub enum TaskStatus {
    /// The task owns admitted state but has not run.
    New,
    /// The task may run CPU work or await its one pending response.
    Running,
    /// Output was transferred and state was released.
    Complete,
    /// The original failure was transferred; only its fixed category remains.
    Failed(FailureKind),
    /// Cancellation released semantic state.
    Cancelled,
}

impl TaskStatus {
    /// Nothing can follow.
    pub open spec fn is_terminal(self) -> bool {
        self is Complete || self is Failed || self is Cancelled
    }
}

/// What the machine observes of its own storage: the retained bytes, and the total at the moment
/// a request is handed over.
pub open spec fn observation(
    limit: usize,
    fixed: nat,
    dynamic: Result<usize, ResourceExhausted>,
    outgoing: Option<Option<usize>>,
) -> Result<(usize, usize), ResourceExhausted> {
    let overflow = ResourceExhausted {
        resource: Resource::TaskStateBytes,
        limit,
        observed: usize::MAX,
    };
    match dynamic {
        Err(error) => Err(error),
        Ok(dynamic) => {
            let retained = fixed + dynamic;
            if retained > usize::MAX {
                Err(overflow)
            } else {
                match outgoing {
                    None => if retained <= limit {
                        Ok((retained as usize, retained as usize))
                    } else {
                        Err(refusal(Resource::TaskStateBytes, limit, retained as nat))
                    },
                    Some(None) => Err(overflow),
                    Some(Some(owned)) => {
                        let total = retained + owned;
                        if total <= limit {
                            Ok((retained as usize, total as usize))
                        } else {
                            Err(refusal(Resource::TaskStateBytes, limit, total as nat))
                        }
                    },
                }
            }
        },
    }
}

/// `later` is the ledger after the storage was observed.
pub open spec fn observed(
    ledger: TaskAccounting,
    later: TaskAccounting,
    observation: Result<(usize, usize), ResourceExhausted>,
) -> bool {
    let usage = ledger.counters(Resource::TaskStateBytes);
    match observation {
        Err(_) => later == ledger,
        Ok((retained, total)) => ledger.updated(
            later,
            Resource::TaskStateBytes,
            ResourceUsage::of(
                usage.spent(),
                retained,
                if usage.peak() < total { total } else { usage.peak() },
            ),
        ),
    }
}

/// `later` is the ledger after all live amounts but the task's fixed storage were released.
pub open spec fn cleared(ledger: TaskAccounting, later: TaskAccounting, fixed: usize) -> bool {
    &&& later.allowances() == ledger.allowances()
    &&& forall|r: Resource|
        #[trigger] later.counters(r) == ResourceUsage::of(
            ledger.counters(r).spent(),
            if r == Resource::TaskStateBytes { fixed } else { 0 },
            ledger.counters(r).peak(),
        )
}

/// What admitting a CPU turn gives.
pub open spec fn turn_result(ledger: TaskAccounting, cpu: CpuSlice) -> Result<(), ResourceExhausted> {
    if !ledger.admits(Resource::TurnRecords, cpu.record_cap() as nat) {
        Err(
            refusal(
                Resource::TurnRecords,
                ledger.allowance(Resource::TurnRecords),
                cpu.record_cap() as nat,
            ),
        )
    } else if !ledger.admits(Resource::TurnInputBytes, cpu.byte_cap() as nat) {
        Err(
            refusal(
                Resource::TurnInputBytes,
                ledger.allowance(Resource::TurnInputBytes),
                cpu.byte_cap() as nat,
            ),
        )
    } else if !ledger.admits(Resource::TurnPlanNodes, cpu.node_cap() as nat) {
        Err(
            refusal(
                Resource::TurnPlanNodes,
                ledger.allowance(Resource::TurnPlanNodes),
                cpu.node_cap() as nat,
            ),
        )
    } else {
        ledger.charge_result(Resource::CpuTurns, 1)
    }
}

/// Shared request/resume protocol owning exactly one semantic continuation.
///
/// The machine releases the continuation before returning completion, failure or cancellation.
/// Its terminal state retains fixed protocol fields and numeric accounting only. Payload admission
/// and CPU compliance remain the concrete `TaskState` implementer's obligations.
pub struct TaskMachine<S: TaskState> {
    id: TaskId,
    next_request: u64,
    status: TaskStatus,
    pending: Option<(RequestKey, ResponseKind)>,
    semantic: Option<S>,
    accounting: TaskAccounting,
}

impl<S: TaskState> TaskMachine<S> {
    /// The bytes of the machine itself.
    pub open spec fn fixed() -> nat {
        vstd::layout::size_of::<TaskMachine<S>>()
    }

    /// The task's identity.
    pub closed spec fn task(self) -> u64 {
        self.id.number()
    }

    /// The sequence number of the next request.
    pub closed spec fn next(self) -> u64 {
        self.next_request
    }

    /// The status.
    pub closed spec fn state(self) -> TaskStatus {
        self.status
    }

    /// The outstanding request and the response that it expects.
    pub closed spec fn awaiting(self) -> Option<(RequestKey, ResponseKind)> {
        self.pending
    }

    /// The semantic state.
    pub closed spec fn continuation(self) -> Option<S> {
        self.semantic
    }

    /// The ledger.
    pub closed spec fn ledger(self) -> TaskAccounting {
        self.accounting
    }

    /// The protocol's invariant: a continuation is owned exactly while the task can run, a request
    /// is outstanding only while it runs, and its key is the last one issued.
    pub open spec fn wf(self) -> bool {
        &&& self.ledger().wf()
        &&& TaskMachine::<S>::fixed() <= self.ledger().counters(Resource::TaskStateBytes).peak()
        &&& self.continuation() is Some <==> !self.state().is_terminal()
        &&& self.awaiting() is Some ==> self.state() is Running
        &&& self.next() >= 1
        &&& self.awaiting() matches Some((key, kind)) ==> {
            &&& key == RequestKey::of(self.task(), (self.next() - 1) as u64)
            &&& self.next() >= 2
            &&& kind matches ResponseKind::Evaluation(evaluation) ==> evaluation.owner()
                == self.task()
        }
    }

    /// Everything but the ledger is the same.
    pub open spec fn same_protocol(self, later: TaskMachine<S>) -> bool {
        &&& later.task() == self.task()
        &&& later.next() == self.next()
        &&& later.state() == self.state()
        &&& later.awaiting() == self.awaiting()
        &&& later.continuation() == self.continuation()
    }

    /// The task has released what it owned and keeps only its status and its numbers.
    pub open spec fn released(self, later: TaskMachine<S>) -> bool {
        &&& later.task() == self.task()
        &&& later.next() == self.next()
        &&& later.awaiting() is None
        &&& later.continuation() is None
        &&& self.ledger().precedes(later.ledger())
        &&& forall|r: Resource|
            (#[trigger] later.ledger().counters(r)).held() == if r == Resource::TaskStateBytes {
                TaskMachine::<S>::fixed()
            } else {
                0
            }
    }

    /// The task has released what it owned and nothing else happened: what was spent and the peaks
    /// are what they were.
    pub open spec fn let_go(self, later: TaskMachine<S>) -> bool {
        &&& self.released(later)
        &&& later.ledger().allowances() == self.ledger().allowances()
        &&& forall|r: Resource|
            {
                let counters = #[trigger] later.ledger().counters(r);
                &&& counters.spent() == self.ledger().counters(r).spent()
                &&& counters.peak() == self.ledger().counters(r).peak()
            }
    }

    /// What a turn that was begun without an outstanding request leaves behind.
    pub open spec fn stepped(self, later: TaskMachine<S>, step: TaskStep<S::Output>) -> bool {
        match step {
            TaskStep::Execute(request) => {
                &&& later.task() == self.task()
                &&& later.state() is Running
                &&& later.continuation() is Some
                &&& request.key == RequestKey::of(self.task(), self.next())
                &&& later.awaiting() == Some((request.key, request.operation.expects()))
                &&& later.next() == self.next() + 1
                &&& (request.operation.expects() matches ResponseKind::Evaluation(evaluation)
                    ==> evaluation.owner() == self.task())
                &&& self.ledger().precedes(later.ledger())
                &&& later.ledger().counters(Resource::Requests).spent()
                    == self.ledger().counters(Resource::Requests).spent() + 1
                &&& later.ledger().counters(Resource::Yields).spent()
                    == self.ledger().counters(Resource::Yields).spent()
            },
            TaskStep::Yield => {
                &&& later.task() == self.task()
                &&& later.state() is Running
                &&& later.continuation() is Some
                &&& later.awaiting() is None
                &&& later.next() == self.next()
                &&& self.ledger().precedes(later.ledger())
                &&& later.ledger().counters(Resource::Yields).spent()
                    == self.ledger().counters(Resource::Yields).spent() + 1
                &&& later.ledger().counters(Resource::Requests).spent()
                    == self.ledger().counters(Resource::Requests).spent()
            },
            TaskStep::Complete(_) => later.state() is Complete && self.released(later),
            TaskStep::Failed(failure) => later.state() == TaskStatus::Failed(failure.category())
                && self.released(later),
            TaskStep::Cancelled => false,
        }
    }

    /// What the state reports of its storage.
    pub open spec fn reports(self, dynamic: Result<usize, ResourceExhausted>) -> bool {
        match self.continuation() {
            Some(state) => call_ensures(S::retained_bytes, (&state,), dynamic),
            None => dynamic == Ok::<usize, ResourceExhausted>(0),
        }
    }

    /// What observing the storage gives, with an outgoing request where there is one.
    pub open spec fn storage_seen(
        self,
        dynamic: Result<usize, ResourceExhausted>,
        outgoing: Option<Option<usize>>,
    ) -> Result<(), FailureKind> {
        match observation(
            self.ledger().allowance(Resource::TaskStateBytes),
            TaskMachine::<S>::fixed(),
            dynamic,
            outgoing,
        ) {
            Ok(_) => Ok(()),
            Err(error) => Err(FailureKind::ResourceExhausted(error)),
        }
    }

    /// The storage that an admitted observation records, live and with an outgoing request, or none
    /// where the observation is refused.
    pub open spec fn recorded(
        self,
        dynamic: Result<usize, ResourceExhausted>,
        outgoing: Option<Option<usize>>,
    ) -> Option<(usize, usize)> {
        match observation(
            self.ledger().allowance(Resource::TaskStateBytes),
            TaskMachine::<S>::fixed(),
            dynamic,
            outgoing,
        ) {
            Ok(parts) => Some(parts),
            Err(_) => None,
        }
    }

    /// `later` has this machine's ledger, one unit more in a domain where one was charged, and the
    /// storage that was recorded, where any was. A task that was `freed` holds its own bytes alone.
    /// Nothing else of the ledger changed.
    pub open spec fn settles(
        self,
        later: TaskMachine<S>,
        unit: Option<Resource>,
        recorded: Option<(usize, usize)>,
        freed: bool,
    ) -> bool {
        &&& later.ledger().allowances() == self.ledger().allowances()
        &&& forall|r: Resource|
            {
                let now = #[trigger] later.ledger().counters(r);
                let before = self.ledger().counters(r);
                let own = r == Resource::TaskStateBytes;
                &&& now.spent() == before.spent() + (if unit == Some(r) {
                    1int
                } else {
                    0int
                })
                &&& now.peak() == (match recorded {
                    Some((_, total)) if own && before.peak() < total => total,
                    _ => before.peak(),
                })
                &&& now.held() == (if freed {
                    if own {
                        TaskMachine::<S>::fixed()
                    } else {
                        0
                    }
                } else {
                    match recorded {
                        Some((retained, _)) if own => retained as nat,
                        _ => before.held() as nat,
                    }
                })
            }
    }

    /// What charging one unit to a domain of the machine gives.
    pub open spec fn unit_charged(self, resource: Resource) -> Result<(), FailureKind> {
        match self.ledger().charge_result(resource, 1) {
            Ok(()) => Ok(()),
            Err(error) => Err(FailureKind::ResourceExhausted(error)),
        }
    }

    /// Whether another request may be made, before its payload is.
    pub open spec fn requesting(self) -> Result<(), FailureKind> {
        if self.next() == u64::MAX {
            Err(FailureKind::IdentityExhausted)
        } else {
            self.unit_charged(Resource::Requests)
        }
    }

    /// The request is about an evaluation of another task.
    pub open spec fn is_foreign(self, operation: TaskRequestV1) -> bool {
        operation.expects() matches ResponseKind::Evaluation(evaluation) && evaluation.owner()
            != self.task()
    }

    /// Whether a made request may be handed over.
    pub open spec fn handing(
        self,
        dynamic: Result<usize, ResourceExhausted>,
        owned: Option<usize>,
    ) -> Result<(), FailureKind> {
        match self.storage_seen(dynamic, Some(owned)) {
            Err(kind) => Err(kind),
            Ok(()) => if self.task() == 0 || self.next() == 0 {
                Err(FailureKind::IdentityExhausted)
            } else {
                self.unit_charged(Resource::Requests)
            },
        }
    }

    /// The step is the expected one, or a failure of the expected category.
    pub open spec fn told(
        expected: Result<TaskStep<S::Output>, FailureKind>,
        step: TaskStep<S::Output>,
    ) -> bool {
        match expected {
            Ok(expected) => step == expected,
            Err(kind) => step matches TaskStep::Failed(failure) && failure.is_terminal(kind),
        }
    }

    /// The step that hands over a made request, with the storage behind its texts as measured. Only
    /// a request that is handed over is charged. `freed` says whether a failed task was released.
    pub open spec fn handed_over(
        self,
        later: TaskMachine<S>,
        operation: TaskRequestV1,
        dynamic: Result<usize, ResourceExhausted>,
        first: usize,
        second: usize,
        step: TaskStep<S::Output>,
        freed: bool,
    ) -> bool {
        &&& self.reports(dynamic)
        &&& self.settles(
            later,
            if step is Execute {
                Some(Resource::Requests)
            } else {
                None
            },
            self.recorded(dynamic, Some(operation.owned_total(first, second))),
            freed && !(step is Execute),
        )
        &&& first >= operation.first_text()
        &&& second >= operation.second_text()
        &&& TaskMachine::<S>::told(
            match self.handing(dynamic, operation.owned_total(first, second)) {
                Ok(()) => Ok(
                    TaskStep::Execute(
                        TaskRequest { key: RequestKey::of(self.task(), self.next()), operation },
                    ),
                ),
                Err(kind) => Err(kind),
            },
            step,
        )
    }

    /// The step that follows from what the state gave as its request, with `made` behind it.
    pub open spec fn request_followed(
        self,
        later: TaskMachine<S>,
        made: TaskMachine<S>,
        taken: Result<TaskRequestV1, OperationFailure>,
        step: TaskStep<S::Output>,
        freed: bool,
    ) -> bool {
        &&& made.task() == self.task()
        &&& made.next() == self.next()
        &&& self.continuation() matches Some(state)
        &&& made.continuation() matches Some(left)
        &&& state.requests(&left, self.ledger(), made.ledger(), taken)
        &&& step is Execute ==> made.keeps_work(later)
        &&& semantic_work(self.ledger(), made.ledger())
        &&& match taken {
            Err(failure) => step == TaskStep::<S::Output>::Failed(failure) && made.settles(
                later,
                None,
                None,
                freed,
            ),
            Ok(operation) => if self.is_foreign(operation) {
                TaskMachine::<S>::told(Err(FailureKind::MalformedResponse), step) && made.settles(
                    later,
                    None,
                    None,
                    freed,
                )
            } else {
                exists|dynamic: Result<usize, ResourceExhausted>, first: usize, second: usize|
                    #[trigger] made.handed_over(
                        later,
                        operation,
                        dynamic,
                        first,
                        second,
                        step,
                        freed,
                    )
            },
        }
    }

    /// `later` has the same state, and the same counters of semantic work.
    pub open spec fn keeps_work(self, later: TaskMachine<S>) -> bool {
        &&& later.continuation() == self.continuation()
        &&& later.ledger().allowances() == self.ledger().allowances()
        &&& forall|r: Resource|
            !protocol_domain(r) ==> #[trigger] later.ledger().counters(r)
                == self.ledger().counters(r)
    }

    /// The step that follows from what the state decided. A request is admitted before the state
    /// makes it; nothing but the reported storage and the allowances stands between a decision and
    /// its step. What the ledger shows behind it is that alone, and `freed` says whether a failed
    /// task was released.
    pub open spec fn concluded(
        self,
        later: TaskMachine<S>,
        action: Result<TaskAction<S::Output>, OperationFailure>,
        step: TaskStep<S::Output>,
        freed: bool,
    ) -> bool {
        match action {
            Err(failure) => step == TaskStep::<S::Output>::Failed(failure) && self.settles(
                later,
                None,
                None,
                freed,
            ),
            Ok(TaskAction::Yield) => match self.unit_charged(Resource::Yields) {
                Err(kind) => TaskMachine::<S>::told(Err(kind), step) && self.settles(
                    later,
                    None,
                    None,
                    freed,
                ),
                Ok(()) => {
                    &&& step is Yield ==> self.keeps_work(later)
                    &&& exists|dynamic: Result<usize, ResourceExhausted>|
                        {
                            &&& #[trigger] self.reports(dynamic)
                            &&& TaskMachine::<S>::told(
                                match self.storage_seen(dynamic, None) {
                                    Ok(()) => Ok(TaskStep::Yield),
                                    Err(kind) => Err(kind),
                                },
                                step,
                            )
                            &&& self.settles(
                                later,
                                Some(Resource::Yields),
                                self.recorded(dynamic, None),
                                freed && !(step is Yield),
                            )
                        }
                },
            },
            Ok(TaskAction::Complete(output)) => exists|dynamic: Result<usize, ResourceExhausted>|
                {
                    &&& #[trigger] self.reports(dynamic)
                    &&& TaskMachine::<S>::told(
                        match self.storage_seen(dynamic, None) {
                            Ok(()) => Ok(TaskStep::Complete(output)),
                            Err(kind) => Err(kind),
                        },
                        step,
                    )
                    &&& self.settles(
                        later,
                        None,
                        self.recorded(dynamic, None),
                        freed || step is Complete,
                    )
                },
            Ok(TaskAction::Request) => match self.requesting() {
                Err(kind) => TaskMachine::<S>::told(Err(kind), step) && self.settles(
                    later,
                    None,
                    None,
                    freed,
                ),
                Ok(()) => exists|
                    made: TaskMachine<S>,
                    taken: Result<TaskRequestV1, OperationFailure>,
                | #[trigger]
                    self.request_followed(later, made, taken, step, freed),
            },
        }
    }

    /// What the state does in an admitted turn: it takes the response, where one is given, and
    /// advances.
    pub open spec fn works(
        self,
        worked: TaskMachine<S>,
        given: Option<TaskResponseV1>,
        cpu: CpuSlice,
        admitted: TaskAccounting,
        action: Result<TaskAction<S::Output>, OperationFailure>,
    ) -> bool {
        &&& self.ledger().charged(admitted, Resource::CpuTurns, 1)
        &&& semantic_work(admitted, worked.ledger())
        &&& worked.task() == self.task()
        &&& worked.next() == self.next()
        &&& self.continuation() matches Some(state)
        &&& worked.continuation() matches Some(left)
        &&& match given {
            None => state.advances(&left, cpu, admitted, worked.ledger(), action),
            Some(response) => state.resumes(
                &left,
                response,
                cpu,
                admitted,
                worked.ledger(),
                action,
            ),
        }
    }

    /// The step that follows from an admitted turn, with `worked` behind the state's work.
    pub open spec fn turn_followed(
        self,
        later: TaskMachine<S>,
        worked: TaskMachine<S>,
        given: Option<TaskResponseV1>,
        cpu: CpuSlice,
        action: Result<TaskAction<S::Output>, OperationFailure>,
        step: TaskStep<S::Output>,
    ) -> bool {
        &&& exists|admitted: TaskAccounting| #[trigger]
            self.works(worked, given, cpu, admitted, action)
        &&& worked.concluded(later, action, step, true)
    }

    /// A turn with the given allowances: a refused turn fails without semantic work, an admitted
    /// one is counted, and its step follows from what the state decided.
    pub open spec fn turned(
        self,
        later: TaskMachine<S>,
        given: Option<TaskResponseV1>,
        cpu: CpuSlice,
        step: TaskStep<S::Output>,
    ) -> bool {
        &&& self.stepped(later, step)
        &&& match turn_result(self.ledger(), cpu) {
            Err(error) => {
                &&& step matches TaskStep::Failed(failure) && failure.is_terminal(
                    FailureKind::ResourceExhausted(error),
                )
                &&& self.let_go(later)
            },
            Ok(()) => {
                &&& later.ledger().counters(Resource::CpuTurns).spent() == self.ledger().counters(
                    Resource::CpuTurns,
                ).spent() + 1
                &&& exists|
                    worked: TaskMachine<S>,
                    action: Result<TaskAction<S::Output>, OperationFailure>,
                | #[trigger]
                    self.turn_followed(later, worked, given, cpu, action, step)
            },
        }
    }

    /// What a turn needs of the machine.
    pub open spec fn runnable(self) -> bool {
        self.wf() && self.state() is Running && self.awaiting() is None
    }

    /// The machine of a token and a state that has not run.
    pub open spec fn begins(self, id: TaskId, semantic: S, limits: TaskLimits) -> bool {
        &&& self.wf()
        &&& self.task() == id.number()
        &&& self.next() == 1
        &&& self.state() is New
        &&& self.awaiting() is None
        &&& self.continuation() == Some(semantic)
        &&& self.ledger().allowances() == limits
        &&& forall|r: Resource|
            r != Resource::TaskStateBytes ==> #[trigger] self.ledger().counters(r)
                == ResourceUsage::of(0, 0, 0)
    }

    /// `r` is what beginning with a state gives that reports its storage.
    pub open spec fn begun(
        id: TaskId,
        semantic: S,
        limits: TaskLimits,
        dynamic: Result<usize, ResourceExhausted>,
        r: Result<TaskMachine<S>, OperationFailure>,
    ) -> bool {
        &&& call_ensures(S::retained_bytes, (&semantic,), dynamic)
        &&& match observation(
            limits.allowance(Resource::TaskStateBytes),
            TaskMachine::<S>::fixed(),
            dynamic,
            None,
        ) {
            Err(error) => r matches Err(failure) && failure.is_terminal(
                FailureKind::ResourceExhausted(error),
            ),
            Ok((retained, _)) => {
                &&& r matches Ok(machine)
                &&& machine.begins(id, semantic, limits)
                &&& machine.ledger().counters(Resource::TaskStateBytes) == ResourceUsage::of(
                    0,
                    retained,
                    retained,
                )
            },
        }
    }

    /// Consumes a unique driver token and already admitted semantic state.
    ///
    /// Validates fixed storage and reported backing bytes before retention. Exhaustion drops
    /// the supplied state and returns a typed failure; it cannot undo prior producer allocation.
    pub fn new(id: TaskId, semantic: S, limits: TaskLimits) -> (r: Result<
        TaskMachine<S>,
        OperationFailure,
    >)
        ensures
            exists|dynamic: Result<usize, ResourceExhausted>| #[trigger]
                TaskMachine::begun(id, semantic, limits, dynamic, r),
    {
        let mut task = TaskMachine {
            id,
            next_request: 1,
            status: TaskStatus::New,
            pending: None,
            semantic: Some(semantic),
            accounting: TaskAccounting::new(limits),
        };
        let ghost fresh = task;
        let seen = task.observe(None);
        let ghost dynamic = choose|dynamic: Result<usize, ResourceExhausted>|
            {
                let seen_now = observation(
                    fresh.ledger().allowance(Resource::TaskStateBytes),
                    TaskMachine::<S>::fixed(),
                    dynamic,
                    None,
                );
                &&& #[trigger] fresh.reports(dynamic)
                &&& seen == (match seen_now {
                    Ok(_) => Ok::<(), ResourceExhausted>(()),
                    Err(error) => Err(error),
                })
                &&& observed(fresh.ledger(), task.ledger(), seen_now)
            };
        let r = match seen {
            Ok(()) => Ok(task),
            Err(error) => Err(OperationFailure::exhausted(error)),
        };
        assert(TaskMachine::begun(id, semantic, limits, dynamic, r));
        r
    }

    /// Returns the fixed protocol status without exposing semantic ownership.
    pub fn status(&self) -> (status: TaskStatus)
        ensures
            status == self.state(),
    {
        self.status
    }

    /// Returns the driver identity consumed when the task was constructed.
    pub fn task_id(&self) -> (id: u64)
        ensures
            id == self.task(),
    {
        self.id.get()
    }

    /// Returns the one outstanding key, if any.
    pub fn pending_key(&self) -> (key: Option<RequestKey>)
        ensures
            key == (match self.awaiting() {
                Some((key, _)) => Some(key),
                None => None,
            }),
    {
        match self.pending {
            Some((key, _)) => Some(key),
            None => None,
        }
    }

    /// Borrows numeric accounting, including cumulative work retained after terminal cleanup.
    pub fn accounting(&self) -> (usage: TaskUsage<'_>)
        ensures
            usage.ledger() == self.ledger(),
    {
        TaskUsage::of(&self.accounting)
    }

    /// Whether semantic state is still owned.
    pub fn owns_state(&self) -> (r: bool)
        ensures
            r == (self.continuation() is Some),
    {
        self.semantic.is_some()
    }

    /// Continues the request sequence of an unstarted task at a later number.
    pub fn starting_at(self, next_request: u64) -> (machine: TaskMachine<S>)
        ensures
            machine.next() == next_request,
            machine.task() == self.task(),
            machine.state() == self.state(),
            machine.awaiting() == self.awaiting(),
            machine.continuation() == self.continuation(),
            machine.ledger() == self.ledger(),
            self.wf() && self.state() is New && next_request >= 1 ==> machine.wf(),
    {
        TaskMachine { next_request, ..self }
    }

    /// Charges work that was admitted before the task was made.
    pub(crate) fn prepay(&mut self, units: usize) -> (r: Result<(), ResourceExhausted>)
        ensures
            r == old(self).ledger().charge_result(Resource::WorkUnits, units),
            old(self).ledger().charged(final(self).ledger(), Resource::WorkUnits, units),
            old(self).same_protocol(*final(self)),
            old(self).wf() ==> final(self).wf(),
    {
        self.accounting.charge(Resource::WorkUnits, units)
    }

    /// What `require_running` gives.
    pub open spec fn running_result(self) -> Result<(), TaskProtocolError> {
        match self.state() {
            TaskStatus::New => Err(TaskProtocolError::NotStarted),
            TaskStatus::Running => Ok(()),
            _ => Err(TaskProtocolError::Terminal),
        }
    }

    fn require_running(&self) -> (r: Result<(), TaskProtocolError>)
        ensures
            r == self.running_result(),
    {
        match self.status {
            TaskStatus::New => Err(TaskProtocolError::NotStarted),
            TaskStatus::Running => Ok(()),
            _ => Err(TaskProtocolError::Terminal),
        }
    }

    fn admit_turn(&mut self, cpu: CpuSlice) -> (r: Result<(), ResourceExhausted>)
        ensures
            r == turn_result(old(self).ledger(), cpu),
            old(self).same_protocol(*final(self)),
            r is Err ==> final(self).ledger() == old(self).ledger(),
            r is Ok ==> old(self).ledger().charged(final(self).ledger(), Resource::CpuTurns, 1),
            old(self).ledger().precedes(final(self).ledger()),
            old(self).ledger().wf() ==> final(self).ledger().wf(),
    {
        self.accounting.check(Resource::TurnRecords, cpu.records())?;
        self.accounting.check(Resource::TurnInputBytes, cpu.bytes())?;
        self.accounting.check(Resource::TurnPlanNodes, cpu.plan_nodes())?;
        self.accounting.charge(Resource::CpuTurns, 1)
    }

    fn advance_turn(&mut self, cpu: CpuSlice) -> (step: TaskStep<S::Output>)
        ensures
            old(self).runnable() ==> old(self).turned(*final(self), None, cpu, step)
                && final(self).wf(),
    {
        let ghost before = *self;
        if let Err(error) = self.admit_turn(cpu) {
            let ghost admitted = *self;
            let step = self.fail(OperationFailure::exhausted(error));
            proof {
                precedence_is_transitive(before.ledger(), admitted.ledger(), self.ledger());
            }
            return step;
        }
        let ghost admitted = *self;
        let action = match &mut self.semantic {
            Some(state) => state.advance(cpu, &mut self.accounting),
            None => Err(OperationFailure::malformed_response()),
        };
        let ghost worked = *self;
        let ghost decided = action;
        let step = self.finish_action(action);
        proof {
            if before.runnable() {
                precedence_is_transitive(before.ledger(), admitted.ledger(), worked.ledger());
                precedence_is_transitive(before.ledger(), worked.ledger(), self.ledger());
                assert(before.works(worked, None, cpu, admitted.ledger(), decided));
                assert(before.turn_followed(*self, worked, None, cpu, decided, step));
            }
        }
        step
    }

    fn resume_turn(&mut self, response: TaskResponseV1, cpu: CpuSlice) -> (step: TaskStep<S::Output>)
        ensures
            old(self).runnable() ==> old(self).turned(*final(self), Some(response), cpu, step)
                && final(self).wf(),
    {
        let ghost before = *self;
        let ghost given = response;
        if let Err(error) = self.admit_turn(cpu) {
            let ghost admitted = *self;
            let step = self.fail(OperationFailure::exhausted(error));
            proof {
                precedence_is_transitive(before.ledger(), admitted.ledger(), self.ledger());
            }
            return step;
        }
        let ghost admitted = *self;
        let action = match &mut self.semantic {
            Some(state) => state.resume(response, cpu, &mut self.accounting),
            None => Err(OperationFailure::malformed_response()),
        };
        let ghost worked = *self;
        let ghost decided = action;
        let step = self.finish_action(action);
        proof {
            if before.runnable() {
                precedence_is_transitive(before.ledger(), admitted.ledger(), worked.ledger());
                precedence_is_transitive(before.ledger(), worked.ledger(), self.ledger());
                assert(before.works(worked, Some(given), cpu, admitted.ledger(), decided));
                assert(before.turn_followed(*self, worked, Some(given), cpu, decided, step));
            }
        }
        step
    }

    fn finish_action(&mut self, action: Result<TaskAction<S::Output>, OperationFailure>) -> (step:
        TaskStep<S::Output>)
        ensures
            old(self).runnable() ==> old(self).stepped(*final(self), step) && final(self).wf(),
            final(self).ledger().counters(Resource::CpuTurns).spent()
                == old(self).ledger().counters(Resource::CpuTurns).spent(),
            old(self).runnable() ==> old(self).concluded(*final(self), action, step, true),
    {
        let ghost before = *self;
        let action = match action {
            Ok(action) => action,
            Err(error) => return self.fail(error),
        };
        let ghost decided = action;
        let error = match self.finish_checked(action) {
            Ok(step) => {
                proof {
                    if before.runnable() {
                        released_steps_conclude(before, *self, *self, decided, step);
                    }
                }
                return step;
            },
            Err(error) => error,
        };
        let ghost refused = *self;
        let step = self.fail(error);
        proof {
            if before.runnable() {
                precedence_is_transitive(before.ledger(), refused.ledger(), self.ledger());
                released_steps_conclude(before, refused, *self, decided, step);
            }
        }
        step
    }

    fn finish_checked(&mut self, action: TaskAction<S::Output>) -> (r: Result<
        TaskStep<S::Output>,
        OperationFailure,
    >)
        ensures
            r matches Ok(step) ==> !(step is Failed),
            r matches Ok(step) ==> old(self).runnable() ==> old(self).stepped(*final(self), step)
                && final(self).wf(),
            old(self).runnable() ==> old(self).concluded(
                *final(self),
                Ok(action),
                match r {
                    Ok(step) => step,
                    Err(failure) => TaskStep::Failed(failure),
                },
                false,
            ),
            r is Err && old(self).runnable() ==> {
                &&& old(self).ledger().precedes(final(self).ledger())
                &&& final(self).ledger().wf()
                &&& final(self).task() == old(self).task()
                &&& final(self).next() == old(self).next()
                &&& TaskMachine::<S>::fixed() <= final(self).ledger().counters(
                    Resource::TaskStateBytes,
                ).peak()
            },
            final(self).ledger().counters(Resource::CpuTurns).spent()
                == old(self).ledger().counters(Resource::CpuTurns).spent(),
    {
        let ghost before = *self;
        match action {
            TaskAction::Request => {
                let next: u64 = match self.next_request.checked_add(1) {
                    Some(next) => next,
                    None => return Err(OperationFailure::terminal(FailureKind::IdentityExhausted)),
                };
                match self.accounting.next_charge(Resource::Requests, 1) {
                    Ok(_) => {},
                    Err(error) => return Err(OperationFailure::exhausted(error)),
                }
                let taken = match &mut self.semantic {
                    Some(state) => state.take_request(&mut self.accounting),
                    None => return Err(OperationFailure::malformed_response()),
                };
                let ghost made = *self;
                let ghost given = taken;
                let operation = match taken {
                    Ok(operation) => operation,
                    Err(failure) => {
                        assert(before.request_followed(
                            *self,
                            made,
                            given,
                            TaskStep::<S::Output>::Failed(failure),
                            false,
                        ));
                        return Err(failure);
                    },
                };
                let kind = operation.response_kind();
                if let ResponseKind::Evaluation(evaluation) = kind {
                    if evaluation.task_id() != self.id.get() {
                        let failure = OperationFailure::malformed_response();
                        assert(before.request_followed(
                            *self,
                            made,
                            given,
                            TaskStep::<S::Output>::Failed(failure),
                            false,
                        ));
                        return Err(failure);
                    }
                }
                let owned = operation.owned_bytes();
                let ghost (first, second) = choose|first: usize, second: usize|
                    first >= operation.first_text() && second >= operation.second_text() && owned
                        == #[trigger] operation.owned_total(first, second);
                let seen = self.observe(Some(owned));
                let ghost watched = *self;
                let ghost dynamic = choose|dynamic: Result<usize, ResourceExhausted>|
                    {
                        let seen_now = observation(
                            made.ledger().allowance(Resource::TaskStateBytes),
                            TaskMachine::<S>::fixed(),
                            dynamic,
                            Some(owned),
                        );
                        &&& #[trigger] made.reports(dynamic)
                        &&& seen == (match seen_now {
                            Ok(_) => Ok::<(), ResourceExhausted>(()),
                            Err(error) => Err(error),
                        })
                        &&& observed(made.ledger(), self.ledger(), seen_now)
                    };
                proof {
                    precedence_is_transitive(before.ledger(), made.ledger(), watched.ledger());
                }
                if let Err(error) = seen {
                    let failure = OperationFailure::exhausted(error);
                    let ghost step = TaskStep::<S::Output>::Failed(failure);
                    assert(made.handed_over(*self, operation, dynamic, first, second, step, false));
                    assert(before.request_followed(*self, made, given, step, false));
                    return Err(failure);
                }
                let key = match RequestKey::new(self.id.get(), self.next_request) {
                    Ok(key) => key,
                    Err(_) => {
                        let failure = OperationFailure::terminal(FailureKind::IdentityExhausted);
                        let ghost step = TaskStep::<S::Output>::Failed(failure);
                        assert(made.handed_over(*self, operation, dynamic, first, second, step, false));
                        assert(before.request_followed(*self, made, given, step, false));
                        return Err(failure);
                    },
                };
                let charged = self.accounting.charge(Resource::Requests, 1);
                proof {
                    precedence_is_transitive(before.ledger(), watched.ledger(), self.ledger());
                }
                if let Err(error) = charged {
                    let failure = OperationFailure::exhausted(error);
                    let ghost step = TaskStep::<S::Output>::Failed(failure);
                    assert(made.handed_over(*self, operation, dynamic, first, second, step, false));
                    assert(before.request_followed(*self, made, given, step, false));
                    return Err(failure);
                }
                self.next_request = next;
                self.pending = Some((key, kind));
                let step = TaskStep::Execute(TaskRequest { key, operation });
                assert(made.handed_over(*self, given->Ok_0, dynamic, first, second, step, false));
                assert(before.request_followed(*self, made, given, step, false));
                Ok(step)
            },
            TaskAction::Yield => {
                match self.accounting.charge(Resource::Yields, 1) {
                    Ok(()) => {},
                    Err(error) => return Err(OperationFailure::exhausted(error)),
                }
                let ghost charged = *self;
                let seen = self.observe(None);
                let ghost dynamic = choose|dynamic: Result<usize, ResourceExhausted>|
                    {
                        let seen_now = observation(
                            charged.ledger().allowance(Resource::TaskStateBytes),
                            TaskMachine::<S>::fixed(),
                            dynamic,
                            None,
                        );
                        &&& #[trigger] charged.reports(dynamic)
                        &&& seen == (match seen_now {
                            Ok(_) => Ok::<(), ResourceExhausted>(()),
                            Err(error) => Err(error),
                        })
                        &&& observed(charged.ledger(), self.ledger(), seen_now)
                    };
                assert(before.reports(dynamic));
                proof {
                    precedence_is_transitive(before.ledger(), charged.ledger(), self.ledger());
                }
                match seen {
                    Ok(()) => Ok(TaskStep::Yield),
                    Err(error) => Err(OperationFailure::exhausted(error)),
                }
            },
            TaskAction::Complete(output) => {
                let seen = self.observe(None);
                let ghost dynamic = choose|dynamic: Result<usize, ResourceExhausted>|
                    {
                        let seen_now = observation(
                            before.ledger().allowance(Resource::TaskStateBytes),
                            TaskMachine::<S>::fixed(),
                            dynamic,
                            None,
                        );
                        &&& #[trigger] before.reports(dynamic)
                        &&& seen == (match seen_now {
                            Ok(_) => Ok::<(), ResourceExhausted>(()),
                            Err(error) => Err(error),
                        })
                        &&& observed(before.ledger(), self.ledger(), seen_now)
                    };
                assert(before.reports(dynamic));
                let ghost watched = *self;
                if let Err(error) = seen {
                    return Err(OperationFailure::exhausted(error));
                }
                self.release();
                proof {
                    precedence_is_transitive(before.ledger(), watched.ledger(), self.ledger());
                }
                self.status = TaskStatus::Complete;
                Ok(TaskStep::Complete(output))
            },
        }
    }

    /// Records measured storage: the backing bytes that the state reports and the bytes of an
    /// outgoing request.
    fn observe_measured(
        &mut self,
        dynamic: Result<usize, ResourceExhausted>,
        outgoing: Option<Option<usize>>,
    ) -> (r: Result<(), ResourceExhausted>)
        ensures
            old(self).same_protocol(*final(self)),
            ({
                let seen = observation(
                    old(self).ledger().allowance(Resource::TaskStateBytes),
                    TaskMachine::<S>::fixed(),
                    dynamic,
                    outgoing,
                );
                &&& r == (match seen {
                    Ok(_) => Ok::<(), ResourceExhausted>(()),
                    Err(error) => Err(error),
                })
                &&& observed(old(self).ledger(), final(self).ledger(), seen)
            }),
            old(self).ledger().precedes(final(self).ledger()),
            old(self).ledger().wf() ==> final(self).ledger().wf(),
    {
        let ghost before = self.accounting;
        let limit: usize = self.accounting.limit(Resource::TaskStateBytes);
        let overflow = ResourceExhausted {
            resource: Resource::TaskStateBytes,
            limit,
            observed: usize::MAX,
        };
        let dynamic: usize = dynamic?;
        let fixed: usize = core::mem::size_of::<TaskMachine<S>>();
        let retained: usize = match fixed.checked_add(dynamic) {
            Some(retained) => retained,
            None => return Err(overflow),
        };
        if let Some(request) = outgoing {
            let owned: usize = match request {
                Some(owned) => owned,
                None => return Err(overflow),
            };
            let total: usize = match retained.checked_add(owned) {
                Some(total) => total,
                None => return Err(overflow),
            };
            self.accounting.set_live(Resource::TaskStateBytes, total)?;
        }
        let ghost handed = self.accounting;
        let r = self.accounting.set_live(Resource::TaskStateBytes, retained);
        proof {
            precedence_is_transitive(before, handed, self.accounting);
        }
        r
    }

    fn observe(&mut self, outgoing: Option<Option<usize>>) -> (r: Result<(), ResourceExhausted>)
        ensures
            old(self).same_protocol(*final(self)),
            exists|dynamic: Result<usize, ResourceExhausted>| {
                let seen = observation(
                    old(self).ledger().allowance(Resource::TaskStateBytes),
                    TaskMachine::<S>::fixed(),
                    dynamic,
                    outgoing,
                );
                &&& #[trigger] old(self).reports(dynamic)
                &&& r == (match seen {
                    Ok(_) => Ok::<(), ResourceExhausted>(()),
                    Err(error) => Err(error),
                })
                &&& observed(old(self).ledger(), final(self).ledger(), seen)
            },
            r is Ok ==> TaskMachine::<S>::fixed() <= final(self).ledger().counters(
                Resource::TaskStateBytes,
            ).peak(),
            old(self).ledger().precedes(final(self).ledger()),
            old(self).ledger().wf() ==> final(self).ledger().wf(),
            forall|r: Resource|
                r != Resource::TaskStateBytes ==> #[trigger] final(self).ledger().counters(r)
                    == old(self).ledger().counters(r),
    {
        let dynamic = match &self.semantic {
            Some(state) => state.retained_bytes(),
            None => Ok(0),
        };
        assert(self.reports(dynamic));
        self.observe_measured(dynamic, outgoing)
    }

    fn release(&mut self)
        ensures
            final(self).task() == old(self).task(),
            final(self).next() == old(self).next(),
            final(self).state() == old(self).state(),
            final(self).awaiting() is None,
            final(self).continuation() is None,
            cleared(
                old(self).ledger(),
                final(self).ledger(),
                vstd::layout::size_of_as_usize::<TaskMachine<S>>(),
            ),
            old(self).let_go(*final(self)),
            old(self).ledger().wf() && TaskMachine::<S>::fixed() <= old(self).ledger().counters(
                Resource::TaskStateBytes,
            ).peak() ==> final(self).ledger().wf(),
    {
        self.pending = None;
        self.semantic = None;
        self.accounting.clear_live(core::mem::size_of::<TaskMachine<S>>());
    }

    fn fail(&mut self, error: OperationFailure) -> (step: TaskStep<S::Output>)
        ensures
            step == TaskStep::<S::Output>::Failed(error),
            final(self).state() == TaskStatus::Failed(error.category()),
            old(self).let_go(*final(self)),
            old(self).ledger().wf() && old(self).next() >= 1 && TaskMachine::<S>::fixed()
                <= old(self).ledger().counters(Resource::TaskStateBytes).peak()
                ==> final(self).wf(),
    {
        self.release();
        self.status = TaskStatus::Failed(error.kind());
        TaskStep::Failed(error)
    }
}

impl<S: TaskState> TaskMachine<S> {
    /// `r` is what starting gives. A cancelled task stays cancelled, and a task starts once.
    pub open spec fn start_outcome(
        self,
        later: TaskMachine<S>,
        cpu: CpuSlice,
        r: Result<TaskStep<S::Output>, TaskProtocolError>,
    ) -> bool {
        &&& self.state() is Cancelled ==> r == Ok::<TaskStep<S::Output>, TaskProtocolError>(
            TaskStep::Cancelled,
        ) && later == self
        &&& !(self.state() is Cancelled) && !(self.state() is New) ==> r == Err::<
            TaskStep<S::Output>,
            TaskProtocolError,
        >(TaskProtocolError::AlreadyStarted) && later == self
        &&& self.state() is New ==> r is Ok
        &&& self.wf() ==> later.wf()
        &&& self.wf() && self.state() is New ==> self.turned(later, None, cpu, r->Ok_0)
    }

    /// `r` is what progressing gives. Only a running task without an outstanding request progresses.
    pub open spec fn progress_outcome(
        self,
        later: TaskMachine<S>,
        cpu: CpuSlice,
        r: Result<TaskStep<S::Output>, TaskProtocolError>,
    ) -> bool {
        &&& match self.running_result() {
            Err(error) => r == Err::<TaskStep<S::Output>, TaskProtocolError>(error) && later
                == self,
            Ok(()) => if self.awaiting() is Some {
                r == Err::<TaskStep<S::Output>, TaskProtocolError>(
                    TaskProtocolError::PendingRequest,
                ) && later == self
            } else {
                r is Ok && (self.wf() ==> self.turned(later, None, cpu, r->Ok_0))
            },
        }
        &&& self.wf() ==> later.wf()
    }

    /// `r` is what resuming gives. Only the exact answer of the outstanding request is taken.
    pub open spec fn resume_outcome(
        self,
        later: TaskMachine<S>,
        key: RequestKey,
        response: Result<TaskResponseV1, OperationFailure>,
        cpu: CpuSlice,
        r: Result<TaskStep<S::Output>, TaskProtocolError>,
    ) -> bool {
        &&& match self.resumption(key, response) {
            Err(error) => r == Err::<TaskStep<S::Output>, TaskProtocolError>(error) && later
                == self,
            Ok(()) => r is Ok && (self.wf() ==> self.resumed(later, response, cpu, r->Ok_0)),
        }
        &&& self.wf() ==> later.wf()
    }

    /// The disposition of cancelling: the outstanding key is handed back once, nothing that was
    /// charged is refunded, and no peak changes.
    pub open spec fn cancel_outcome(self, later: TaskMachine<S>, disposition: CancelDisposition) -> bool {
        &&& match self.state() {
            TaskStatus::Cancelled => disposition == CancelDisposition::AlreadyCancelled && later
                == self,
            TaskStatus::Complete => disposition == CancelDisposition::AlreadyTerminal && later
                == self,
            TaskStatus::Failed(_) => disposition == CancelDisposition::AlreadyTerminal && later
                == self,
            _ => {
                &&& disposition == CancelDisposition::Cancelled(
                    match self.awaiting() {
                        Some((key, _)) => Some(key),
                        None => None,
                    },
                )
                &&& later.state() is Cancelled
                &&& self.let_go(later)
            },
        }
        &&& self.wf() ==> later.wf()
    }
}

impl<S: TaskState> OperationTask for TaskMachine<S> {
    type Output = S::Output;

    /// Lends the ledger for the outstanding request. While the loan lasts the task can neither be
    /// resumed nor cancelled, and the loan can only add to the ledger's work. The task's ledger
    /// behind it is the one that the loan left.
    fn pending_work(&mut self) -> (r: Result<PendingWork<'_>, TaskProtocolError>)
        ensures
            match (old(self).running_result(), old(self).awaiting()) {
                (Err(error), _) => r matches Err(e) && e == error,
                (Ok(()), None) => r matches Err(e) && e == TaskProtocolError::WrongKey,
                (Ok(()), Some((key, _))) => {
                    &&& r matches Ok(work)
                    &&& work.request() == key
                    &&& work.ledger() == old(self).ledger()
                    &&& final(self).ledger() == *final(work.loan())
                },
            },
            old(self).same_protocol(*final(self)),
            r is Err ==> final(self).ledger() == old(self).ledger(),
    {
        self.require_running()?;
        match self.pending {
            Some((key, _)) => Ok(PendingWork::new(key, &mut self.accounting)),
            None => Err(TaskProtocolError::WrongKey),
        }
    }

    fn start(&mut self, cpu: CpuSlice) -> (r: Result<TaskStep<S::Output>, TaskProtocolError>)
        ensures
            old(self).start_outcome(*final(self), cpu, r),
    {
        if self.status == TaskStatus::Cancelled {
            return Ok(TaskStep::Cancelled);
        }
        if self.status != TaskStatus::New {
            return Err(TaskProtocolError::AlreadyStarted);
        }
        let ghost before = *self;
        self.status = TaskStatus::Running;
        let ghost running = *self;
        let step = self.advance_turn(cpu);
        proof {
            if before.wf() {
                assert(running.turned(*self, None, cpu, step));
                if turn_result(before.ledger(), cpu) is Ok {
                    let (worked, action) = choose|
                        worked: TaskMachine<S>,
                        action: Result<TaskAction<S::Output>, OperationFailure>,
                    | #[trigger]
                        running.turn_followed(*self, worked, None, cpu, action, step);
                    let admitted = choose|admitted: TaskAccounting| #[trigger]
                        running.works(worked, None, cpu, admitted, action);
                    assert(before.works(worked, None, cpu, admitted, action));
                    assert(before.turn_followed(*self, worked, None, cpu, action, step));
                }
            }
        }
        Ok(step)
    }

    fn progress(&mut self, cpu: CpuSlice) -> (r: Result<TaskStep<S::Output>, TaskProtocolError>)
        ensures
            old(self).progress_outcome(*final(self), cpu, r),
    {
        self.require_running()?;
        if self.pending.is_some() {
            return Err(TaskProtocolError::PendingRequest);
        }
        Ok(self.advance_turn(cpu))
    }

    fn resume(
        &mut self,
        key: RequestKey,
        response: Result<TaskResponseV1, OperationFailure>,
        cpu: CpuSlice,
    ) -> (r: Result<TaskStep<S::Output>, TaskProtocolError>)
        ensures
            old(self).resume_outcome(*final(self), key, response, cpu, r),
    {
        self.require_running()?;
        let (expected, kind) = match self.pending {
            Some(pending) => pending,
            None => return Err(TaskProtocolError::WrongKey),
        };
        if key != expected {
            return Err(TaskProtocolError::WrongKey);
        }
        if let Ok(response) = &response {
            if !kind.matches(response) {
                return Err(TaskProtocolError::WrongKind);
            }
        }
        let ghost before = *self;
        self.pending = None;
        let ghost taken = *self;
        assert(before.answered(taken));
        assert(before.wf() ==> taken.runnable());
        let response = match response {
            Ok(response) => response,
            Err(error) => {
                let step = self.fail(error);
                return Ok(step);
            },
        };
        if !kind.valid_identity(&response) {
            let step = self.fail(OperationFailure::malformed_response());
            return Ok(step);
        }
        let step = self.resume_turn(response, cpu);
        Ok(step)
    }

    fn cancel(&mut self, reason: CancelReason) -> (disposition: CancelDisposition)
        ensures
            old(self).cancel_outcome(*final(self), disposition),
    {
        match self.status {
            TaskStatus::Cancelled => CancelDisposition::AlreadyCancelled,
            TaskStatus::Complete => CancelDisposition::AlreadyTerminal,
            TaskStatus::Failed(_) => CancelDisposition::AlreadyTerminal,
            _ => {
                let pending = self.pending_key();
                self.release();
                self.status = TaskStatus::Cancelled;
                CancelDisposition::Cancelled(pending)
            },
        }
    }
}

impl<S: TaskState> TaskMachine<S> {
    /// The response that the outstanding request expects.
    pub open spec fn expected(self) -> ResponseKind {
        let (_, kind) = self.awaiting()->0;
        kind
    }

    /// Whether a response may resume the task.
    pub open spec fn resumption(
        self,
        key: RequestKey,
        response: Result<TaskResponseV1, OperationFailure>,
    ) -> Result<(), TaskProtocolError> {
        match (self.running_result(), self.awaiting()) {
            (Err(error), _) => Err(error),
            (Ok(()), None) => Err(TaskProtocolError::WrongKey),
            (Ok(()), Some((expected, kind))) => if key != expected {
                Err(TaskProtocolError::WrongKey)
            } else {
                match response {
                    Ok(response) => if kind.accepts(response) {
                        Ok(())
                    } else {
                        Err(TaskProtocolError::WrongKind)
                    },
                    Err(_) => Ok(()),
                }
            },
        }
    }

    /// The task as it is once the outstanding request has been answered.
    pub open spec fn answered(self, later: TaskMachine<S>) -> bool {
        &&& later.task() == self.task()
        &&& later.next() == self.next()
        &&& later.state() == self.state()
        &&& later.awaiting() is None
        &&& later.continuation() == self.continuation()
        &&& later.ledger() == self.ledger()
    }

    /// What an accepted response leaves behind: an operational failure and a page of another
    /// evaluation end the task without semantic work, and any other response begins a turn.
    pub open spec fn resumed(
        self,
        later: TaskMachine<S>,
        response: Result<TaskResponseV1, OperationFailure>,
        cpu: CpuSlice,
        step: TaskStep<S::Output>,
    ) -> bool {
        match response {
            Err(failure) => step == TaskStep::<S::Output>::Failed(failure) && later.state()
                == TaskStatus::Failed(failure.category()) && self.let_go(later),
            Ok(response) => if !self.expected().identifies(response) {
                &&& step matches TaskStep::Failed(failure) && failure.is_terminal(
                    FailureKind::MalformedResponse,
                )
                &&& later.state() == TaskStatus::Failed(FailureKind::MalformedResponse)
                &&& self.let_go(later)
            } else {
                exists|between: TaskMachine<S>| #[trigger]
                    self.answered(between) && between.turned(later, Some(response), cpu, step)
            },
        }
    }
}

/// A step that was concluded stays concluded when a failed task is released behind it.
proof fn released_steps_conclude<S: TaskState>(
    before: TaskMachine<S>,
    concluded: TaskMachine<S>,
    later: TaskMachine<S>,
    action: TaskAction<S::Output>,
    step: TaskStep<S::Output>,
)
    requires
        before.concluded(concluded, Ok(action), step, false),
        if step is Failed {
            concluded.let_go(later)
        } else {
            later == concluded
        },
    ensures
        before.concluded(later, Ok(action), step, true),
{
    if action is Request && before.requesting() is Ok {
        let (made, taken) = choose|
            made: TaskMachine<S>,
            taken: Result<TaskRequestV1, OperationFailure>,
        | #[trigger]
            before.request_followed(concluded, made, taken, step, false);
        if taken is Ok && !before.is_foreign(taken->Ok_0) {
            let operation = taken->Ok_0;
            let (dynamic, first, second) = choose|
                dynamic: Result<usize, ResourceExhausted>,
                first: usize,
                second: usize,
            | #[trigger]
                made.handed_over(concluded, operation, dynamic, first, second, step, false);
            assert(made.handed_over(later, operation, dynamic, first, second, step, true));
        }
        assert(before.request_followed(later, made, taken, step, true));
    }
}

/// Once a task is terminal, no call changes it: starting, progressing and resuming are refused or
/// report the cancellation, and cancelling reports what happened before.
pub proof fn terminal_tasks_refuse_responses<S: TaskState>(
    machine: TaskMachine<S>,
    key: RequestKey,
    response: Result<TaskResponseV1, OperationFailure>,
)
    requires
        machine.state().is_terminal(),
    ensures
        machine.resumption(key, response) == Err::<(), TaskProtocolError>(TaskProtocolError::Terminal),
        machine.running_result() == Err::<(), TaskProtocolError>(TaskProtocolError::Terminal),
{
}

/// Every request that a task issues has a key of its own: its sequence number is above all that
/// were issued before.
pub proof fn request_keys_are_fresh<S: TaskState>(
    before: TaskMachine<S>,
    after: TaskMachine<S>,
    request: TaskRequest,
    earlier: RequestKey,
)
    requires
        before.wf(),
        before.stepped(after, TaskStep::Execute(request)),
        earlier.owner() == before.task(),
        earlier.sequence() < before.next(),
    ensures
        request.key != earlier,
        request.key.owner() == before.task(),
        earlier.sequence() < after.next(),
        request.key.sequence() < after.next(),
{
}

/// At most one response answers a request: once it has been accepted, its key is refused.
pub proof fn responses_are_accepted_once<S: TaskState>(
    before: TaskMachine<S>,
    after: TaskMachine<S>,
    key: RequestKey,
    response: Result<TaskResponseV1, OperationFailure>,
    cpu: CpuSlice,
    step: TaskStep<S::Output>,
    again: Result<TaskResponseV1, OperationFailure>,
)
    requires
        before.wf(),
        before.resumption(key, response) is Ok,
        before.resumed(after, response, cpu, step),
    ensures
        after.resumption(key, again) is Err,
{
    if response matches Ok(content) && before.expected().identifies(content) {
        let between = choose|between: TaskMachine<S>| #[trigger]
            before.answered(between) && between.turned(after, Some(response->Ok_0), cpu, step);
        assert(between.stepped(after, step));
        if let TaskStep::Execute(request) = step {
            assert(request.key.sequence() == before.next());
            assert(key.sequence() == before.next() - 1);
        }
    }
}

/// Work that a host charges through a loan stays consumed: the task's ledger is the one that the
/// loan left, and neither a cancellation behind it nor a failed completion gives anything back. The
/// loan leaves a task as well formed as it was.
pub proof fn loaned_charges_stay_consumed<S: TaskState>(
    before: TaskMachine<S>,
    lent: TaskMachine<S>,
    after: TaskMachine<S>,
    units: usize,
    disposition: CancelDisposition,
    failure: OperationFailure,
    cpu: CpuSlice,
    step: TaskStep<S::Output>,
)
    requires
        before.state() is Running,
        before.same_protocol(lent),
        before.ledger().charge_result(Resource::WorkUnits, units) is Ok,
        before.ledger().charged(lent.ledger(), Resource::WorkUnits, units),
        lent.cancel_outcome(after, disposition) || lent.resumed(after, Err(failure), cpu, step),
    ensures
        before.wf() ==> lent.wf(),
        after.ledger().counters(Resource::WorkUnits).spent() == before.ledger().counters(
            Resource::WorkUnits,
        ).spent() + units,
        forall|r: Resource|
            r != Resource::WorkUnits ==> (#[trigger] after.ledger().counters(r)).spent()
                == before.ledger().counters(r).spent(),
        forall|r: Resource|
            (#[trigger] after.ledger().counters(r)).peak() == before.ledger().counters(r).peak(),
{
    broadcast use crate::accounting::usage_parts;

}

/// A turn is admitted exactly where its slice is within the allowances of a turn and one more turn is
/// within the allowance of turns.
pub proof fn turns_are_admitted_within_their_allowances(ledger: TaskAccounting, cpu: CpuSlice)
    ensures
        turn_result(ledger, cpu) is Ok <==> {
            &&& cpu.record_cap() <= ledger.allowances().allowance(Resource::TurnRecords)
            &&& cpu.byte_cap() <= ledger.allowances().allowance(Resource::TurnInputBytes)
            &&& cpu.node_cap() <= ledger.allowances().allowance(Resource::TurnPlanNodes)
            &&& ledger.counters(Resource::CpuTurns).spent() + 1 <= ledger.allowances().allowance(
                Resource::CpuTurns,
            )
        },
{
}

/// A task's storage is admitted exactly where the machine's bytes, the state's and those of a request
/// that is being handed over are within the allowance together. What stays live is the first two.
pub proof fn storage_is_admitted_up_to_its_allowance(
    limit: usize,
    fixed: nat,
    dynamic: usize,
    outgoing: Option<usize>,
)
    ensures
        ({
            let request = match outgoing {
                Some(owned) => owned as int,
                None => 0,
            };
            let seen = observation(
                limit,
                fixed,
                Ok(dynamic),
                match outgoing {
                    Some(owned) => Some(Some(owned)),
                    None => None,
                },
            );
            &&& seen is Ok <==> fixed + dynamic + request <= limit
            &&& seen matches Ok((retained, total)) ==> retained == fixed + dynamic && total == fixed
                + dynamic + request
            &&& seen matches Err(error) ==> error.resource == Resource::TaskStateBytes
                && error.limit == limit
        }),
        forall|error: ResourceExhausted| #[trigger]
            observation(limit, fixed, Err(error), None) == Err::<(usize, usize), ResourceExhausted>(
                error,
            ),
{
}

/// A response resumes a task exactly where the task is running, waits for that very key, and gets an
/// operational failure or a response of the kind that it asked for.
pub proof fn responses_resume_their_own_request<S: TaskState>(
    machine: TaskMachine<S>,
    key: RequestKey,
    response: Result<TaskResponseV1, OperationFailure>,
)
    ensures
        machine.resumption(key, response) is Ok <==> {
            &&& machine.state() is Running
            &&& machine.awaiting() matches Some((expected, kind)) && key == expected && (
            response matches Ok(answer) ==> kind.accepts(answer))
        },
        machine.state() is Running ==> match machine.awaiting() {
            None => machine.resumption(key, response) == Err::<(), TaskProtocolError>(
                TaskProtocolError::WrongKey,
            ),
            Some((expected, _)) => key != expected ==> machine.resumption(key, response) == Err::<
                (),
                TaskProtocolError,
            >(TaskProtocolError::WrongKey),
        },
{
}

/// What a state decides is what the task does. A completion hands over the state's own output and a
/// yield yields, unless the storage or the yields are exhausted; the failure of a state is the task's
/// failure. Nothing else fails a task that yields or completes.
pub proof fn decisions_become_steps<S: TaskState>(
    worked: TaskMachine<S>,
    later: TaskMachine<S>,
    action: Result<TaskAction<S::Output>, OperationFailure>,
    step: TaskStep<S::Output>,
    retained: usize,
)
    requires
        worked.concluded(later, action, step, true),
        forall|dynamic: Result<usize, ResourceExhausted>| #[trigger]
            worked.reports(dynamic) ==> dynamic == Ok::<usize, ResourceExhausted>(retained),
    ensures
        action matches Err(failure) ==> step == TaskStep::<S::Output>::Failed(failure),
        action matches Ok(TaskAction::Complete(output)) ==> {
            if TaskMachine::<S>::fixed() + retained <= worked.ledger().allowances().allowance(
                Resource::TaskStateBytes,
            ) {
                step == TaskStep::<S::Output>::Complete(output)
            } else {
                step is Failed
            }
        },
        action matches Ok(TaskAction::Yield) ==> {
            if TaskMachine::<S>::fixed() + retained <= worked.ledger().allowances().allowance(
                Resource::TaskStateBytes,
            ) && worked.ledger().counters(Resource::Yields).spent() + 1
                <= worked.ledger().allowances().allowance(Resource::Yields) {
                step == TaskStep::<S::Output>::Yield
            } else {
                step is Failed
            }
        },
        action matches Ok(TaskAction::Request) ==> step is Execute || step is Failed,
        action matches Ok(TaskAction::Request) && worked.next() == u64::MAX ==> step is Failed,
{
}

/// A request that a state makes is handed over as it was made, under the next key of its task, unless
/// it is about another task's evaluation, or its storage or the requests are exhausted.
pub proof fn made_requests_are_handed_over<S: TaskState>(
    worked: TaskMachine<S>,
    later: TaskMachine<S>,
    made: TaskMachine<S>,
    operation: TaskRequestV1,
    step: TaskStep<S::Output>,
)
    requires
        worked.request_followed(later, made, Ok(operation), step, true),
        made.task() != 0,
        made.next() != 0,
    ensures
        step matches TaskStep::Execute(request) ==> request.operation == operation
            && request.key.owner() == worked.task() && request.key.sequence() == worked.next(),
        step is Execute || step is Failed,
        !(operation is EvaluationStart) && !(operation is Evaluation) && step is Failed
            ==> made.ledger().counters(Resource::Requests).spent() + 1
            > made.ledger().allowances().allowance(Resource::Requests) || exists|
            dynamic: Result<usize, ResourceExhausted>,
            first: usize,
            second: usize,
        |
            {
                &&& #[trigger] made.handed_over(
                    later,
                    operation,
                    dynamic,
                    first,
                    second,
                    step,
                    true,
                )
                &&& dynamic is Err || TaskMachine::<S>::fixed() + dynamic->Ok_0
                    + vstd::layout::size_of::<TaskRequest>() + first + second
                    > made.ledger().allowances().allowance(Resource::TaskStateBytes)
            },
{
    broadcast use crate::protocol::key_parts;

    if !worked.is_foreign(operation) {
        let (dynamic, first, second) = choose|
            dynamic: Result<usize, ResourceExhausted>,
            first: usize,
            second: usize,
        | #[trigger]
            made.handed_over(later, operation, dynamic, first, second, step, true);
        crate::protocol::requests_own_what_they_carry(operation, first, second);
    }
}

/// A task starts once: a new one takes its first turn, one that was cancelled stays cancelled, and any
/// other has been started.
pub proof fn tasks_start_once<S: TaskState>(
    machine: TaskMachine<S>,
    between: TaskMachine<S>,
    later: TaskMachine<S>,
    cpu: CpuSlice,
    next: CpuSlice,
    first: Result<TaskStep<S::Output>, TaskProtocolError>,
    second: Result<TaskStep<S::Output>, TaskProtocolError>,
)
    requires
        machine.wf(),
        machine.start_outcome(between, cpu, first),
        between.start_outcome(later, next, second),
    ensures
        first is Ok <==> machine.state() is New || machine.state() is Cancelled,
        machine.state() is Cancelled ==> (first matches Ok(TaskStep::Cancelled)) && between
            == machine,
        first matches Err(error) ==> error == TaskProtocolError::AlreadyStarted && between == machine,
        machine.state() is New ==> second == Err::<TaskStep<S::Output>, TaskProtocolError>(
            TaskProtocolError::AlreadyStarted,
        ) && later == between,
{
}

/// A task goes on exactly where it runs and awaits nothing; otherwise nothing of it changes.
pub proof fn tasks_go_on_while_they_run<S: TaskState>(
    machine: TaskMachine<S>,
    later: TaskMachine<S>,
    cpu: CpuSlice,
    r: Result<TaskStep<S::Output>, TaskProtocolError>,
)
    requires
        machine.progress_outcome(later, cpu, r),
    ensures
        r is Ok <==> machine.state() is Running && machine.awaiting() is None,
        r is Err ==> later == machine,
        r matches Err(error) ==> match machine.state() {
            TaskStatus::New => error == TaskProtocolError::NotStarted,
            TaskStatus::Running => error == TaskProtocolError::PendingRequest,
            _ => error == TaskProtocolError::Terminal,
        },
{
}

/// A task that has not ended is cancelled at once, and says which request is outstanding; it keeps what
/// it has spent. One that has ended stays as it ended, and a second cancellation changes nothing.
pub proof fn cancellation_names_the_outstanding_request<S: TaskState>(
    machine: TaskMachine<S>,
    between: TaskMachine<S>,
    later: TaskMachine<S>,
    first: CancelDisposition,
    second: CancelDisposition,
)
    requires
        machine.cancel_outcome(between, first),
        between.cancel_outcome(later, second),
    ensures
        machine.state() is New || machine.state() is Running ==> {
            &&& between.state() is Cancelled
            &&& first matches CancelDisposition::Cancelled(key)
            &&& key is Some <==> machine.awaiting() is Some
            &&& machine.awaiting() matches Some((awaited, _)) ==> key == Some(awaited)
            &&& forall|r: Resource|
                (#[trigger] between.ledger().counters(r)).spent() == machine.ledger().counters(
                    r,
                ).spent()
        },
        machine.state() is Complete || machine.state() is Failed ==> between == machine && first
            == CancelDisposition::AlreadyTerminal,
        machine.state() is Cancelled ==> between == machine && first
            == CancelDisposition::AlreadyCancelled,
        later == between,
        second == CancelDisposition::AlreadyCancelled || second == CancelDisposition::AlreadyTerminal,
{
}

} // verus!
