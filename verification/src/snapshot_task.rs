//! The snapshot task: its turns, its requests and its responses.

use crate::accounting::{
    PendingWork, Resource, ResourceUsage, TaskAccounting, TaskLimits, TaskUsage,
};
use crate::backing::reserve_exact;
use crate::bytes::{byte_len, utf8};
use crate::checks::{allowed, check, counted, exhausted, uncountable};
use crate::failure::{
    Error, ErrorSource, FailureKind, OperationFailure, ResourceExhausted, TaskProtocolError,
};
use crate::json_discovery::LogDiscovery;
use crate::json_snapshot::{SnapshotState, StateSize};
use crate::ledger::LedgerView;
use crate::locations::{
    canonical, editable, is_editable, join_location, joined, location, push_segment, read_root,
    root_facts, with_segment,
};
use crate::machine::{observation, semantic_work, TaskAction, TaskMachine, TaskState};
use crate::protocol::{
    CancelDisposition, CancelReason, CpuSlice, EvaluationKey, FileDescriptor, OperationTask,
    RequestKey, TaskId, TaskRequestV1, TaskResponseV1, TaskStep,
};
use crate::rows::carries;
use crate::sizing::{fitted, plus, size};
use crate::table::{KernelLayout, Snapshot, TableKernel};
use crate::table_support::{
    evaluation_bounds, root_owner_peak, root_owners, task_evaluation_limits,
};
use std::sync::Arc;
use vstd::arithmetic::overflow::CheckedUsize;
use vstd::layout::size_of;
use vstd::prelude::*;

verus! {

broadcast use {crate::ledger::semantic_work_chains, crate::ledger::idleness_is_semantic_work};

/// The action behind a turn that says whether something is left of it.
pub open spec fn action_of<T>(
    left: Result<bool, OperationFailure>,
    r: Result<TaskAction<T>, OperationFailure>,
) -> bool {
    match left {
        Ok(true) => r == Ok::<TaskAction<T>, OperationFailure>(TaskAction::Yield),
        Ok(false) => r == Ok::<TaskAction<T>, OperationFailure>(TaskAction::Request),
        Err(failure) => r == Err::<TaskAction<T>, OperationFailure>(failure),
    }
}

/// The action behind an output.
pub open spec fn completion_of<T>(
    output: Result<T, OperationFailure>,
    r: Result<TaskAction<T>, OperationFailure>,
) -> bool {
    match output {
        Ok(output) => r == Ok::<TaskAction<T>, OperationFailure>(TaskAction::Complete(output)),
        Err(failure) => r == Err::<TaskAction<T>, OperationFailure>(failure),
    }
}

impl<K: TableKernel> SnapshotState<K> {
    /// `r` is what a turn gives.
    pub open spec fn advanced(
        self,
        later: SnapshotState<K>,
        cpu: CpuSlice,
        ledger: TaskAccounting,
        after: TaskAccounting,
        r: Result<TaskAction<Arc<Snapshot>>, OperationFailure>,
    ) -> bool {
        if !self.evaluating {
            exists|left: Result<bool, OperationFailure>|
                {
                    &&& #[trigger] self.discovered(later, cpu, ledger.book(), after.book(), left)
                    &&& action_of(left, r)
                }
        } else if self.evaluation_done {
            exists|output: Result<Arc<Snapshot>, OperationFailure>|
                {
                    &&& #[trigger] self.finished(later, ledger, after.book(), output)
                    &&& completion_of(output, r)
                }
        } else if self.page is Some {
            exists|
                states: Seq<SnapshotState<K>>,
                ledgers: Seq<TaskAccounting>,
                left: Result<bool, OperationFailure>,
            |
                {
                    &&& #[trigger] self.page_turned(
                        later,
                        cpu,
                        states,
                        ledgers,
                        ledger,
                        after,
                        left,
                    )
                    &&& action_of(left, r)
                }
        } else {
            &&& r == Ok::<TaskAction<Arc<Snapshot>>, OperationFailure>(TaskAction::Request)
            &&& later == self
            &&& after == ledger
        }
    }

    /// `r` is what taking a response gives, before the turn behind it.
    pub open spec fn response_taken(
        self,
        later: SnapshotState<K>,
        response: TaskResponseV1,
        ledger: TaskAccounting,
        after: TaskAccounting,
        r: Result<(), OperationFailure>,
    ) -> bool {
        match response {
            TaskResponseV1::Listing { files, continuation } if !self.evaluating => exists|
                state_size: StateSize,
                listing_size: crate::json_discovery::ListingSize,
            |
                {
                    &&& later == (SnapshotState { discovery: later.discovery, ..self })
                    &&& state_size.covers(self.discovery)
                    &&& #[trigger] self.discovery.accepted(
                        later.discovery,
                        files,
                        continuation,
                        listing_size,
                        #[trigger] self.room(
                            self.discovery.file_path_capacity,
                            state_size,
                            ledger.book(),
                        ),
                        ledger.book(),
                        after.book(),
                        r,
                    )
                },
            TaskResponseV1::Evaluation { evaluation, page } if self.evaluating && evaluation
                == self.evaluation => exists|reported: Seq<usize>, state_size: StateSize| #[trigger]
                self.page_accepted(
                    later,
                    page,
                    reported,
                    state_size,
                    ledger.book(),
                    after.book(),
                    r,
                ),
            _ => later == self && after == ledger && (r matches Err(failure) && failure.is_terminal(
                FailureKind::MalformedResponse,
            )),
        }
    }

    /// `r` is what resuming with a response gives: the response is taken, and a turn follows.
    pub open spec fn resumed(
        self,
        later: SnapshotState<K>,
        response: TaskResponseV1,
        cpu: CpuSlice,
        ledger: TaskAccounting,
        after: TaskAccounting,
        r: Result<TaskAction<Arc<Snapshot>>, OperationFailure>,
    ) -> bool {
        exists|mid: SnapshotState<K>, charged: TaskAccounting, taken: Result<(), OperationFailure>|
            {
                &&& #[trigger] self.response_taken(mid, response, ledger, charged, taken)
                &&& match taken {
                    Ok(()) => mid.advanced(later, cpu, charged, after, r),
                    Err(failure) => after == charged && r == Err::<
                        TaskAction<Arc<Snapshot>>,
                        OperationFailure,
                    >(failure),
                }
            }
    }

    /// What owning the next listing request gives.
    pub open spec fn listing_owned(self, state_size: StateSize, book: LedgerView) -> Result<
        (),
        FailureKind,
    > {
        let cursor = match self.discovery.continuation {
            Some(text) => utf8(text@).len(),
            None => 0,
        };
        match fitted((utf8(self.discovery.log_root@).len() + cursor) as int) {
            None => Err(uncountable(self.limits, Resource::TaskStateBytes)),
            Some(extra) => self.room(
                self.discovery.file_path_capacity,
                state_size,
                book,
            ).considered(book.limits, self.limits, extra),
        }
    }

    /// The request lists the log directory from the continuation on.
    pub open spec fn lists(self, request: TaskRequestV1) -> bool {
        match request {
            TaskRequestV1::List {
                root,
                continuation,
                entries,
                descriptor_bytes,
                continuation_bytes,
            } => {
                &&& root@ == self.discovery.log_root@
                &&& (match (self.discovery.continuation, continuation) {
                    (Some(cursor), Some(text)) => text@ == cursor@,
                    (None, None) => true,
                    _ => false,
                })
                &&& entries == self.limits.allowance(Resource::ListingEntries)
                &&& descriptor_bytes == self.limits.allowance(Resource::ListingDescriptorBytes)
                &&& continuation_bytes == self.limits.allowance(Resource::ContinuationBytes)
            },
            _ => false,
        }
    }

    /// `r` is the next request: a listing while the history is discovered, and then the plan, once,
    /// and the pages of its evaluation.
    pub open spec fn requested(
        self,
        later: SnapshotState<K>,
        ledger: TaskAccounting,
        r: Result<TaskRequestV1, OperationFailure>,
    ) -> bool {
        if !self.evaluating {
            exists|state_size: StateSize|
                {
                    &&& later == self
                    &&& state_size.covers(self.discovery)
                    &&& match #[trigger] self.listing_owned(state_size, ledger.book()) {
                        Err(kind) => r matches Err(failure) && failure.is_terminal(kind),
                        Ok(()) => r matches Ok(request) && self.lists(request),
                    }
                }
        } else {
            &&& later == (SnapshotState { plan: None, ..self })
            &&& match evaluation_bounds(self.limits) {
                Err(refusal) => r matches Err(failure) && refusal.delivered(failure),
                Ok(limits) => match self.plan {
                    Some(plan) => r == Ok::<TaskRequestV1, OperationFailure>(
                        TaskRequestV1::EvaluationStart {
                            evaluation: self.evaluation,
                            plan,
                            limits,
                        },
                    ),
                    None => r == Ok::<TaskRequestV1, OperationFailure>(
                        TaskRequestV1::Evaluation {
                            evaluation: self.evaluation,
                            limits: limits.each(),
                        },
                    ),
                },
            }
        }
    }

    fn request_listing(&self, accounting: &TaskAccounting) -> (r: Result<
        TaskRequestV1,
        OperationFailure,
    >)
        ensures
            exists|state_size: StateSize|
                {
                    &&& state_size.covers(self.discovery)
                    &&& match #[trigger] self.listing_owned(state_size, accounting.book()) {
                        Err(kind) => r matches Err(failure) && failure.is_terminal(kind),
                        Ok(()) => r matches Ok(request) && self.lists(request),
                    }
                },
    {
        let state_size = self.measure();
        let ghost owned = self.listing_owned(state_size, accounting.book());
        let r = self.request_listing_sized(&state_size, accounting);
        assert(match owned {
            Err(kind) => r matches Err(failure) && failure.is_terminal(kind),
            Ok(()) => r matches Ok(request) && self.lists(request),
        });
        r
    }

    fn request_listing_sized(&self, state_size: &StateSize, accounting: &TaskAccounting) -> (r: Result<
        TaskRequestV1,
        OperationFailure,
    >)
        ensures
            match self.listing_owned(*state_size, accounting.book()) {
                Err(kind) => r matches Err(failure) && failure.is_terminal(kind),
                Ok(()) => r matches Ok(request) && self.lists(request),
            },
    {
        let cursor: usize = match &self.discovery.continuation {
            Some(text) => byte_len(text.as_str()),
            None => 0,
        };
        let root: usize = byte_len(self.discovery.log_root.as_str());
        let extra: usize = match root.checked_add(cursor) {
            Some(extra) => extra,
            None => return Err(exhausted(Resource::TaskStateBytes, &self.limits)),
        };
        let headroom = self.headroom_sized(state_size, accounting);
        match headroom.consider(accounting, &self.limits, extra) {
            Ok(()) => {},
            Err(failure) => return Err(failure),
        }
        let continuation = match &self.discovery.continuation {
            Some(text) => Some(text.clone()),
            None => None,
        };
        Ok(
            TaskRequestV1::List {
                root: self.discovery.log_root.clone(),
                continuation,
                entries: self.limits.limit(Resource::ListingEntries),
                descriptor_bytes: self.limits.limit(Resource::ListingDescriptorBytes),
                continuation_bytes: self.limits.limit(Resource::ContinuationBytes),
            },
        )
    }

    fn take_response(&mut self, response: TaskResponseV1, accounting: &mut TaskAccounting) -> (r: Result<
        (),
        OperationFailure,
    >)
        ensures
            old(self).response_taken(
                *final(self),
                response,
                *old(accounting),
                *final(accounting),
                r,
            ),
            semantic_work(*old(accounting), *final(accounting)),
    {
        match response {
            TaskResponseV1::Listing { files, continuation } => {
                if self.evaluating {
                    return Err(OperationFailure::malformed_response());
                }
                let state_size = self.measure();
                let headroom = self.headroom_sized(&state_size, accounting);
                self.discovery.accept(files, continuation, headroom, accounting)
            },
            TaskResponseV1::Evaluation { evaluation, page } => {
                if !self.evaluating || evaluation != self.evaluation {
                    return Err(OperationFailure::malformed_response());
                }
                self.accept_page(page, accounting)
            },
            _ => Err(OperationFailure::malformed_response()),
        }
    }
}

impl<K: TableKernel> TaskState for SnapshotState<K> {
    type Output = Arc<Snapshot>;

    open spec fn advances(
        &self,
        later: &SnapshotState<K>,
        cpu: CpuSlice,
        ledger: TaskAccounting,
        after: TaskAccounting,
        r: Result<TaskAction<Arc<Snapshot>>, OperationFailure>,
    ) -> bool {
        self.advanced(*later, cpu, ledger, after, r)
    }

    open spec fn requests(
        &self,
        later: &SnapshotState<K>,
        ledger: TaskAccounting,
        after: TaskAccounting,
        r: Result<TaskRequestV1, OperationFailure>,
    ) -> bool {
        self.requested(*later, ledger, r) && after == ledger
    }

    open spec fn resumes(
        &self,
        later: &SnapshotState<K>,
        response: TaskResponseV1,
        cpu: CpuSlice,
        ledger: TaskAccounting,
        after: TaskAccounting,
        r: Result<TaskAction<Arc<Snapshot>>, OperationFailure>,
    ) -> bool {
        self.resumed(*later, response, cpu, ledger, after, r)
    }

    fn retained_bytes(&self) -> (r: Result<usize, ResourceExhausted>)
        ensures
            exists|state_size: StateSize|
                {
                    &&& state_size.covers(self.discovery)
                    &&& r == #[trigger] self.retained(state_size)
                },
    {
        let state_size = self.measure();
        self.retained_bytes_sized(&state_size)
    }

    fn advance(&mut self, cpu: CpuSlice, accounting: &mut TaskAccounting) -> (r: Result<
        TaskAction<Arc<Snapshot>>,
        OperationFailure,
    >)
        ensures
            old(self).advanced(*final(self), cpu, *old(accounting), *final(accounting), r),
    {
        if !self.evaluating {
            return match self.discover(cpu, accounting) {
                Ok(true) => Ok(TaskAction::Yield),
                Ok(false) => Ok(TaskAction::Request),
                Err(failure) => Err(failure),
            };
        }
        if self.evaluation_done {
            return match self.finish_snapshot(accounting) {
                Ok(snapshot) => Ok(TaskAction::Complete(snapshot)),
                Err(failure) => Err(failure),
            };
        }
        if self.page.is_some() {
            return match self.read_page(cpu, accounting) {
                Ok(true) => Ok(TaskAction::Yield),
                Ok(false) => Ok(TaskAction::Request),
                Err(failure) => Err(failure),
            };
        }
        Ok(TaskAction::Request)
    }

    fn take_request(&mut self, accounting: &mut TaskAccounting) -> (r: Result<
        TaskRequestV1,
        OperationFailure,
    >)
        ensures
            old(self).requested(*final(self), *old(accounting), r),
            *final(accounting) == *old(accounting),
    {
        if !self.evaluating {
            return self.request_listing(accounting);
        }
        let plan = self.plan.take();
        let limits = match task_evaluation_limits(&self.limits) {
            Ok(limits) => limits,
            Err(failure) => return Err(failure),
        };
        match plan {
            Some(plan) => Ok(
                TaskRequestV1::EvaluationStart { evaluation: self.evaluation, plan, limits },
            ),
            None => Ok(
                TaskRequestV1::Evaluation { evaluation: self.evaluation, limits: limits.page() },
            ),
        }
    }

    fn resume(&mut self, response: TaskResponseV1, cpu: CpuSlice, accounting: &mut TaskAccounting) -> (r:
        Result<TaskAction<Arc<Snapshot>>, OperationFailure>)
        ensures
            old(self).resumed(*final(self), response, cpu, *old(accounting), *final(accounting), r),
    {
        let ghost before = *self;
        let ghost ledger = *accounting;
        let ghost given = response;
        let taken = self.take_response(response, accounting);
        let ghost said = taken;
        let ghost mid = *self;
        let ghost charged = *accounting;
        assert(before.response_taken(mid, given, ledger, charged, said));
        match taken {
            Ok(()) => self.advance(cpu, accounting),
            Err(failure) => Err(failure),
        }
    }
}

/// A canonical table root and the log directory in it.
pub struct TableRoot {
    /// The root, with a slash at its end.
    pub root: Seq<char>,
    /// The log directory.
    pub log_root: Seq<char>,
}

/// What reading a table root gives: no query, no fragment, and a path that names can be resolved
/// against.
pub open spec fn root_read(text: Seq<char>) -> Result<Seq<char>, FailureKind> {
    match canonical(text) {
        None => Err(FailureKind::MalformedResponse),
        Some(root) => match root_facts(root) {
            None => Err(FailureKind::MalformedResponse),
            Some(facts) => if facts.query || facts.fragment || facts.opaque {
                Err(FailureKind::MalformedResponse)
            } else {
                Ok(root)
            },
        },
    }
}

/// What resolving the log directory of a canonical root gives. A root that is no directory becomes
/// one, where the parser can change its path.
pub open spec fn root_resolved(root: Seq<char>) -> Result<TableRoot, FailureKind> {
    let directory = match root_facts(root) {
        Some(facts) => if facts.directory {
            Some(root)
        } else if editable(root, ""@) {
            with_segment(root, ""@)
        } else {
            None
        },
        None => None,
    };
    match directory {
        None => Err(FailureKind::MalformedResponse),
        Some(root) => match joined(root, "_delta_log/"@) {
            None => Err(FailureKind::MalformedResponse),
            Some(log_root) => Ok(TableRoot { root, log_root }),
        },
    }
}

/// A version that no history within the allowances reaches.
pub open spec fn unreachable_version(version: Option<u64>, limits: TaskLimits) -> bool {
    version matches Some(version) && (version >= limits.allowance(Resource::LogDescriptors)
        || version > i64::MAX)
}

/// Bounded JSON-only snapshot discovery and projected protocol and metadata replay.
///
/// The host supplies an independent task and evaluation identity and owns every external effect.
/// Successful snapshots retain immutable discovery provenance for a later, independent scan task.
///
/// This narrow task accepts unpartitioned primitive fields with empty field metadata. Even otherwise
/// harmless field metadata such as a comment is rejected as unsupported; it is never silently
/// discarded. Checkpoints, reader features and row transforms remain outside this JSON-only path.
pub struct SnapshotLoadTask<K: TableKernel> {
    machine: TaskMachine<SnapshotState<K>>,
}

impl<K: TableKernel> SnapshotLoadTask<K> {
    /// The protocol machine.
    pub closed spec fn protocol(self) -> TaskMachine<SnapshotState<K>> {
        self.machine
    }

    /// What owning the task gives: the owners of its roots. Every descriptor slot is owned from the
    /// start.
    pub open spec fn task_owned(root: Seq<char>, limits: TaskLimits) -> Result<usize, FailureKind> {
        let overflow = uncountable(limits, Resource::TaskStateBytes);
        match fitted(root_owners(utf8(root).len()) as int) {
            None => Err(overflow),
            Some(roots) => match fitted(
                limits.allowance(Resource::LogDescriptors) * size_of::<FileDescriptor>() + roots
                    + size_of::<SnapshotLoadTask<K>>() + size_of::<SnapshotState<K>>(),
            ) {
                None => Err(overflow),
                Some(bytes) => match allowed(limits, Resource::TaskStateBytes, bytes as int) {
                    Err(kind) => Err(kind),
                    Ok(()) => Ok(roots),
                },
            },
        }
    }

    /// What opening a task gives: its roots and their owners.
    pub open spec fn opened(
        id: TaskId,
        evaluation: EvaluationKey,
        table_root: Seq<char>,
        version: Option<u64>,
        limits: TaskLimits,
    ) -> Result<(TableRoot, usize), FailureKind> {
        if evaluation.owner() != id.number() {
            Err(FailureKind::MalformedResponse)
        } else {
            match root_read(table_root) {
                Err(kind) => Err(kind),
                Ok(root) => if unreachable_version(version, limits) {
                    Err(uncountable(limits, Resource::LogDescriptors))
                } else {
                    match SnapshotLoadTask::<K>::task_owned(root, limits) {
                        Err(kind) => Err(kind),
                        Ok(roots) => match root_resolved(root) {
                            Err(kind) => Err(kind),
                            Ok(resolved) => Ok((resolved, roots)),
                        },
                    }
                },
            }
        }
    }

    /// A state that has not begun to list.
    pub open spec fn fresh(
        state: SnapshotState<K>,
        kernel: K,
        layout: KernelLayout,
        evaluation: EvaluationKey,
        resolved: TableRoot,
        roots: usize,
        version: Option<u64>,
        limits: TaskLimits,
    ) -> bool {
        &&& state.kernel == kernel
        &&& state.layout == layout
        &&& state.table_root@ == resolved.root
        &&& state.roots == roots
        &&& state.evaluation == evaluation
        &&& state.limits == limits
        &&& state.discovery.log_root@ == resolved.log_root
        &&& state.discovery.version == version
        &&& state.discovery.limits == limits
        &&& state.discovery.files@.len() == 0
        &&& state.discovery.file_path_capacity == 0
        &&& state.discovery.listing@.len() == 0
        &&& state.discovery.listing_path_capacity == 0
        &&& state.discovery.listing_index == 0
        &&& state.discovery.continuation is None
        &&& !state.discovery.discovery_done
        &&& state.manifest is None
        &&& state.segment is None
        &&& state.segment_bytes == 0
        &&& state.plan is None
        &&& !state.evaluating
        &&& state.page is None
        &&& state.page_index == 0
        &&& state.candidate is None
        &&& state.materialized_bytes == 0
        &&& state.host_retained_bytes == 0
        &&& !state.evaluation_done
    }

    /// `r` is the task of a fresh state, with the descriptor slots as they were granted or denied and
    /// the storage behind the state as it was measured.
    pub open spec fn made(
        id: TaskId,
        limits: TaskLimits,
        denied: Option<String>,
        state: SnapshotState<K>,
        state_size: StateSize,
        r: Result<SnapshotLoadTask<K>, OperationFailure>,
    ) -> bool {
        if let Some(reason) = denied {
            r matches Err(failure) && carries(
                failure,
                Error::GenericError { source: ErrorSource::Allocation(reason) },
            )
        } else {
            &&& state_size.covers(state.discovery)
            &&& match observation(
                limits.allowance(Resource::TaskStateBytes),
                TaskMachine::<SnapshotState<K>>::fixed(),
                state.retained(state_size),
                None,
            ) {
                Err(error) => r matches Err(failure) && failure.is_terminal(
                    FailureKind::ResourceExhausted(error),
                ),
                Ok((retained, _)) => {
                    &&& r matches Ok(task)
                    &&& task.protocol().begins(id, state, limits)
                    &&& task.protocol().ledger().counters(Resource::TaskStateBytes)
                        == ResourceUsage::of(0, retained, retained)
                },
            }
        }
    }

    /// Admits task storage before copying the canonical URL or reserving descriptor slots.
    ///
    /// Whether the allocator grants the slots is not stated.
    pub fn try_new(
        kernel: K,
        layout: KernelLayout,
        id: TaskId,
        evaluation: EvaluationKey,
        table_root: &str,
        version: Option<u64>,
        limits: TaskLimits,
    ) -> (r: Result<SnapshotLoadTask<K>, OperationFailure>)
        ensures
            match SnapshotLoadTask::<K>::opened(id, evaluation, table_root@, version, limits) {
                Err(kind) => r matches Err(failure) && failure.is_terminal(kind),
                Ok((resolved, roots)) => exists|
                    denied: Option<String>,
                    state: SnapshotState<K>,
                    state_size: StateSize,
                |
                    {
                        &&& denied is None ==> SnapshotLoadTask::fresh(
                            state,
                            kernel,
                            layout,
                            evaluation,
                            resolved,
                            roots,
                            version,
                            limits,
                        )
                        &&& #[trigger] SnapshotLoadTask::made(id, limits, denied, state, state_size, r)
                    },
            },
    {
        if evaluation.task_id() != id.get() {
            return Err(OperationFailure::malformed_response());
        }
        let root = match location(table_root) {
            Some(root) => root,
            None => return Err(OperationFailure::malformed_response()),
        };
        let facts = match read_root(root.as_str()) {
            Some(facts) => facts,
            None => return Err(OperationFailure::malformed_response()),
        };
        if facts.query || facts.fragment || facts.opaque {
            return Err(OperationFailure::malformed_response());
        }
        let slots: usize = limits.limit(Resource::LogDescriptors);
        if let Some(version) = version {
            if version >= slots as u64 || version > i64::MAX as u64 {
                return Err(exhausted(Resource::LogDescriptors, &limits));
            }
        }
        let roots: usize = counted(
            root_owner_peak(byte_len(root.as_str())),
            Resource::TaskStateBytes,
            &limits,
        )?;
        let total = plus(
            &plus(
                &CheckedUsize::new(slots).mul_checked(&size::<FileDescriptor>()).add_value(roots),
                &size::<SnapshotLoadTask<K>>(),
            ),
            &size::<SnapshotState<K>>(),
        );
        let bytes: usize = counted(total.to_option(), Resource::TaskStateBytes, &limits)?;
        match check(Resource::TaskStateBytes, bytes, &limits) {
            Ok(()) => {},
            Err(failure) => return Err(failure),
        }
        let table_root = if facts.directory {
            root
        } else if is_editable(root.as_str(), "") {
            match push_segment(root.as_str(), "") {
                Some(directory) => directory,
                None => return Err(OperationFailure::malformed_response()),
            }
        } else {
            return Err(OperationFailure::malformed_response());
        };
        let log_root = match join_location(table_root.as_str(), "_delta_log/") {
            Some(log_root) => log_root,
            None => return Err(OperationFailure::malformed_response()),
        };
        let mut files: Vec<FileDescriptor> = Vec::new();
        if let Err(reason) = reserve_exact(&mut files, slots) {
            let ghost denied = Some(reason);
            let source = ErrorSource::Allocation(reason);
            let r = Err(OperationFailure::engine(Error::generic_err(source)));
            assert(SnapshotLoadTask::<K>::made(id, limits, denied, arbitrary(), arbitrary(), r));
            return r;
        }
        let state = SnapshotState {
            kernel,
            layout,
            table_root,
            roots,
            evaluation,
            limits,
            discovery: LogDiscovery::new(log_root, version, limits, files),
            manifest: None,
            segment: None,
            segment_bytes: 0,
            plan: None,
            evaluating: false,
            page: None,
            page_index: 0,
            candidate: None,
            materialized_bytes: 0,
            host_retained_bytes: 0,
            evaluation_done: false,
        };
        let ghost begun = state;
        let ghost token = id;
        let made = TaskMachine::new(id, state, limits);
        let ghost dynamic = choose|dynamic: Result<usize, ResourceExhausted>| #[trigger]
            TaskMachine::begun(token, begun, limits, dynamic, made);
        let ghost state_size = choose|state_size: StateSize|
            {
                &&& state_size.covers(begun.discovery)
                &&& dynamic == #[trigger] begun.retained(state_size)
            };
        let r = match made {
            Ok(machine) => Ok(SnapshotLoadTask { machine }),
            Err(failure) => Err(failure),
        };
        assert(SnapshotLoadTask::made(token, limits, None, begun, state_size, r));
        r
    }

    /// Borrows cumulative and peak accounting after terminal cleanup.
    pub fn accounting(&self) -> (usage: TaskUsage<'_>)
        ensures
            usage.ledger() == self.protocol().ledger(),
    {
        self.machine.accounting()
    }
}

impl<K: TableKernel> OperationTask for SnapshotLoadTask<K> {
    type Output = Arc<Snapshot>;

    fn pending_work(&mut self) -> (r: Result<PendingWork<'_>, TaskProtocolError>)
        ensures
            match (old(self).protocol().running_result(), old(self).protocol().awaiting()) {
                (Err(error), _) => r matches Err(e) && e == error,
                (Ok(()), None) => r matches Err(e) && e == TaskProtocolError::WrongKey,
                (Ok(()), Some((key, _))) => {
                    &&& r matches Ok(work)
                    &&& work.request() == key
                    &&& work.ledger() == old(self).protocol().ledger()
                    &&& final(self).protocol().ledger() == *final(work.loan())
                },
            },
            old(self).protocol().same_protocol(final(self).protocol()),
            r is Err ==> final(self).protocol().ledger() == old(self).protocol().ledger(),
    {
        self.machine.pending_work()
    }

    fn start(&mut self, cpu: CpuSlice) -> (r: Result<TaskStep<Arc<Snapshot>>, TaskProtocolError>)
        ensures
            old(self).protocol().start_outcome(final(self).protocol(), cpu, r),
    {
        self.machine.start(cpu)
    }

    fn progress(&mut self, cpu: CpuSlice) -> (r: Result<TaskStep<Arc<Snapshot>>, TaskProtocolError>)
        ensures
            old(self).protocol().progress_outcome(final(self).protocol(), cpu, r),
    {
        self.machine.progress(cpu)
    }

    fn resume(
        &mut self,
        key: RequestKey,
        response: Result<TaskResponseV1, OperationFailure>,
        cpu: CpuSlice,
    ) -> (r: Result<TaskStep<Arc<Snapshot>>, TaskProtocolError>)
        ensures
            old(self).protocol().resume_outcome(final(self).protocol(), key, response, cpu, r),
    {
        self.machine.resume(key, response, cpu)
    }

    fn cancel(&mut self, reason: CancelReason) -> (disposition: CancelDisposition)
        ensures
            old(self).protocol().cancel_outcome(final(self).protocol(), disposition),
    {
        self.machine.cancel(reason)
    }
}

/// The plan of a replay is handed over once: whatever is requested behind it, it is not requested
/// again.
pub proof fn replay_plans_are_handed_over_once<K: TableKernel>(
    state: SnapshotState<K>,
    between: SnapshotState<K>,
    later: SnapshotState<K>,
    first: TaskAccounting,
    second: TaskAccounting,
    r: Result<TaskRequestV1, OperationFailure>,
    again: Result<TaskRequestV1, OperationFailure>,
)
    requires
        state.evaluating,
        state.requested(between, first, r),
        between.requested(later, second, again),
    ensures
        between.plan is None,
        again matches Ok(request) ==> request is Evaluation,
{
}

/// A load that completes gives a supported snapshot: its fields are plain primitives, and it keeps
/// the segment and the manifest of one discovered history.
pub proof fn completed_loads_are_supported<K: TableKernel>(
    machine: TaskMachine<SnapshotState<K>>,
    later: TaskMachine<SnapshotState<K>>,
    given: Option<TaskResponseV1>,
    cpu: CpuSlice,
    snapshot: Arc<Snapshot>,
)
    requires
        machine.turned(later, given, cpu, TaskStep::Complete(snapshot)),
    ensures
        crate::json_plans::plain_fields(snapshot.configuration.schema.fields@),
        snapshot.log_identity_manifest is Some,
        later.continuation() is None,
{
    let step = TaskStep::Complete(snapshot);
    let (worked, action) = choose|
        worked: TaskMachine<SnapshotState<K>>,
        action: Result<TaskAction<Arc<Snapshot>>, OperationFailure>,
    | #[trigger]
        machine.turn_followed(later, worked, given, cpu, action, step);
    let done = Ok::<TaskAction<Arc<Snapshot>>, OperationFailure>(TaskAction::Complete(snapshot));
    assert(action == done);
    let admitted = choose|admitted: TaskAccounting| #[trigger]
        machine.works(worked, given, cpu, admitted, action);
    let state = machine.continuation()->0;
    let left = worked.continuation()->0;
    match given {
        None => {
            assert(state.advances(&left, cpu, admitted, worked.ledger(), done));
            completed_turns_are_supported(state, left, cpu, admitted, worked.ledger(), snapshot);
        },
        Some(response) => {
            assert(state.resumes(&left, response, cpu, admitted, worked.ledger(), done));
            let (mid, charged, taken) = choose|
                mid: SnapshotState<K>,
                charged: TaskAccounting,
                taken: Result<(), OperationFailure>,
            |
                {
                    &&& #[trigger] state.response_taken(mid, response, admitted, charged, taken)
                    &&& match taken {
                        Ok(()) => mid.advanced(left, cpu, charged, worked.ledger(), done),
                        Err(failure) => worked.ledger() == charged && done == Err::<
                            TaskAction<Arc<Snapshot>>,
                            OperationFailure,
                        >(failure),
                    }
                };
            completed_turns_are_supported(mid, left, cpu, charged, worked.ledger(), snapshot);
        },
    }
}

proof fn completed_turns_are_supported<K: TableKernel>(
    state: SnapshotState<K>,
    later: SnapshotState<K>,
    cpu: CpuSlice,
    ledger: TaskAccounting,
    after: TaskAccounting,
    snapshot: Arc<Snapshot>,
)
    requires
        state.advanced(
            later,
            cpu,
            ledger,
            after,
            Ok::<TaskAction<Arc<Snapshot>>, OperationFailure>(TaskAction::Complete(snapshot)),
        ),
    ensures
        crate::json_plans::plain_fields(snapshot.configuration.schema.fields@),
        snapshot.log_identity_manifest is Some,
{
    let done = Ok::<TaskAction<Arc<Snapshot>>, OperationFailure>(TaskAction::Complete(snapshot));
    if state.evaluating && state.evaluation_done {
        let output = choose|output: Result<Arc<Snapshot>, OperationFailure>|
            {
                &&& #[trigger] state.finished(later, ledger, after.book(), output)
                &&& completion_of(output, done)
            };
        crate::json_replay::finished_snapshots_are_supported(
            state,
            later,
            ledger,
            after.book(),
            output,
        );
    }
}

/// A load is opened exactly for an evaluation of its own task, a root that is a plain location whose
/// log directory can be resolved, a version that the log descriptors can reach, and where its
/// descriptors, its roots and its own state fit into the task's storage.
pub proof fn loads_open_over_their_root<K: TableKernel>(
    id: TaskId,
    evaluation: EvaluationKey,
    table_root: Seq<char>,
    version: Option<u64>,
    limits: TaskLimits,
)
    ensures
        ({
            let opened = SnapshotLoadTask::<K>::opened(id, evaluation, table_root, version, limits);
            &&& opened is Ok <==> {
                &&& evaluation.owner() == id.number()
                &&& canonical(table_root) matches Some(root)
                &&& root_facts(root) matches Some(facts)
                &&& !facts.query
                &&& !facts.fragment
                &&& !facts.opaque
                &&& version matches Some(wanted) ==> {
                    &&& wanted < limits.allowance(Resource::LogDescriptors)
                    &&& wanted <= i64::MAX
                }
                &&& root_owners(utf8(root).len()) + limits.allowance(Resource::LogDescriptors)
                    * size_of::<FileDescriptor>() + size_of::<SnapshotLoadTask<K>>() + size_of::<
                    SnapshotState<K>,
                >() <= limits.allowance(Resource::TaskStateBytes)
                &&& root_resolved(root) is Ok
            }
            &&& opened matches Ok((resolved, roots)) ==> {
                &&& root_resolved(canonical(table_root)->0) == Ok::<TableRoot, FailureKind>(resolved)
                &&& roots == root_owners(utf8(canonical(table_root)->0).len())
            }
        }),
{
    assert(limits.allowance(Resource::LogDescriptors) * size_of::<FileDescriptor>() >= 0)
        by (nonlinear_arith)
        requires
            limits.allowance(Resource::LogDescriptors) >= 0,
            size_of::<FileDescriptor>() >= 0,
    ;
}

/// A root is resolved exactly where it is a directory or can become one, and its log directory can be
/// joined. A directory is resolved as it is, anything else gets an empty segment behind it.
pub proof fn roots_become_directories(root: Seq<char>)
    ensures
        root_resolved(root) is Ok <==> {
            &&& root_facts(root) matches Some(facts)
            &&& facts.directory || (editable(root, ""@) && with_segment(root, ""@) is Some)
            &&& joined(
                if facts.directory {
                    root
                } else {
                    with_segment(root, ""@)->0
                },
                "_delta_log/"@,
            ) is Some
        },
        root_resolved(root) matches Ok(resolved) ==> {
            &&& root_facts(root) matches Some(facts)
            &&& facts.directory ==> resolved.root == root
            &&& !facts.directory ==> with_segment(root, ""@) == Some(resolved.root)
            &&& joined(resolved.root, "_delta_log/"@) == Some(resolved.log_root)
        },
{
}

/// A load that is discovering asks for the next page of its log directory, from where the last one
/// ended and under its own allowances, exactly where the request's texts have room. One that is
/// evaluating asks for its own evaluation, first with its plan.
pub proof fn loads_request_what_comes_next<K: TableKernel>(
    state: SnapshotState<K>,
    later: SnapshotState<K>,
    ledger: TaskAccounting,
    r: Result<TaskRequestV1, OperationFailure>,
)
    requires
        state.requested(later, ledger, r),
    ensures
        !state.evaluating ==> later == state,
        state.evaluating ==> (r is Ok <==> evaluation_bounds(state.limits) is Ok),
        r matches Ok(request) ==> match request {
            TaskRequestV1::List { root, continuation, entries, descriptor_bytes, continuation_bytes } => {
                &&& !state.evaluating
                &&& root@ == state.discovery.log_root@
                &&& continuation is Some <==> state.discovery.continuation is Some
                &&& continuation matches Some(text) ==> text@ == state.discovery.continuation->0@
                &&& entries == state.limits.allowance(Resource::ListingEntries)
                &&& descriptor_bytes == state.limits.allowance(Resource::ListingDescriptorBytes)
                &&& continuation_bytes == state.limits.allowance(Resource::ContinuationBytes)
            },
            TaskRequestV1::EvaluationStart { evaluation, plan, limits } => {
                &&& state.evaluating
                &&& evaluation == state.evaluation
                &&& state.plan == Some(plan)
                &&& limits.page_cap() == state.limits.allowance(Resource::EvaluationPages)
                &&& limits.row_cap() == state.limits.allowance(Resource::EvaluationRows)
                &&& limits.byte_cap() == state.limits.allowance(Resource::EvaluationBytes)
                &&& limits.batch_cap() == state.limits.allowance(Resource::EvaluationBatches)
            },
            TaskRequestV1::Evaluation { evaluation, limits } => {
                &&& state.evaluating
                &&& evaluation == state.evaluation
                &&& state.plan is None
                &&& limits.row_cap() == state.limits.allowance(Resource::EvaluationPageRows)
                &&& limits.byte_cap() == state.limits.allowance(Resource::EvaluationPageBytes)
                &&& limits.batch_cap() == state.limits.allowance(Resource::EvaluationPageBatches)
            },
            _ => false,
        },
{
    crate::table_support::evaluations_are_bounded_by_the_allowances(state.limits);
}

/// The texts of a listing request are owned exactly where the root's and the cursor's bytes have room
/// beside what the load holds.
pub proof fn listing_requests_own_their_texts<K: TableKernel>(
    state: SnapshotState<K>,
    size: StateSize,
    book: LedgerView,
)
    ensures
        ({
            let cursor = if let Some(text) = state.discovery.continuation {
                utf8(text@).len()
            } else {
                0
            };
            let extra = utf8(state.discovery.log_root@).len() + cursor;
            state.listing_owned(size, book) is Ok <==> extra <= usize::MAX && state.room(
                state.discovery.file_path_capacity,
                size,
                book,
            ).considered(book.limits, state.limits, extra as usize) is Ok
        }),
{
}

/// A load takes a listing only while it discovers, and pages only of its own evaluation behind that.
/// Anything else is refused, and changes nothing.
pub proof fn loads_take_their_own_responses<K: TableKernel>(
    state: SnapshotState<K>,
    later: SnapshotState<K>,
    response: TaskResponseV1,
    ledger: TaskAccounting,
    after: TaskAccounting,
    r: Result<(), OperationFailure>,
)
    requires
        state.response_taken(later, response, ledger, after, r),
    ensures
        r is Ok ==> match response {
            TaskResponseV1::Listing { .. } => !state.evaluating && later.evaluating
                == state.evaluating && later.page == state.page,
            TaskResponseV1::Evaluation { evaluation, page } => {
                &&& state.evaluating
                &&& evaluation == state.evaluation
                &&& page is Some ==> later.page == page
                &&& page is None ==> later.evaluation_done
                &&& later.discovery == state.discovery
            },
            _ => false,
        },
        !(response is Listing) && !(response is Evaluation) ==> later == state && after == ledger,
{
}

/// A load goes through its phases: it discovers until it evaluates, looks at each page before it asks
/// for the next one, and completes only behind the end of its evaluation.
pub proof fn loads_complete_behind_their_evaluation<K: TableKernel>(
    state: SnapshotState<K>,
    later: SnapshotState<K>,
    cpu: CpuSlice,
    ledger: TaskAccounting,
    after: TaskAccounting,
    r: Result<TaskAction<Arc<Snapshot>>, OperationFailure>,
)
    requires
        state.advanced(later, cpu, ledger, after, r),
    ensures
        (r matches Ok(TaskAction::Complete(_))) ==> state.evaluating && state.evaluation_done,
        state.evaluating && state.evaluation_done ==> r is Err || (r matches Ok(
            TaskAction::Complete(_),
        )),
        state.evaluating && !state.evaluation_done && state.page is None ==> {
            &&& r matches Ok(TaskAction::Request)
            &&& later == state
            &&& after == ledger
        },
{
}

} // verus!
