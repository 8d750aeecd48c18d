//! Driver-owned state for one task's storage and evaluation effects.
//!
//! The driver separates request dispatch, effect completion and response transfer. What a storage
//! source hands back is validated against the request and against what was observed of the same
//! object before; only then does it become a response.

use crate::accounting::TaskLimits;
use crate::backing::{optional_text_capacity, text_capacity, vec_capacity};
use crate::bytes::{
    begins, begins_with, byte_len, ends_in_slash, is_directory, precedes, same_text, utf8,
};
use crate::evaluation::{
    held, readers_give_nothing_back, AdmittedEvaluationSource, EvaluationLimits, EvaluationPage,
    EvaluationPageLimits, EvaluationReader, EvaluationUsage,
};
use crate::failure::{FailureKind, OperationFailure, TaskProtocolError};
use crate::plan_admission::AdmittedPlan;
use crate::protocol::{
    EvaluationKey, FileDescriptor, IdentityAllocator, ObjectIdentity, RequestKey, TaskId,
    TaskRequest, TaskRequestV1, TaskResponseV1,
};
use crate::storage::{
    accepted_listings_are_sorted, accepted_paths_follow, capacities_cover, listed_paths,
    listing_valid, measure_listing, optional_utf8, optional_value, optional_view, total,
    validate_listing, AdmittedFooter, AdmittedHead, AdmittedIoEffect, AdmittedIoSource,
    AdmittedListingPage, AdmittedRead, BindingView, BindingsView, IoUsage, ListingCapacities,
    ObjectBindings,
};
use vstd::prelude::*;

verus! {

broadcast use crate::protocol::key_parts;

/// Turns an admitted plan into the source of its batches, at most once per driver.
pub trait PlanCompiler {
    /// `r` is what `compile` may give of this compiler: the source of the plan's batches, or the
    /// failure that refuses the plan. A compiler that says nothing here may give anything.
    open spec fn compiles(
        &self,
        plan: AdmittedPlan,
        limits: EvaluationLimits,
        r: Result<AdmittedEvaluationSource, OperationFailure>,
    ) -> bool {
        true
    }

    /// Compiles the plan, admitting what execution will own.
    fn compile(&mut self, plan: AdmittedPlan, limits: EvaluationLimits) -> (r: Result<
        AdmittedEvaluationSource,
        OperationFailure,
    >)
        ensures
            old(self).compiles(plan, limits, r),
    ;
}

/// The next request's place in a driver's sequence.
#[derive(Debug, Clone, Copy, PartialEq, Eq, Structural)]
pub struct RequestSequence {
    /// The number that the next request must have.
    pub next: u64,
}

impl RequestSequence {
    /// What a request's key does to the sequence.
    pub open spec fn follows(self, task_id: u64, key: RequestKey) -> Result<u64, TaskProtocolError> {
        if key.owner() != task_id || key.sequence() != self.next {
            Err(TaskProtocolError::WrongKey)
        } else if self.next == u64::MAX {
            Err(TaskProtocolError::IdentityExhausted)
        } else {
            Ok((self.next + 1) as u64)
        }
    }

    /// Checks a request's key and gives the number that must follow.
    pub fn checked_next(self, task_id: u64, key: RequestKey) -> (r: Result<u64, TaskProtocolError>)
        ensures
            r == self.follows(task_id, key),
    {
        if key.task_id() != task_id || key.request_id() != self.next {
            return Err(TaskProtocolError::WrongKey);
        }
        match self.next.checked_add(1) {
            Some(next) => Ok(next),
            None => Err(TaskProtocolError::IdentityExhausted),
        }
    }
}

/// The evaluation whose source the driver owns.
pub struct ActiveEvaluation {
    /// The evaluation's identity.
    pub key: EvaluationKey,
    /// The limits of each of its pages.
    pub page_limits: EvaluationPageLimits,
    /// The reader that owns its source.
    pub reader: EvaluationReader,
}

struct ListingBinding {
    root: String,
    continuation: String,
}

/// The cursor that the last full listing page left.
#[verifier::ext_equal]
pub struct ListingView {
    /// The listing's root.
    pub root: Seq<u8>,
    /// The last path that was handed over.
    pub continuation: Seq<u8>,
}

/// The storage behind a storage effect and its request, as it was measured.
pub struct IoCapacities {
    /// The storage behind a listing page.
    pub listing: ListingCapacities,
    /// The bytes behind the request's path.
    pub path: usize,
    /// The bytes behind what was read.
    pub bytes: usize,
}

/// A driver's state.
pub struct DriverView {
    /// The task.
    pub task: u64,
    /// The number that the next request must have.
    pub next: u64,
    /// Whether the one evaluation was dispatched.
    pub started: bool,
    /// The dispatched effect that was not completed yet.
    pub effect: Option<TaskRequest>,
    /// The completed response that was not transferred yet.
    pub response: Option<(RequestKey, Result<TaskResponseV1, OperationFailure>)>,
    /// The evaluation whose source is owned here.
    pub active: Option<ActiveEvaluation>,
    /// The evaluation whose stream a host owns.
    pub external: Option<(EvaluationKey, EvaluationLimits)>,
    /// Whether the storage source is still owned.
    pub has_source: bool,
    /// What was observed of each object.
    pub objects: Option<BindingsView>,
    /// The cursor that the next listing must present.
    pub listing: Option<ListingView>,
    /// Cumulative evaluation work.
    pub usage: EvaluationUsage,
    /// Cumulative storage work.
    pub io_usage: IoUsage,
    /// Whether the compiler is still owned.
    pub has_compiler: bool,
    /// Whether nothing more can be dispatched.
    pub terminal: bool,
    /// Whether the driver was cancelled.
    pub cancelled: bool,
}

/// What a driver met outside while it ran an effect.
pub struct EffectRun {
    /// The storage behind the request's path and the effect, as measured.
    pub capacities: IoCapacities,
    /// What the storage source gave, where it was asked.
    pub given: Result<AdmittedIoEffect, OperationFailure>,
    /// What the compiler gave, where it was asked.
    pub compiled: Result<AdmittedEvaluationSource, OperationFailure>,
}

impl DriverView {
    /// The queued effect's or the waiting response's key.
    pub open spec fn outstanding(self) -> Option<RequestKey> {
        match (self.effect, self.response) {
            (Some(request), _) => Some(request.key),
            (None, Some((key, _))) => Some(key),
            (None, None) => None,
        }
    }

    /// What was observed of a path.
    pub open spec fn observed(self, path: Seq<u8>) -> Option<BindingView> {
        match self.objects {
            Some(objects) => objects.at(path),
            None => None,
        }
    }

    /// A listing request that follows on what was listed before. `capacity` is the storage behind
    /// its cursor.
    pub open spec fn list_admissible(
        self,
        root: Seq<u8>,
        continuation: Option<Seq<u8>>,
        entries: usize,
        descriptor_bytes: usize,
        continuation_bytes: usize,
        capacity: usize,
    ) -> bool {
        &&& self.has_source
        &&& is_directory(root)
        &&& entries > 0
        &&& entries * vstd::layout::size_of::<FileDescriptor>() <= descriptor_bytes
        &&& continuation_bytes > 0
        &&& match (continuation, self.listing) {
            (None, None) => true,
            (Some(actual), Some(expected)) => capacity <= continuation_bytes && actual.len() > 0
                && begins(actual, root) && expected.root == root && expected.continuation == actual,
            _ => false,
        }
    }

    /// A read request within what is known of its object.
    pub open spec fn read_admissible(self, path: Seq<u8>, offset: u64, length: usize) -> bool {
        &&& self.has_source
        &&& path.len() > 0
        &&& length > 0
        &&& offset + length <= u64::MAX
        &&& match self.observed(path) {
            Some(known) => known.size matches Some(size) ==> offset + length <= size,
            None => offset == 0,
        }
    }

    /// A footer request for an object whose size a HEAD has observed.
    pub open spec fn footer_known(self, path: Seq<u8>, size: u64) -> bool {
        self.observed(path) matches Some(known) && known.head_observed && known.size == Some(size)
    }

    /// Whether an operation may be dispatched. `capacity` is the storage behind a listing cursor.
    pub open spec fn admissible(self, operation: TaskRequestV1, capacity: usize) -> Result<
        (),
        TaskProtocolError,
    > {
        let refused = Err::<(), TaskProtocolError>(TaskProtocolError::WrongKind);
        match operation {
            TaskRequestV1::List {
                root,
                continuation,
                entries,
                descriptor_bytes,
                continuation_bytes,
            } => if self.list_admissible(
                utf8(root@),
                optional_utf8(optional_view(continuation)),
                entries,
                descriptor_bytes,
                continuation_bytes,
                capacity,
            ) {
                Ok(())
            } else {
                refused
            },
            TaskRequestV1::Read { path, offset, length } => if self.read_admissible(
                utf8(path@),
                offset,
                length,
            ) {
                Ok(())
            } else {
                refused
            },
            TaskRequestV1::Head { path } => if self.has_source && utf8(path@).len() > 0 {
                Ok(())
            } else {
                refused
            },
            TaskRequestV1::Footer { path, size, .. } => if self.has_source && self.footer_known(
                utf8(path@),
                size,
            ) {
                Ok(())
            } else {
                refused
            },
            TaskRequestV1::EvaluationStart { evaluation, .. } => if evaluation.owner() != self.task {
                Err(TaskProtocolError::WrongKey)
            } else if self.started || self.active is Some || self.external is Some {
                refused
            } else {
                Ok(())
            },
            TaskRequestV1::Evaluation { evaluation, limits } => match self.current() {
                None => refused,
                Some((key, page_limits)) => if evaluation != key {
                    Err(TaskProtocolError::WrongKey)
                } else if limits != page_limits {
                    refused
                } else {
                    Ok(())
                },
            },
        }
    }

    /// The evaluation in progress and the limits of its pages.
    pub open spec fn current(self) -> Option<(EvaluationKey, EvaluationPageLimits)> {
        match (self.active, self.external) {
            (Some(active), _) => Some((active.key, active.page_limits)),
            (None, Some((key, limits))) => Some((key, limits.each())),
            (None, None) => None,
        }
    }

    /// What dispatching a request gives. `capacity` is the storage behind a listing cursor.
    pub open spec fn dispatched(self, request: TaskRequest, capacity: usize) -> Result<
        DriverView,
        TaskProtocolError,
    > {
        if self.terminal {
            Err(TaskProtocolError::Terminal)
        } else if self.effect is Some || self.response is Some {
            Err(TaskProtocolError::PendingRequest)
        } else {
            match (RequestSequence { next: self.next }).follows(self.task, request.key) {
                Err(error) => Err(error),
                Ok(next) => match self.admissible(request.operation, capacity) {
                    Err(error) => Err(error),
                    Ok(()) => Ok(
                        DriverView {
                            started: self.started || request.operation is EvaluationStart,
                            next,
                            effect: Some(request),
                            ..self
                        },
                    ),
                },
            }
        }
    }

    /// The driver after it has let go of its sources.
    pub open spec fn released(self) -> DriverView {
        DriverView {
            active: None,
            external: None,
            has_source: false,
            has_compiler: false,
            objects: None,
            listing: None,
            terminal: true,
            ..self
        }
    }

    /// The identity that a storage effect must show, or why the effect cannot be run. `capacity`
    /// is the storage behind the request's path.
    pub open spec fn prepared(self, operation: TaskRequestV1, capacity: usize) -> Result<
        Option<Seq<u8>>,
        FailureKind,
    > {
        match operation {
            TaskRequestV1::Read { path, .. } => self.prepared_object(utf8(path@), capacity),
            TaskRequestV1::Head { path } => self.prepared_object(utf8(path@), capacity),
            TaskRequestV1::Footer { path, size, .. } => if self.footer_known(utf8(path@), size) {
                Ok(Some(self.observed(utf8(path@))->0.identity))
            } else {
                Err(FailureKind::MalformedResponse)
            },
            _ => Ok(None),
        }
    }

    /// The identity under which an object is known, or why it cannot be recorded.
    pub open spec fn prepared_object(self, path: Seq<u8>, capacity: usize) -> Result<
        Option<Seq<u8>>,
        FailureKind,
    > {
        match self.objects {
            None => Err(FailureKind::MalformedResponse),
            Some(objects) => match objects.room(path, capacity) {
                Err(error) => Err(FailureKind::ResourceExhausted(error)),
                Ok(()) => Ok(
                    match objects.at(path) {
                        Some(known) => Some(known.identity),
                        None => None,
                    },
                ),
            },
        }
    }

    /// What a storage effect turns into: the driver's next state and the response, or the failure.
    pub open spec fn io_outcome(
        self,
        operation: TaskRequestV1,
        effect: AdmittedIoEffect,
        capacities: IoCapacities,
    ) -> Result<(DriverView, TaskResponseV1), FailureKind> {
        let malformed = Err::<(DriverView, TaskResponseV1), FailureKind>(
            FailureKind::MalformedResponse,
        );
        match operation {
            TaskRequestV1::List {
                root,
                continuation,
                entries,
                descriptor_bytes,
                continuation_bytes,
            } => match effect {
                AdmittedIoEffect::Listing(page) => if listing_valid(
                    utf8(root@),
                    optional_utf8(optional_view(continuation)),
                    entries,
                    descriptor_bytes,
                    continuation_bytes,
                    page,
                    capacities.listing,
                ) {
                    match self.io_usage.plus_listing(page.files@.len() as usize) {
                        None => malformed,
                        Some(io_usage) => Ok(
                            (
                                DriverView {
                                    io_usage,
                                    listing: match page.binding {
                                        Some(binding) => Some(
                                            ListingView {
                                                root: utf8(root@),
                                                continuation: utf8(binding@),
                                            },
                                        ),
                                        None => None,
                                    },
                                    ..self
                                },
                                TaskResponseV1::Listing {
                                    files: page.files,
                                    continuation: page.continuation,
                                },
                            ),
                        ),
                    }
                } else {
                    malformed
                },
                _ => malformed,
            },
            TaskRequestV1::Read { path, offset, length } => match self.prepared_object(
                utf8(path@),
                capacities.path,
            ) {
                Err(kind) => Err(kind),
                Ok(expected) => match effect {
                    AdmittedIoEffect::Read(read) => {
                        let known = self.observed(utf8(path@));
                        let end = offset + length;
                        let known_size = match known {
                            Some(known) => known.size,
                            None => None,
                        };
                        let exact = {
                            &&& end <= u64::MAX
                            &&& read.offset == offset
                            &&& read.bytes@.len() == length
                            &&& capacities.bytes == length
                            &&& expected matches Some(identity) ==> identity == read.identity.value()
                            &&& known_size matches Some(size) ==> read.eof == (end == size)
                        };
                        if !exact {
                            malformed
                        } else {
                            match self.objects->0.bound(
                                utf8(path@),
                                capacities.path,
                                read.identity.value(),
                                if read.eof { Some(end as u64) } else { known_size },
                                known matches Some(known) && known.head_observed,
                            ) {
                                Err(kind) => Err(kind),
                                Ok(objects) => match self.io_usage.plus_read(length) {
                                    None => malformed,
                                    Some(io_usage) => Ok(
                                        (
                                            DriverView { objects: Some(objects), io_usage, ..self },
                                            TaskResponseV1::Bytes {
                                                offset,
                                                bytes: read.bytes,
                                                eof: read.eof,
                                            },
                                        ),
                                    ),
                                },
                            }
                        }
                    },
                    _ => malformed,
                },
            },
            TaskRequestV1::Head { path } => match self.prepared_object(
                utf8(path@),
                capacities.path,
            ) {
                Err(kind) => Err(kind),
                Ok(_) => match effect {
                    AdmittedIoEffect::Head(head) => match self.objects->0.bound(
                        utf8(path@),
                        capacities.path,
                        head.identity.value(),
                        Some(head.size),
                        true,
                    ) {
                        Err(kind) => Err(kind),
                        Ok(objects) => match self.io_usage.plus_head() {
                            None => malformed,
                            Some(io_usage) => Ok(
                                (
                                    DriverView { objects: Some(objects), io_usage, ..self },
                                    TaskResponseV1::Head { size: head.size },
                                ),
                            ),
                        },
                    },
                    _ => malformed,
                },
            },
            TaskRequestV1::Footer { path, size, .. } => if !self.footer_known(utf8(path@), size) {
                malformed
            } else {
                match effect {
                    AdmittedIoEffect::Footer(footer) => if footer.identity.value()
                        != self.observed(utf8(path@))->0.identity || footer.size != size {
                        malformed
                    } else {
                        match self.io_usage.plus_footer() {
                            None => malformed,
                            Some(io_usage) => Ok(
                                (
                                    DriverView { io_usage, ..self },
                                    TaskResponseV1::Footer { footer: footer.footer },
                                ),
                            ),
                        }
                    },
                    _ => malformed,
                }
            },
            _ => malformed,
        }
    }

    /// The driver with a response to transfer.
    pub open spec fn answering(
        self,
        key: RequestKey,
        response: Result<TaskResponseV1, OperationFailure>,
    ) -> DriverView {
        DriverView { response: Some((key, response)), ..self }
    }

    /// The driver without its queued effect.
    pub open spec fn taken(self) -> DriverView {
        DriverView { effect: None, ..self }
    }

    /// The driver without its waiting response.
    pub open spec fn transferred(self) -> DriverView {
        DriverView { response: None, ..self }
    }

    /// What transferring a response gives.
    pub open spec fn transfer(self, key: RequestKey) -> Result<
        Result<TaskResponseV1, OperationFailure>,
        TaskProtocolError,
    > {
        match self.response {
            Some((actual, response)) => if actual != key {
                Err(TaskProtocolError::WrongKey)
            } else {
                Ok(response)
            },
            None => if self.terminal {
                Err(TaskProtocolError::Terminal)
            } else {
                Err(TaskProtocolError::NotStarted)
            },
        }
    }

    /// Running an effect failed in this category, and the driver let go of its sources.
    pub open spec fn fails(
        self,
        kind: FailureKind,
        later: DriverView,
        response: Result<TaskResponseV1, OperationFailure>,
    ) -> bool {
        (response matches Err(failure) && failure.is_terminal(kind)) && later == self.released()
    }

    /// A page was asked of `reader`, which the driver does not hold meanwhile.
    pub open spec fn page_read(
        self,
        evaluation: EvaluationKey,
        page_limits: EvaluationPageLimits,
        reader: EvaluationReader,
        later: DriverView,
        response: Result<TaskResponseV1, OperationFailure>,
    ) -> bool {
        exists|read: EvaluationReader, page: Result<Option<EvaluationPage>, OperationFailure>|
            {
                &&& #[trigger] reader.pages(read, page)
                &&& self.page_answered(evaluation, page_limits, read, page, later, response)
            }
    }

    /// What the driver makes of a page: an open evaluation keeps its reader, the end of the stream
    /// releases a driver without a storage source, and a failure releases every driver.
    pub open spec fn page_answered(
        self,
        evaluation: EvaluationKey,
        page_limits: EvaluationPageLimits,
        reader: EvaluationReader,
        page: Result<Option<EvaluationPage>, OperationFailure>,
        later: DriverView,
        response: Result<TaskResponseV1, OperationFailure>,
    ) -> bool {
        let counted = DriverView { usage: reader.spent(), ..self };
        match page {
            Ok(Some(page)) => {
                &&& response == Ok::<TaskResponseV1, OperationFailure>(
                    TaskResponseV1::Evaluation { evaluation, page: Some(page) },
                )
                &&& later == DriverView {
                    active: Some(ActiveEvaluation { key: evaluation, page_limits, reader }),
                    ..counted
                }
            },
            Ok(None) => {
                &&& response == Ok::<TaskResponseV1, OperationFailure>(
                    TaskResponseV1::Evaluation { evaluation, page: None },
                )
                &&& later == if self.has_source { counted } else { counted.released() }
            },
            Err(failure) => response == Err::<TaskResponseV1, OperationFailure>(failure) && later
                == counted.released(),
        }
    }

    /// A storage effect was run: it was refused beforehand, the source failed, or what the source
    /// handed back was judged.
    pub open spec fn io_run(
        self,
        operation: TaskRequestV1,
        run: EffectRun,
        later: DriverView,
        response: Result<TaskResponseV1, OperationFailure>,
    ) -> bool {
        match self.prepared(operation, run.capacities.path) {
            Err(kind) => self.fails(kind, later, response),
            Ok(_) => if !self.has_source {
                self.fails(FailureKind::MalformedResponse, later, response)
            } else {
                match run.given {
                    Err(failure) => response == Err::<TaskResponseV1, OperationFailure>(failure)
                        && later == self.released(),
                    Ok(effect) => self.io_judged(
                        operation,
                        effect,
                        run.capacities,
                        later,
                        response,
                    ),
                }
            },
        }
    }

    /// The driver judged a storage effect.
    pub open spec fn io_judged(
        self,
        operation: TaskRequestV1,
        effect: AdmittedIoEffect,
        capacities: IoCapacities,
        later: DriverView,
        response: Result<TaskResponseV1, OperationFailure>,
    ) -> bool {
        match self.io_outcome(operation, effect, capacities) {
            Ok((driver, answer)) => response == Ok::<TaskResponseV1, OperationFailure>(answer)
                && later == driver,
            Err(kind) => self.fails(kind, later, response),
        }
    }

    /// The driver, without its queued effect, ran the effect and became `later`.
    pub open spec fn ran(
        self,
        operation: TaskRequestV1,
        run: EffectRun,
        later: DriverView,
        response: Result<TaskResponseV1, OperationFailure>,
    ) -> bool {
        match operation {
            TaskRequestV1::EvaluationStart { evaluation, plan, limits } => if !self.has_compiler {
                self.fails(FailureKind::MalformedResponse, later, response)
            } else {
                match run.compiled {
                    Err(failure) => response == Err::<TaskResponseV1, OperationFailure>(failure)
                        && later == self.released(),
                    Ok(source) => exists|reader: EvaluationReader|
                        {
                            &&& reader.source() == Some(source)
                            &&& reader.bounds() == limits
                            &&& reader.ended() is None
                            &&& reader.spent() == (EvaluationUsage {
                                pages: 0,
                                batches: 0,
                                rows: 0,
                                bytes: 0,
                            })
                            &&& #[trigger] (DriverView { has_compiler: false, ..self }).page_read(
                                evaluation,
                                limits.each(),
                                reader,
                                later,
                                response,
                            )
                        },
                }
            },
            TaskRequestV1::Evaluation { evaluation, .. } => match self.active {
                None => self.fails(FailureKind::MalformedResponse, later, response),
                Some(active) => (DriverView { active: None, ..self }).page_read(
                    evaluation,
                    active.page_limits,
                    active.reader,
                    later,
                    response,
                ),
            },
            _ => self.io_run(operation, run, later, response),
        }
    }

    /// The driver after a cancellation that was accepted.
    pub open spec fn abandoned(self) -> DriverView {
        DriverView {
            effect: None,
            response: None,
            usage: match self.active {
                Some(active) => active.reader.spent(),
                None => self.usage,
            },
            cancelled: true,
            ..self.released()
        }
    }

    /// The driver's invariant: its task has an identity, one effect or response is outstanding at most, a terminal driver
    /// owns no source, and a cancelled one owns nothing.
    pub open spec fn wf(self) -> bool {
        &&& self.task != 0
        &&& self.effect is Some ==> self.response is None
        &&& self.terminal ==> self.effect is None && self.active is None && self.external is None
            && !self.has_source && !self.has_compiler && self.objects is None && self.listing is None
        &&& self.cancelled ==> self.terminal && self.response is None
        &&& self.effect matches Some(request) ==> (request.operation is EvaluationStart
            ==> self.active is None)
        &&& self.active matches Some(active) ==> active.reader.wf() && active.reader.spent()
            == self.usage && active.reader.ended() is None
    }
}

/// Driver-owned state for one task's admitted storage and internal evaluation effects.
///
/// The driver separates request dispatch, effect completion and response transfer so callers can
/// yield between them. Its explicit I/O source and plan compiler admit their own allocations. It
/// does not adapt ordinary storage handlers, Parquet handlers or plan executors.
pub struct OperationDriver<S, C> {
    task_id: u64,
    sequence: RequestSequence,
    started: bool,
    effect: Option<TaskRequest>,
    response: Option<(RequestKey, Result<TaskResponseV1, OperationFailure>)>,
    active: Option<ActiveEvaluation>,
    external_active: Option<(EvaluationKey, EvaluationLimits)>,
    source: Option<S>,
    objects: Option<ObjectBindings>,
    listing: Option<ListingBinding>,
    usage: EvaluationUsage,
    io_usage: IoUsage,
    compiler: Option<C>,
    terminal: bool,
    cancelled: bool,
}

/// Evaluation-only operation driver with no storage-effect source.
pub type EvaluationDriver<C> = OperationDriver<(), C>;

impl<S, C> View for OperationDriver<S, C> {
    type V = DriverView;

    closed spec fn view(&self) -> DriverView {
        DriverView {
            task: self.task_id,
            next: self.sequence.next,
            started: self.started,
            effect: self.effect,
            response: self.response,
            active: self.active,
            external: self.external_active,
            has_source: self.source is Some,
            objects: match self.objects {
                Some(objects) => Some(objects@),
                None => None,
            },
            listing: match self.listing {
                Some(listing) => Some(
                    ListingView {
                        root: utf8(listing.root@),
                        continuation: utf8(listing.continuation@),
                    },
                ),
                None => None,
            },
            usage: self.usage,
            io_usage: self.io_usage,
            has_compiler: self.compiler is Some,
            terminal: self.terminal,
            cancelled: self.cancelled,
        }
    }
}

/// The identity and the empty table of a fresh driver, or why there are none. The table's storage is
/// reserved first.
pub open spec fn identity_with_table(
    ids: IdentityAllocator,
    limits: TaskLimits,
    granted: bool,
    slots: usize,
) -> Result<(u64, BindingsView), TaskProtocolError> {
    match ObjectBindings::reserved(limits, slots) {
        Some(table) if granted => match crate::protocol::next_identity(ids.tasks()) {
            Some(id) => Ok((id, table)),
            None => Err(TaskProtocolError::IdentityExhausted),
        },
        _ => Err(TaskProtocolError::InvalidLimits),
    }
}

/// A driver that has nothing to do yet.
pub open spec fn idle(
    driver: DriverView,
    task: u64,
    has_source: bool,
    has_objects: bool,
) -> bool {
    &&& driver.task == task
    &&& driver.next == 1
    &&& !driver.started
    &&& driver.effect is None
    &&& driver.response is None
    &&& driver.active is None
    &&& driver.external is None
    &&& driver.has_source == has_source
    &&& driver.objects is Some == has_objects
    &&& driver.listing is None
    &&& driver.usage == (EvaluationUsage { pages: 0, batches: 0, rows: 0, bytes: 0 })
    &&& driver.io_usage == IoUsage::none()
    &&& driver.has_compiler
    &&& !driver.terminal
    &&& !driver.cancelled
}

impl<S, C> OperationDriver<S, C> {
    /// The storage source.
    pub closed spec fn source(self) -> Option<S> {
        self.source
    }

    /// The compiler.
    pub closed spec fn compiler(self) -> Option<C> {
        self.compiler
    }

    /// The source that this driver still owns is the one given, and the compiler that it still owns
    /// is that of `before`, which was not called since.
    pub open spec fn keeps(self, before: OperationDriver<S, C>, source: Option<S>) -> bool {
        &&& self.source() is Some ==> self.source() == source
        &&& self.compiler() is Some ==> self.compiler() == before.compiler()
    }

    /// The invariant of the driver's view.
    pub open spec fn wf(self) -> bool {
        self@.wf()
    }

    fn allocate_inner(
        ids: &mut IdentityAllocator,
        source: Option<S>,
        objects: Option<ObjectBindings>,
        compiler: C,
    ) -> (r: Result<(TaskId, OperationDriver<S, C>), TaskProtocolError>)
        ensures
            match crate::protocol::next_identity(old(ids).tasks()) {
                None => r matches Err(error) && error == TaskProtocolError::IdentityExhausted,
                Some(id) => r matches Ok((token, driver)) && token.number() == id && idle(
                    driver@,
                    id,
                    source is Some,
                    objects is Some,
                ) && driver.wf() && driver@.objects == (match objects {
                    Some(objects) => Some(objects@),
                    None => None,
                }),
            },
            r matches Ok((_, driver)) ==> driver.source() == source && driver.compiler() == Some(
                compiler,
            ),
            r is Ok ==> final(ids).tasks() == old(ids).tasks() + 1,
            r is Err ==> final(ids).tasks() == old(ids).tasks(),
            final(ids).evaluations() == old(ids).evaluations(),
    {
        let id = TaskId::allocate(ids)?;
        let task_id: u64 = id.get();
        Ok(
            (
                id,
                OperationDriver {
                    task_id,
                    sequence: RequestSequence { next: 1 },
                    started: false,
                    effect: None,
                    response: None,
                    active: None,
                    external_active: None,
                    source,
                    objects,
                    listing: None,
                    usage: EvaluationUsage { pages: 0, batches: 0, rows: 0, bytes: 0 },
                    io_usage: IoUsage::default(),
                    compiler: Some(compiler),
                    terminal: false,
                    cancelled: false,
                },
            ),
        )
    }

    /// Allocates a checked evaluation identity owned by this driver's task.
    pub fn allocate_evaluation(&self, ids: &mut IdentityAllocator) -> (r: Result<
        EvaluationKey,
        TaskProtocolError,
    >)
        requires
            self.wf(),
        ensures
            self@.terminal || self@.started ==> r == Err::<EvaluationKey, TaskProtocolError>(
                TaskProtocolError::Terminal,
            ) && *final(ids) == *old(ids),
            final(ids).tasks() == old(ids).tasks(),
            !self@.terminal && !self@.started ==> match crate::protocol::next_identity(old(ids).evaluations()) {
                Some(id) => (r matches Ok(key) && key.owner() == self@.task && key.number() == id)
                    && final(ids).evaluations() == id + 1,
                None => r == Err::<EvaluationKey, TaskProtocolError>(
                    TaskProtocolError::IdentityExhausted,
                ) && final(ids).evaluations() == old(ids).evaluations(),
            },
    {
        if self.terminal || self.started {
            return Err(TaskProtocolError::Terminal);
        }
        EvaluationKey::allocate(ids, self.task_id)
    }

    /// Validates and takes one effect request without executing it.
    ///
    /// Wrong task or request identities, duplicate starts, changed page limits and requests that
    /// do not fit what was observed leave the driver unchanged. Neither the source nor the compiler
    /// is called.
    pub fn dispatch(&mut self, request: TaskRequest) -> (r: Result<RequestKey, TaskProtocolError>)
        ensures
            exists|capacity: usize|
                capacity >= request.operation.second_text() && match #[trigger] old(self)@.dispatched(
                    request,
                    capacity,
                ) {
                    Ok(driver) => r == Ok::<RequestKey, TaskProtocolError>(request.key)
                        && final(self)@ == driver,
                    Err(error) => r == Err::<RequestKey, TaskProtocolError>(error)
                        && *final(self) == *old(self),
                },
            final(self).source() == old(self).source(),
            final(self).compiler() == old(self).compiler(),
            old(self).wf() ==> final(self).wf(),
    {
        let capacity: usize = match &request.operation {
            TaskRequestV1::List { continuation, .. } => optional_text_capacity(continuation),
            _ => 0,
        };
        self.dispatch_sized(request, capacity)
    }

    /// Validates and takes one effect request whose listing cursor has `capacity` bytes behind it.
    pub fn dispatch_sized(&mut self, request: TaskRequest, capacity: usize) -> (r: Result<
        RequestKey,
        TaskProtocolError,
    >)
        ensures
            match old(self)@.dispatched(request, capacity) {
                Ok(driver) => r == Ok::<RequestKey, TaskProtocolError>(request.key) && final(self)@
                    == driver,
                Err(error) => r == Err::<RequestKey, TaskProtocolError>(error) && *final(self)
                    == *old(self),
            },
            final(self).source() == old(self).source(),
            final(self).compiler() == old(self).compiler(),
            old(self).wf() ==> final(self).wf(),
    {
        if self.terminal {
            return Err(TaskProtocolError::Terminal);
        }
        if self.effect.is_some() || self.response.is_some() {
            return Err(TaskProtocolError::PendingRequest);
        }
        let next: u64 = self.sequence.checked_next(self.task_id, request.key)?;
        self.validate_operation(&request.operation, capacity)?;
        if let TaskRequestV1::EvaluationStart { .. } = &request.operation {
            self.started = true;
        }
        self.sequence.next = next;
        let key = request.key;
        self.effect = Some(request);
        Ok(key)
    }

    /// Checks an operation against what the driver owns and has observed. `capacity` is the
    /// storage behind a listing cursor.
    pub fn validate_operation(&self, operation: &TaskRequestV1, capacity: usize) -> (r: Result<
        (),
        TaskProtocolError,
    >)
        ensures
            r == self@.admissible(*operation, capacity),
    {
        match operation {
            TaskRequestV1::List {
                root,
                continuation,
                entries,
                descriptor_bytes,
                continuation_bytes,
            } => {
                let minimum: usize = match (*entries).checked_mul(
                    core::mem::size_of::<FileDescriptor>(),
                ) {
                    Some(minimum) => minimum,
                    None => return Err(TaskProtocolError::WrongKind),
                };
                if self.source.is_none() || !ends_in_slash(root.as_str()) || *entries == 0 || minimum
                    > *descriptor_bytes || *continuation_bytes == 0 {
                    return Err(TaskProtocolError::WrongKind);
                }
                match (continuation, &self.listing) {
                    (None, None) => Ok(()),
                    (Some(actual), Some(expected)) => {
                        if capacity <= *continuation_bytes && byte_len(actual.as_str()) > 0
                            && begins_with(actual.as_str(), root.as_str()) && same_text(
                            expected.root.as_str(),
                            root.as_str(),
                        ) && same_text(expected.continuation.as_str(), actual.as_str()) {
                            Ok(())
                        } else {
                            Err(TaskProtocolError::WrongKind)
                        }
                    },
                    _ => Err(TaskProtocolError::WrongKind),
                }
            },
            TaskRequestV1::Read { path, offset, length } => {
                let end: u64 = match (*offset).checked_add(*length as u64) {
                    Some(end) => end,
                    None => return Err(TaskProtocolError::WrongKind),
                };
                if self.source.is_none() || byte_len(path.as_str()) == 0 || *length == 0 {
                    return Err(TaskProtocolError::WrongKind);
                }
                match self.observed_object(path.as_str()) {
                    Some(known) => match known.size {
                        Some(size) => if end > size {
                            Err(TaskProtocolError::WrongKind)
                        } else {
                            Ok(())
                        },
                        None => Ok(()),
                    },
                    None => if *offset != 0 {
                        Err(TaskProtocolError::WrongKind)
                    } else {
                        Ok(())
                    },
                }
            },
            TaskRequestV1::Head { path } => {
                if self.source.is_none() || byte_len(path.as_str()) == 0 {
                    Err(TaskProtocolError::WrongKind)
                } else {
                    Ok(())
                }
            },
            TaskRequestV1::Footer { path, size, .. } => {
                if self.source.is_none() || self.footer_identity(path.as_str(), *size).is_none() {
                    Err(TaskProtocolError::WrongKind)
                } else {
                    Ok(())
                }
            },
            TaskRequestV1::EvaluationStart { evaluation, .. } => {
                if evaluation.task_id() != self.task_id {
                    return Err(TaskProtocolError::WrongKey);
                }
                if self.started || self.active.is_some() || self.external_active.is_some() {
                    return Err(TaskProtocolError::WrongKind);
                }
                Ok(())
            },
            TaskRequestV1::Evaluation { evaluation, limits } => {
                let (active_key, page_limits) = match (&self.active, &self.external_active) {
                    (Some(active), _) => (active.key, active.page_limits),
                    (None, Some((key, limits))) => (*key, limits.page()),
                    (None, None) => return Err(TaskProtocolError::WrongKind),
                };
                if *evaluation != active_key {
                    return Err(TaskProtocolError::WrongKey);
                }
                if *limits != page_limits {
                    return Err(TaskProtocolError::WrongKind);
                }
                Ok(())
            },
        }
    }

    fn observed_object(&self, path: &str) -> (r: Option<Observed>)
        ensures
            match self@.observed(utf8(path@)) {
                Some(known) => r matches Some(o) && o.identity.value() == known.identity && o.size
                    == known.size && o.head_observed == known.head_observed,
                None => r is None,
            },
    {
        match &self.objects {
            Some(objects) => match objects.get(path) {
                Some(binding) => Some(
                    Observed {
                        identity: binding.identity(),
                        size: binding.size(),
                        head_observed: binding.head_observed(),
                    },
                ),
                None => None,
            },
            None => None,
        }
    }

    fn footer_identity(&self, path: &str, size: u64) -> (r: Option<ObjectIdentity>)
        ensures
            r is Some == self@.footer_known(utf8(path@), size),
            r matches Some(identity) ==> identity.value() == self@.observed(utf8(path@))->0.identity,
    {
        match self.observed_object(path) {
            Some(known) => if known.head_observed && known.size == Some(size) {
                Some(known.identity)
            } else {
                None
            },
            None => None,
        }
    }

    /// Finds the identity that a storage effect must show, before the effect is run. `capacity`
    /// is the storage behind the request's path. Nothing is allocated.
    pub fn prepare_io(&self, operation: &TaskRequestV1, capacity: usize) -> (r: Result<
        Option<ObjectIdentity>,
        OperationFailure,
    >)
        ensures
            match self@.prepared(*operation, capacity) {
                Ok(expected) => r matches Ok(identity) && (match identity {
                    Some(identity) => expected == Some(identity.value()),
                    None => expected is None,
                }),
                Err(kind) => r matches Err(failure) && failure.is_terminal(kind),
            },
    {
        match operation {
            TaskRequestV1::Read { path, .. } => self.prepare_object(path.as_str(), capacity),
            TaskRequestV1::Head { path } => self.prepare_object(path.as_str(), capacity),
            TaskRequestV1::Footer { path, size, .. } => match self.footer_identity(
                path.as_str(),
                *size,
            ) {
                Some(identity) => Ok(Some(identity)),
                None => Err(OperationFailure::malformed_response()),
            },
            _ => Ok(None),
        }
    }

    fn prepare_object(&self, path: &str, capacity: usize) -> (r: Result<
        Option<ObjectIdentity>,
        OperationFailure,
    >)
        ensures
            match self@.prepared_object(utf8(path@), capacity) {
                Ok(expected) => r matches Ok(identity) && (match identity {
                    Some(identity) => expected == Some(identity.value()),
                    None => expected is None,
                }),
                Err(kind) => r matches Err(failure) && failure.is_terminal(kind),
            },
    {
        match &self.objects {
            None => Err(OperationFailure::malformed_response()),
            Some(objects) => match objects.admit_new(path, capacity) {
                Err(failure) => Err(failure),
                Ok(()) => Ok(
                    match objects.get(path) {
                        Some(binding) => Some(binding.identity()),
                        None => None,
                    },
                ),
            },
        }
    }

    /// Validates a completed storage effect and turns it into the response.
    ///
    /// Identity, ordering, storage and counters are checked the same way whoever ran the effect.
    pub fn finish_io(
        &mut self,
        operation: TaskRequestV1,
        effect: AdmittedIoEffect,
        capacities: IoCapacities,
    ) -> (r: Result<TaskResponseV1, OperationFailure>)
        requires
            effect matches AdmittedIoEffect::Listing(page) ==> capacities.listing.paths@.len()
                == page.files@.len(),
        ensures
            match old(self)@.io_outcome(operation, effect, capacities) {
                Ok((driver, response)) => r == Ok::<TaskResponseV1, OperationFailure>(response)
                    && final(self)@ == driver,
                Err(kind) => (r matches Err(failure) && failure.is_terminal(kind))
                    && final(self)@.released() == old(self)@.released(),
            },
            final(self).source() == old(self).source(),
            final(self).compiler() == old(self).compiler(),
    {
        match operation {
            TaskRequestV1::List {
                root,
                continuation,
                entries,
                descriptor_bytes,
                continuation_bytes,
            } => {
                let page = match effect {
                    AdmittedIoEffect::Listing(page) => page,
                    _ => return Err(OperationFailure::malformed_response()),
                };
                let after = match &continuation {
                    Some(text) => Some(text.as_str()),
                    None => None,
                };
                validate_listing(
                    root.as_str(),
                    after,
                    entries,
                    descriptor_bytes,
                    continuation_bytes,
                    &page,
                    &capacities.listing,
                )?;
                self.io_usage = self.io_usage.with_listing(page.files.len())?;
                self.listing = match page.binding {
                    Some(continuation) => Some(ListingBinding { root, continuation }),
                    None => None,
                };
                Ok(TaskResponseV1::Listing { files: page.files, continuation: page.continuation })
            },
            TaskRequestV1::Read { path, offset, length } => {
                let expected_identity = self.prepare_object(path.as_str(), capacities.path)?;
                let known = self.observed_object(path.as_str());
                let (known_size, head_observed) = match known {
                    Some(known) => (known.size, known.head_observed),
                    None => (None, false),
                };
                let read = match effect {
                    AdmittedIoEffect::Read(read) => read,
                    _ => return Err(OperationFailure::malformed_response()),
                };
                let end: u64 = match offset.checked_add(length as u64) {
                    Some(end) => end,
                    None => return Err(OperationFailure::malformed_response()),
                };
                let changed = match &expected_identity {
                    Some(identity) => !identity.same(&read.identity),
                    None => false,
                };
                let misplaced_end = match known_size {
                    Some(size) => (end == size) != read.eof,
                    None => false,
                };
                if read.offset != offset || read.bytes.len() != length || capacities.bytes != length
                    || changed || misplaced_end {
                    return Err(OperationFailure::malformed_response());
                }
                let size = if read.eof {
                    Some(end)
                } else {
                    known_size
                };
                match &mut self.objects {
                    Some(objects) => objects.bind(
                        path,
                        capacities.path,
                        read.identity,
                        size,
                        head_observed,
                    )?,
                    None => return Err(OperationFailure::malformed_response()),
                }
                self.io_usage = self.io_usage.with_read(length)?;
                Ok(TaskResponseV1::Bytes { offset, bytes: read.bytes, eof: read.eof })
            },
            TaskRequestV1::Head { path } => {
                self.prepare_object(path.as_str(), capacities.path)?;
                let head = match effect {
                    AdmittedIoEffect::Head(head) => head,
                    _ => return Err(OperationFailure::malformed_response()),
                };
                match &mut self.objects {
                    Some(objects) => objects.bind(
                        path,
                        capacities.path,
                        head.identity,
                        Some(head.size),
                        true,
                    )?,
                    None => return Err(OperationFailure::malformed_response()),
                }
                self.io_usage = self.io_usage.with_head()?;
                Ok(TaskResponseV1::Head { size: head.size })
            },
            TaskRequestV1::Footer { path, size, .. } => {
                let identity = match self.footer_identity(path.as_str(), size) {
                    Some(identity) => identity,
                    None => return Err(OperationFailure::malformed_response()),
                };
                let footer = match effect {
                    AdmittedIoEffect::Footer(footer) => footer,
                    _ => return Err(OperationFailure::malformed_response()),
                };
                if !footer.identity.same(&identity) || footer.size != size {
                    return Err(OperationFailure::malformed_response());
                }
                self.io_usage = self.io_usage.with_footer()?;
                Ok(TaskResponseV1::Footer { footer: footer.footer })
            },
            _ => Err(OperationFailure::malformed_response()),
        }
    }

    /// Returns the queued effect or completed response key retained by the driver.
    pub fn outstanding_key(&self) -> (key: Option<RequestKey>)
        ensures
            key == self@.outstanding(),
    {
        match (&self.effect, &self.response) {
            (Some(request), _) => Some(request.key),
            (None, Some((key, _))) => Some(*key),
            (None, None) => None,
        }
    }

    /// Returns the active evaluation identity while its lazy source is retained.
    pub fn active_evaluation(&self) -> (key: Option<EvaluationKey>)
        ensures
            key == (match self@.current() {
                Some((key, _)) => Some(key),
                None => None,
            }),
    {
        match (&self.active, &self.external_active) {
            (Some(active), _) => Some(active.key),
            (None, Some((key, _))) => Some(*key),
            (None, None) => None,
        }
    }

    /// Returns cumulative evaluation work separately from live source ownership.
    pub fn evaluation_usage(&self) -> (usage: EvaluationUsage)
        ensures
            usage == self@.usage,
    {
        self.usage
    }

    /// Returns checked cumulative storage-effect measurements.
    pub fn io_usage(&self) -> (usage: IoUsage)
        ensures
            usage == self@.io_usage,
    {
        self.io_usage
    }

    /// Transfers one completed response, preserving it when the supplied key is wrong.
    pub fn take_response(&mut self, key: RequestKey) -> (r: Result<
        Result<TaskResponseV1, OperationFailure>,
        TaskProtocolError,
    >)
        ensures
            r == old(self)@.transfer(key),
            r is Ok ==> final(self)@ == old(self)@.transferred(),
            r is Err ==> *final(self) == *old(self),
            final(self).source() == old(self).source(),
            final(self).compiler() == old(self).compiler(),
            old(self).wf() ==> final(self).wf(),
    {
        match &self.response {
            Some((actual, _)) => {
                if *actual != key {
                    return Err(TaskProtocolError::WrongKey);
                }
            },
            None => {
                if self.terminal {
                    return Err(TaskProtocolError::Terminal);
                }
                return Err(TaskProtocolError::NotStarted);
            },
        }
        match self.response.take() {
            Some((_, response)) => Ok(response),
            None => Err(TaskProtocolError::NotStarted),
        }
    }

    fn read_page(
        &mut self,
        evaluation: EvaluationKey,
        page_limits: EvaluationPageLimits,
        reader: EvaluationReader,
    ) -> (r: Result<TaskResponseV1, OperationFailure>)
        requires
            old(self)@.active is None,
            reader.wf(),
        ensures
            r is Ok ==> old(self)@.page_read(evaluation, page_limits, reader, final(self)@, r),
            r is Err ==> old(self)@.page_read(
                evaluation,
                page_limits,
                reader,
                final(self)@.released(),
                r,
            ),
            final(self).keeps(*old(self), old(self).source()),
    {
        let mut reader = reader;
        let page = reader.next_page();
        self.usage = reader.usage();
        match page {
            Ok(Some(page)) => {
                self.active = Some(ActiveEvaluation { key: evaluation, page_limits, reader });
                Ok(TaskResponseV1::Evaluation { evaluation, page: Some(page) })
            },
            Ok(None) => {
                if self.source.is_none() {
                    self.release_terminal_state();
                }
                Ok(TaskResponseV1::Evaluation { evaluation, page: None })
            },
            Err(failure) => Err(failure),
        }
    }

    fn release_terminal_state(&mut self)
        ensures
            final(self)@ == old(self)@.released(),
    {
        self.active = None;
        self.external_active = None;
        self.source = None;
        self.compiler = None;
        self.objects = None;
        self.listing = None;
        self.terminal = true;
    }
}

impl<C: PlanCompiler> OperationDriver<(), C> {
    /// Allocates a fresh task identity and its initially idle evaluation driver.
    pub fn allocate(ids: &mut IdentityAllocator, compiler: C) -> (r: Result<
        (TaskId, OperationDriver<(), C>),
        TaskProtocolError,
    >)
        ensures
            match crate::protocol::next_identity(old(ids).tasks()) {
                None => r matches Err(error) && error == TaskProtocolError::IdentityExhausted,
                Some(id) => r matches Ok((token, driver)) && token.number() == id && idle(
                    driver@,
                    id,
                    false,
                    false,
                ) && driver.wf(),
            },
            r matches Ok((_, driver)) ==> driver.source() is None && driver.compiler() == Some(
                compiler,
            ),
            r is Ok ==> final(ids).tasks() == old(ids).tasks() + 1,
            r is Err ==> final(ids).tasks() == old(ids).tasks(),
            final(ids).evaluations() == old(ids).evaluations(),
    {
        OperationDriver::<(), C>::allocate_inner(ids, None, None, compiler)
    }
}

impl<S: AdmittedIoSource, C: PlanCompiler> OperationDriver<S, C> {
    /// What the source gave for an operation, with the identity that the object must show.
    pub open spec fn served(
        before: S,
        after: S,
        operation: TaskRequestV1,
        expected: Option<Seq<u8>>,
        given: Result<AdmittedIoEffect, OperationFailure>,
    ) -> bool {
        match operation {
            TaskRequestV1::List {
                root,
                continuation,
                entries,
                descriptor_bytes,
                continuation_bytes,
            } => exists|page: Result<AdmittedListingPage, OperationFailure>|
                {
                    &&& #[trigger] before.lists(
                        &after,
                        root@,
                        optional_view(continuation),
                        entries,
                        descriptor_bytes,
                        continuation_bytes,
                        page,
                    )
                    &&& given == (match page {
                        Ok(page) => Ok(AdmittedIoEffect::Listing(page)),
                        Err(failure) => Err(failure),
                    })
                },
            TaskRequestV1::Read { path, offset, length } => exists|
                read: Result<AdmittedRead, OperationFailure>,
            |
                {
                    &&& #[trigger] before.reads(&after, path@, expected, offset, length, read)
                    &&& given == (match read {
                        Ok(read) => Ok(AdmittedIoEffect::Read(read)),
                        Err(failure) => Err(failure),
                    })
                },
            TaskRequestV1::Head { path } => exists|head: Result<AdmittedHead, OperationFailure>|
                {
                    &&& #[trigger] before.observes(&after, path@, head)
                    &&& given == (match head {
                        Ok(head) => Ok(AdmittedIoEffect::Head(head)),
                        Err(failure) => Err(failure),
                    })
                },
            TaskRequestV1::Footer { path, size, limits } => exists|
                footer: Result<AdmittedFooter, OperationFailure>,
            |
                {
                    &&& #[trigger] before.decodes(&after, path@, expected->0, size, limits, footer)
                    &&& given == (match footer {
                        Ok(footer) => Ok(AdmittedIoEffect::Footer(footer)),
                        Err(failure) => Err(failure),
                    })
                },
            _ => false,
        }
    }

    /// The source and the compiler were asked for exactly what the operation says, and the storage
    /// that was measured holds the operation's path and what the source gave. `left` is the source
    /// behind that: one call made it of this driver's source, or none did and it is the same.
    pub open spec fn asked(self, operation: TaskRequestV1, run: EffectRun, left: Option<S>) -> bool {
        match operation {
            TaskRequestV1::EvaluationStart { plan, limits, .. } => {
                &&& left == self.source()
                &&& self.compiler() matches Some(compiler) ==> compiler.compiles(
                    plan,
                    limits,
                    run.compiled,
                )
            },
            TaskRequestV1::Evaluation { .. } => left == self.source(),
            _ => {
                &&& path_covered(operation, run.capacities.path)
                &&& match (self.source(), self@.prepared(operation, run.capacities.path)) {
                    (Some(source), Ok(expected)) => {
                        &&& left matches Some(left) && OperationDriver::<S, C>::served(
                            source,
                            left,
                            operation,
                            expected,
                            run.given,
                        )
                        &&& run.given matches Ok(effect) ==> effect_covered(effect, run.capacities)
                    },
                    _ => left == self.source(),
                }
            },
        }
    }

    /// The source was lent to its own `cancel`, as it was.
    pub open spec fn source_cancelled(source: S) -> bool {
        exists|lent: &mut S| *lent == source && #[trigger] call_ensures(S::cancel, (lent,), ())
    }

    /// `r` is what allocating a driver with a source gives, with the table's storage as it was
    /// granted and measured.
    pub open spec fn allocated(
        before: IdentityAllocator,
        after: IdentityAllocator,
        limits: TaskLimits,
        granted: bool,
        slots: usize,
        r: Result<(TaskId, OperationDriver<S, C>), TaskProtocolError>,
    ) -> bool {
        match identity_with_table(before, limits, granted, slots) {
            Err(error) => r == Err::<(TaskId, OperationDriver<S, C>), TaskProtocolError>(error)
                && after.tasks() == before.tasks(),
            Ok((id, table)) => {
                &&& r matches Ok((token, driver))
                &&& token.number() == id
                &&& idle(driver@, id, true, true)
                &&& driver@.objects == Some(table)
                &&& driver.wf()
                &&& after.tasks() == before.tasks() + 1
            },
        }
    }

    /// Allocates a fresh task identity and a driver with an explicit admitted I/O source.
    ///
    /// The request-count and task-state allowances bound a preallocated per-path identity table.
    /// The driver holds the source and the compiler as they were given. Whether the allocator grants
    /// the table is not stated.
    pub fn allocate_with_io(
        ids: &mut IdentityAllocator,
        source: S,
        compiler: C,
        limits: TaskLimits,
    ) -> (r: Result<(TaskId, OperationDriver<S, C>), TaskProtocolError>)
        ensures
            exists|granted: bool, slots: usize| #[trigger]
                OperationDriver::<S, C>::allocated(*old(ids), *final(ids), limits, granted, slots, r),
            r matches Ok((_, driver)) ==> driver.source() == Some(source) && driver.compiler()
                == Some(compiler),
            final(ids).evaluations() == old(ids).evaluations(),
    {
        let ghost before = *ids;
        let objects = ObjectBindings::new(limits);
        let ghost (granted, slots) = choose|granted: bool, slots: usize| #[trigger]
            ObjectBindings::opened(limits, granted, slots, objects);
        let r = match objects {
            Ok(objects) => OperationDriver::<S, C>::allocate_inner(
                ids,
                Some(source),
                Some(objects),
                compiler,
            ),
            Err(error) => Err(error),
        };
        assert(OperationDriver::<S, C>::allocated(before, *ids, limits, granted, slots, r));
        r
    }

    /// Executes the dispatched effect once and retains its owned response for transfer.
    pub fn complete_effect(&mut self) -> (r: Result<RequestKey, TaskProtocolError>)
        requires
            old(self).wf(),
        ensures
            final(self).wf(),
            old(self)@.cancelled ==> r == Err::<RequestKey, TaskProtocolError>(
                TaskProtocolError::Terminal,
            ),
            !old(self)@.cancelled && old(self)@.response is Some ==> r == Err::<
                RequestKey,
                TaskProtocolError,
            >(TaskProtocolError::PendingRequest),
            !old(self)@.cancelled && old(self)@.response is None && old(self)@.effect is None
                ==> r == Err::<RequestKey, TaskProtocolError>(
                if old(self)@.terminal {
                    TaskProtocolError::Terminal
                } else {
                    TaskProtocolError::NotStarted
                },
            ),
            r is Err ==> *final(self) == *old(self),
            !old(self)@.cancelled && old(self)@.response is None ==> (old(self)@.effect matches Some(
                request,
            ) ==> {
                &&& r == Ok::<RequestKey, TaskProtocolError>(request.key)
                &&& final(self)@.response matches Some((key, response)) && key == request.key
                    && exists|run: EffectRun, left: Option<S>|
                    {
                        &&& #[trigger] old(self).asked(request.operation, run, left)
                        &&& final(self).keeps(*old(self), left)
                        &&& old(self)@.taken().ran(
                            request.operation,
                            run,
                            final(self)@.transferred(),
                            response,
                        )
                    }
            }),
    {
        if self.cancelled {
            return Err(TaskProtocolError::Terminal);
        }
        if self.response.is_some() {
            return Err(TaskProtocolError::PendingRequest);
        }
        if self.effect.is_none() {
            if self.terminal {
                return Err(TaskProtocolError::Terminal);
            }
            return Err(TaskProtocolError::NotStarted);
        }
        let request = match self.effect.take() {
            Some(request) => request,
            None => return Err(TaskProtocolError::NotStarted),
        };
        let key = request.key;
        let ghost operation = request.operation;
        let ghost idle = *self;
        let response = self.execute(request.operation);
        let ghost ended = *self;
        let ghost answer = response;
        if response.is_err() {
            self.release_terminal_state();
        }
        self.response = Some((key, response));
        proof {
            let later = if answer is Ok { ended@ } else { ended@.released() };
            let (run, left) = choose|run: EffectRun, left: Option<S>|
                {
                    &&& #[trigger] idle.asked(operation, run, left)
                    &&& ended.keeps(idle, left)
                    &&& idle@.ran(operation, run, later, answer)
                };
            assert(idle@.prepared(operation, run.capacities.path) == old(self)@.prepared(
                operation,
                run.capacities.path,
            ));
            assert(old(self).asked(operation, run, left));
            assert(self.keeps(*old(self), left));
            assert(idle@ == old(self)@.taken());
            assert(later == self@.transferred());
        }
        Ok(key)
    }

    fn execute(&mut self, operation: TaskRequestV1) -> (r: Result<TaskResponseV1, OperationFailure>)
        requires
            old(self).wf(),
            old(self)@.effect is None,
            old(self)@.response is None,
            !old(self)@.cancelled,
            operation is EvaluationStart ==> old(self)@.active is None,
        ensures
            exists|run: EffectRun, left: Option<S>|
                {
                    &&& #[trigger] old(self).asked(operation, run, left)
                    &&& final(self).keeps(*old(self), left)
                    &&& old(self)@.ran(
                        operation,
                        run,
                        if r is Ok {
                            final(self)@
                        } else {
                            final(self)@.released()
                        },
                        r,
                    )
                },
            r is Ok ==> final(self).wf(),
            final(self)@.effect is None,
            final(self)@.response is None,
            !final(self)@.cancelled,
    {
        let ghost request = operation;
        let ghost unasked = EffectRun {
            capacities: arbitrary(),
            given: arbitrary(),
            compiled: arbitrary(),
        };
        let ghost whole = self.source();
        match operation {
            TaskRequestV1::EvaluationStart { evaluation, plan, limits } => {
                let compiled = match &mut self.compiler {
                    Some(compiler) => compiler.compile(plan, limits),
                    None => {
                        assert(old(self).asked(request, unasked, whole));
                        return Err(OperationFailure::malformed_response());
                    },
                };
                self.compiler = None;
                let ghost run = EffectRun { compiled, ..unasked };
                assert(old(self).asked(request, run, whole));
                match compiled {
                    Ok(source) => {
                        let source = held(source);
                        let reader = EvaluationReader::holding(source, limits);
                        let ghost opened = reader;
                        let r = self.read_page(evaluation, limits.page(), reader);
                        proof {
                            let later = if r is Ok { self@ } else { self@.released() };
                            assert((DriverView { has_compiler: false, ..old(self)@ }).page_read(
                                evaluation,
                                limits.each(),
                                opened,
                                later,
                                r,
                            ));
                        }
                        r
                    },
                    Err(failure) => Err(failure),
                }
            },
            TaskRequestV1::Evaluation { evaluation, .. } => {
                assert(old(self).asked(request, unasked, whole));
                match self.active.take() {
                    Some(active) => self.read_page(evaluation, active.page_limits, active.reader),
                    None => Err(OperationFailure::malformed_response()),
                }
            },
            operation => self.execute_io(operation),
        }
    }

    fn execute_io(&mut self, operation: TaskRequestV1) -> (r: Result<TaskResponseV1, OperationFailure>)
        requires
            !(operation is EvaluationStart) && !(operation is Evaluation),
        ensures
            exists|run: EffectRun, left: Option<S>|
                {
                    &&& #[trigger] old(self).asked(operation, run, left)
                    &&& final(self).keeps(*old(self), left)
                    &&& old(self)@.ran(
                        operation,
                        run,
                        if r is Ok {
                            final(self)@
                        } else {
                            final(self)@.released()
                        },
                        r,
                    )
                },
            final(self)@.effect == old(self)@.effect,
            final(self)@.response == old(self)@.response,
            final(self)@.cancelled == old(self)@.cancelled,
    {
        let ghost request = operation;
        let path: usize = path_capacity(&operation);
        let unmeasured = IoCapacities {
            listing: ListingCapacities { files: 0, paths: Vec::new(), continuation: 0, binding: 0 },
            path,
            bytes: 0,
        };
        let expected = match self.prepare_io(&operation, path) {
            Ok(expected) => expected,
            Err(failure) => {
                let r: Result<TaskResponseV1, OperationFailure> = Err(failure);
                let ghost run = EffectRun {
                    capacities: unmeasured,
                    given: arbitrary(),
                    compiled: arbitrary(),
                };
                assert(old(self).asked(request, run, self.source()));
                assert(old(self)@.ran(request, run, self@.released(), r));
                return r;
            },
        };
        let given = self.run_source(&operation, expected);
        let ghost gave = given;
        let effect = match given {
            Ok(effect) => effect,
            Err(failure) => {
                let r: Result<TaskResponseV1, OperationFailure> = Err(failure);
                let ghost run = EffectRun {
                    capacities: unmeasured,
                    given: gave,
                    compiled: arbitrary(),
                };
                assert(old(self).asked(request, run, self.source()));
                assert(old(self)@.ran(request, run, self@.released(), r));
                return r;
            },
        };
        let capacities = measure_effect(path, &effect);
        let ghost run = EffectRun { capacities, given: gave, compiled: arbitrary() };
        let ghost left = self.source();
        let r = self.finish_io(operation, effect, capacities);
        proof {
            let later = if r is Ok { self@ } else { self@.released() };
            assert(old(self).asked(request, run, left));
            assert(old(self)@.ran(request, run, later, r));
        }
        r
    }

    fn run_source(&mut self, operation: &TaskRequestV1, expected: Option<ObjectIdentity>) -> (r: Result<
        AdmittedIoEffect,
        OperationFailure,
    >)
        requires
            !(operation is EvaluationStart) && !(operation is Evaluation),
            operation is Footer ==> expected is Some,
        ensures
            final(self)@ == old(self)@,
            final(self).compiler() == old(self).compiler(),
            match old(self).source() {
                None => r matches Err(failure) && failure.is_terminal(
                    FailureKind::MalformedResponse,
                ),
                Some(source) => OperationDriver::<S, C>::served(
                    source,
                    final(self).source()->0,
                    *operation,
                    optional_value(expected),
                    r,
                ),
            },
    {
        let source = match &mut self.source {
            Some(source) => source,
            None => return Err(OperationFailure::malformed_response()),
        };
        let ghost before = *source;
        let ghost wanted = optional_value(expected);
        match operation {
            TaskRequestV1::List {
                root,
                continuation,
                entries,
                descriptor_bytes,
                continuation_bytes,
            } => {
                let after = match continuation {
                    Some(text) => Some(text.as_str()),
                    None => None,
                };
                let page = source.list(
                    root.as_str(),
                    after,
                    *entries,
                    *descriptor_bytes,
                    *continuation_bytes,
                );
                let ghost gave = page;
                let ghost left = *source;
                let r = match page {
                    Ok(page) => Ok(AdmittedIoEffect::Listing(page)),
                    Err(failure) => Err(failure),
                };
                assert(before.lists(
                    &left,
                    root@,
                    optional_view(*continuation),
                    *entries,
                    *descriptor_bytes,
                    *continuation_bytes,
                    gave,
                ));
                assert(OperationDriver::<S, C>::served(before, left, *operation, wanted, r));
                r
            },
            TaskRequestV1::Read { path, offset, length } => {
                let read = source.read_exact(path.as_str(), expected, *offset, *length);
                let ghost gave = read;
                let ghost left = *source;
                let r = match read {
                    Ok(read) => Ok(AdmittedIoEffect::Read(read)),
                    Err(failure) => Err(failure),
                };
                assert(before.reads(&left, path@, wanted, *offset, *length, gave));
                assert(OperationDriver::<S, C>::served(before, left, *operation, wanted, r));
                r
            },
            TaskRequestV1::Head { path } => {
                let head = source.head(path.as_str());
                let ghost gave = head;
                let ghost left = *source;
                let r = match head {
                    Ok(head) => Ok(AdmittedIoEffect::Head(head)),
                    Err(failure) => Err(failure),
                };
                assert(before.observes(&left, path@, gave));
                assert(OperationDriver::<S, C>::served(before, left, *operation, wanted, r));
                r
            },
            TaskRequestV1::Footer { path, size, limits } => match expected {
                Some(identity) => {
                    let footer = source.footer(path.as_str(), identity, *size, *limits);
                    let ghost gave = footer;
                    let ghost left = *source;
                    let r = match footer {
                        Ok(footer) => Ok(AdmittedIoEffect::Footer(footer)),
                        Err(failure) => Err(failure),
                    };
                    assert(before.decodes(&left, path@, wanted->0, *size, *limits, gave));
                    assert(OperationDriver::<S, C>::served(before, left, *operation, wanted, r));
                    r
                },
                None => Err(OperationFailure::malformed_response()),
            },
            _ => Err(OperationFailure::malformed_response()),
        }
    }

    /// Drops the matching queued effect or response and releases the active source without pulls. A
    /// storage source is cancelled before it is let go of.
    pub fn cancel(&mut self, pending: Option<RequestKey>) -> (r: Result<(), TaskProtocolError>)
        ensures
            r is Ok == (old(self)@.cancelled || pending == old(self)@.outstanding()),
            r matches Err(error) ==> error == TaskProtocolError::WrongKey && *final(self) == *old(self),
            old(self)@.cancelled ==> *final(self) == *old(self),
            !old(self)@.cancelled && pending == old(self)@.outstanding()
                ==> final(self)@ == old(self)@.abandoned(),
            !old(self)@.cancelled && pending == old(self)@.outstanding() ==> (old(
                self,
            ).source() matches Some(source) ==> OperationDriver::<S, C>::source_cancelled(source)),
            old(self).wf() ==> final(self).wf(),
    {
        if self.cancelled {
            return Ok(());
        }
        let outstanding = self.outstanding_key();
        let matching = match (&pending, &outstanding) {
            (Some(pending), Some(outstanding)) => *pending == *outstanding,
            (None, None) => true,
            _ => false,
        };
        if !matching {
            return Err(TaskProtocolError::WrongKey);
        }
        self.effect = None;
        self.response = None;
        if let Some(active) = self.active.take() {
            let mut reader = active.reader;
            reader.cancel();
            self.usage = reader.usage();
        }
        if let Some(source) = self.source.take() {
            let mut source = source;
            source.cancel();
        }
        self.compiler = None;
        self.external_active = None;
        self.objects = None;
        self.listing = None;
        self.terminal = true;
        self.cancelled = true;
        Ok(())
    }
}

/// `bytes` can be the storage behind the path of an operation on one object: it holds the path. Any
/// other operation has no path, and no storage behind one.
pub open spec fn path_covered(operation: TaskRequestV1, bytes: usize) -> bool {
    match operation {
        TaskRequestV1::Read { path, .. } => bytes >= utf8(path@).len(),
        TaskRequestV1::Head { path } => bytes >= utf8(path@).len(),
        TaskRequestV1::Footer { path, .. } => bytes >= utf8(path@).len(),
        _ => bytes == 0,
    }
}

/// `capacities` can be the storage behind an effect: each part of it holds what the effect has
/// there, and an effect that reads no bytes has no storage behind them.
pub open spec fn effect_covered(effect: AdmittedIoEffect, capacities: IoCapacities) -> bool {
    &&& effect matches AdmittedIoEffect::Listing(page) ==> capacities_cover(page, capacities.listing)
    &&& match effect {
        AdmittedIoEffect::Read(read) => capacities.bytes >= read.bytes@.len(),
        _ => capacities.bytes == 0,
    }
}

/// The storage behind a request's path, zero where it has none.
fn path_capacity(operation: &TaskRequestV1) -> (bytes: usize)
    ensures
        path_covered(*operation, bytes),
{
    match operation {
        TaskRequestV1::Read { path, .. } => text_capacity(path),
        TaskRequestV1::Head { path } => text_capacity(path),
        TaskRequestV1::Footer { path, .. } => text_capacity(path),
        _ => 0,
    }
}

/// Measures the storage behind an effect. `path` is the storage behind the request's path.
fn measure_effect(path: usize, effect: &AdmittedIoEffect) -> (capacities: IoCapacities)
    ensures
        capacities.path == path,
        effect_covered(*effect, capacities),
{
    let listing = match effect {
        AdmittedIoEffect::Listing(page) => measure_listing(page),
        _ => ListingCapacities { files: 0, paths: Vec::new(), continuation: 0, binding: 0 },
    };
    let bytes: usize = match effect {
        AdmittedIoEffect::Read(read) => vec_capacity(&read.bytes),
        _ => 0,
    };
    IoCapacities { listing, path, bytes }
}

/// What was observed of one object, copied out of the table.
#[derive(Clone, Copy)]
struct Observed {
    identity: ObjectIdentity,
    size: Option<u64>,
    head_observed: bool,
}

/// Producer-admitted result of an asynchronous external effect.
pub enum AdmittedAsyncEffect {
    /// Storage metadata or bytes, checked by the same validator as synchronous I/O.
    Io(AdmittedIoEffect),
    /// One page from the single evaluation owned by the task's host.
    Evaluation {
        /// Identity bound to the host's execution stream.
        evaluation: EvaluationKey,
        /// An admitted page, or definitive end of the stream.
        page: Option<EvaluationPage>,
    },
}

/// The compiler of a driver whose evaluations run in a host: it compiles nothing.
pub struct NoCompiler;

impl PlanCompiler for NoCompiler {
    fn compile(&mut self, plan: AdmittedPlan, limits: EvaluationLimits) -> (r: Result<
        AdmittedEvaluationSource,
        OperationFailure,
    >)
        ensures
            r matches Err(failure) && failure.is_terminal(FailureKind::MalformedResponse),
    {
        Err(OperationFailure::malformed_response())
    }
}

/// Whether a host is to run the dispatched effect.
pub enum EffectStart {
    /// The host runs the effect that this key names.
    Run {
        /// The effect's key.
        key: RequestKey,
        /// The identity that the effect must show.
        expected_identity: Option<ObjectIdentity>,
        /// The evaluation work so far, with the page that is being asked for.
        usage: EvaluationUsage,
    },
    /// The effect was refused and its response waits. The host is to be cancelled.
    Refused {
        /// The effect's key.
        key: RequestKey,
    },
}

/// What a host's result left behind.
pub struct EffectEnd {
    /// The effect's key.
    pub key: RequestKey,
    /// Whether the host is to be cancelled.
    pub cancel_host: bool,
}

/// The state of a driver whose effects a host runs.
pub struct HostedView {
    /// The request and response state.
    pub driver: DriverView,
    /// Whether the host is running the queued effect.
    pub in_flight: bool,
}

impl HostedView {
    /// A driver in flight has a queued effect, and owns no evaluation source.
    pub open spec fn wf(self) -> bool {
        &&& self.driver.wf()
        &&& self.driver.active is None
        &&& self.in_flight ==> self.driver.effect is Some
    }

    /// Whether the queued effect may start under this key.
    pub open spec fn ready(self, work: RequestKey) -> Result<TaskRequest, TaskProtocolError> {
        if self.in_flight || self.driver.response is Some {
            Err(TaskProtocolError::PendingRequest)
        } else if self.driver.terminal {
            Err(TaskProtocolError::Terminal)
        } else {
            match self.driver.effect {
                None => Err(TaskProtocolError::NotStarted),
                Some(request) => if work != request.key {
                    Err(TaskProtocolError::WrongKey)
                } else {
                    Ok(request)
                },
            }
        }
    }

    /// The limits of the evaluation that an operation asks a page of.
    pub open spec fn page_bounds(self, operation: TaskRequestV1) -> Option<EvaluationLimits> {
        match operation {
            TaskRequestV1::EvaluationStart { limits, .. } => Some(limits),
            TaskRequestV1::Evaluation { .. } => match self.driver.external {
                Some((_, limits)) => Some(limits),
                None => None,
            },
            _ => None,
        }
    }

    /// The identity that the effect must show and the usage with which it starts, or why it is
    /// refused. `capacity` is the storage behind the request's path.
    pub open spec fn prepared(self, operation: TaskRequestV1, capacity: usize) -> Result<
        (Option<Seq<u8>>, EvaluationUsage),
        FailureKind,
    > {
        match self.driver.prepared(operation, capacity) {
            Err(kind) => Err(kind),
            Ok(expected) => match self.page_bounds(operation) {
                None => Ok((expected, self.driver.usage)),
                Some(limits) => match self.driver.usage.begun(limits) {
                    Err(error) => Err(FailureKind::ResourceExhausted(error)),
                    Ok((usage, _)) => Ok((expected, usage)),
                },
            },
        }
    }

    /// Starting the ready effect gave `start` and left the driver as `later`.
    pub open spec fn starts(
        self,
        request: TaskRequest,
        capacity: usize,
        start: EffectStart,
        later: HostedView,
    ) -> bool {
        match self.prepared(request.operation, capacity) {
            Ok((expected, usage)) => {
                &&& start matches EffectStart::Run { key, expected_identity, usage: begun }
                &&& key == request.key
                &&& begun == usage
                &&& expected_identity matches Some(identity) ==> expected == Some(identity.value())
                &&& expected_identity is None ==> expected is None
                &&& later == HostedView {
                    driver: DriverView { usage, ..self.driver },
                    in_flight: true,
                }
            },
            Err(kind) => {
                &&& start == EffectStart::Refused { key: request.key }
                &&& !later.in_flight
                &&& later.driver.response matches Some((key, response)) && key == request.key
                    && self.driver.taken().fails(
                    kind,
                    later.driver.transferred(),
                    response,
                )
            },
        }
    }

    /// What a page of a host's stream turns into.
    pub open spec fn page_outcome(
        driver: DriverView,
        expected: EvaluationKey,
        actual: EvaluationKey,
        limits: EvaluationLimits,
        page: Option<EvaluationPage>,
    ) -> Result<(DriverView, TaskResponseV1), FailureKind> {
        if expected != actual {
            Err(FailureKind::MalformedResponse)
        } else {
            let answer = TaskResponseV1::Evaluation { evaluation: expected, page };
            match page {
                None => Ok((DriverView { external: None, ..driver }, answer)),
                Some(delivered) => match driver.usage.recorded(limits, delivered) {
                    Err(kind) => Err(kind),
                    Ok(usage) => Ok(
                        (DriverView { usage, external: Some((expected, limits)), ..driver }, answer),
                    ),
                },
            }
        }
    }

    /// What a host's effect turns into: the driver's next state and the response, or the failure.
    pub open spec fn outcome(
        driver: DriverView,
        operation: TaskRequestV1,
        effect: AdmittedAsyncEffect,
        capacities: IoCapacities,
    ) -> Result<(DriverView, TaskResponseV1), FailureKind> {
        match (operation, effect) {
            (
                TaskRequestV1::EvaluationStart { evaluation, limits, .. },
                AdmittedAsyncEffect::Evaluation { evaluation: actual, page },
            ) => HostedView::page_outcome(
                DriverView { has_compiler: false, ..driver },
                evaluation,
                actual,
                limits,
                page,
            ),
            (
                TaskRequestV1::Evaluation { evaluation, .. },
                AdmittedAsyncEffect::Evaluation { evaluation: actual, page },
            ) => match driver.external {
                None => Err(FailureKind::MalformedResponse),
                Some((_, limits)) => HostedView::page_outcome(
                    driver,
                    evaluation,
                    actual,
                    limits,
                    page,
                ),
            },
            (operation, AdmittedAsyncEffect::Io(effect)) => driver.io_outcome(
                operation,
                effect,
                capacities,
            ),
            _ => Err(FailureKind::MalformedResponse),
        }
    }

    /// The host's result was judged. A failure, the host's own or the driver's, releases the
    /// driver.
    pub open spec fn judged(
        driver: DriverView,
        operation: TaskRequestV1,
        result: Result<AdmittedAsyncEffect, OperationFailure>,
        capacities: IoCapacities,
        later: DriverView,
        response: Result<TaskResponseV1, OperationFailure>,
    ) -> bool {
        match result {
            Err(failure) => response == Err::<TaskResponseV1, OperationFailure>(failure) && later
                == driver.released(),
            Ok(effect) => match HostedView::outcome(driver, operation, effect, capacities) {
                Ok((driver, answer)) => response == Ok::<TaskResponseV1, OperationFailure>(answer)
                    && later == driver,
                Err(kind) => driver.fails(kind, later, response),
            },
        }
    }
}

/// Completion by a host over the same request and response driver.
///
/// Futures and streams belong to the host; this driver contains only admitted data and
/// identities. It says when the host runs an effect and judges what the host hands back. An
/// effect that was started and never finished stays pending and requires cancellation, so that an
/// evaluation is not started twice and no external effect is repeated.
pub struct AsyncOperationDriver {
    driver: OperationDriver<(), NoCompiler>,
    in_flight: bool,
}

impl View for AsyncOperationDriver {
    type V = HostedView;

    closed spec fn view(&self) -> HostedView {
        HostedView { driver: self.driver@, in_flight: self.in_flight }
    }
}

impl AsyncOperationDriver {
    /// Allocates an independent task identity and a bounded shared I/O validation ledger.
    pub fn allocate(ids: &mut IdentityAllocator, limits: TaskLimits) -> (r: Result<
        (TaskId, AsyncOperationDriver),
        TaskProtocolError,
    >)
        ensures
            exists|granted: bool, slots: usize|
                match #[trigger] identity_with_table(*old(ids), limits, granted, slots) {
                    Err(error) => r == Err::<(TaskId, AsyncOperationDriver), TaskProtocolError>(
                        error,
                    ) && final(ids).tasks() == old(ids).tasks(),
                    Ok((id, table)) => {
                        &&& r matches Ok((token, hosted))
                        &&& token.number() == id
                        &&& idle(hosted@.driver, id, true, true)
                        &&& hosted@.driver.objects == Some(table)
                        &&& !hosted@.in_flight
                        &&& hosted@.wf()
                        &&& final(ids).tasks() == old(ids).tasks() + 1
                    },
                },
            final(ids).evaluations() == old(ids).evaluations(),
    {
        let ghost before = *ids;
        let allocated = OperationDriver::<(), NoCompiler>::allocate_with_io(
            ids,
            (),
            NoCompiler,
            limits,
        );
        proof {
            let (granted, slots) = choose|granted: bool, slots: usize| #[trigger]
                OperationDriver::<(), NoCompiler>::allocated(
                    before,
                    *ids,
                    limits,
                    granted,
                    slots,
                    allocated,
                );
            assert(identity_with_table(before, limits, granted, slots) is Ok == allocated is Ok);
        }
        match allocated {
            Ok((id, driver)) => Ok((id, AsyncOperationDriver { driver, in_flight: false })),
            Err(error) => Err(error),
        }
    }

    /// Allocates the one evaluation identity before dispatch starts.
    pub fn allocate_evaluation(&self, ids: &mut IdentityAllocator) -> (r: Result<
        EvaluationKey,
        TaskProtocolError,
    >)
        requires
            self@.wf(),
        ensures
            self@.driver.terminal || self@.driver.started ==> r == Err::<
                EvaluationKey,
                TaskProtocolError,
            >(TaskProtocolError::Terminal) && *final(ids) == *old(ids),
            final(ids).tasks() == old(ids).tasks(),
            !self@.driver.terminal && !self@.driver.started ==> match crate::protocol::next_identity(old(ids).evaluations()) {
                Some(id) => (r matches Ok(key) && key.owner() == self@.driver.task && key.number()
                    == id) && final(ids).evaluations() == id + 1,
                None => r == Err::<EvaluationKey, TaskProtocolError>(
                    TaskProtocolError::IdentityExhausted,
                ) && final(ids).evaluations() == old(ids).evaluations(),
            },
    {
        self.driver.allocate_evaluation(ids)
    }

    /// Takes one effect request under the driver's request-key, ordering, kind and one-start
    /// validation. An effect in flight stays in flight.
    pub fn dispatch(&mut self, request: TaskRequest) -> (r: Result<RequestKey, TaskProtocolError>)
        ensures
            old(self)@.in_flight ==> r == Err::<RequestKey, TaskProtocolError>(
                TaskProtocolError::PendingRequest,
            ) && *final(self) == *old(self),
            !old(self)@.in_flight ==> exists|capacity: usize|
                capacity >= request.operation.second_text() && match #[trigger] old(
                    self,
                )@.driver.dispatched(request, capacity) {
                    Ok(driver) => r == Ok::<RequestKey, TaskProtocolError>(request.key)
                        && final(self)@ == (HostedView { driver, in_flight: false }),
                    Err(error) => r == Err::<RequestKey, TaskProtocolError>(error)
                        && *final(self) == *old(self),
                },
            old(self)@.wf() ==> final(self)@.wf(),
    {
        if self.in_flight {
            return Err(TaskProtocolError::PendingRequest);
        }
        self.driver.dispatch(request)
    }

    /// The queued effect's operation, for the host that runs it.
    pub fn pending_operation(&self) -> (operation: Option<&TaskRequestV1>)
        ensures
            match self@.driver.effect {
                Some(request) => operation == Some(&request.operation),
                None => operation is None,
            },
    {
        match &self.driver.effect {
            Some(request) => Some(&request.operation),
            None => None,
        }
    }

    /// Admits the queued effect before the host runs it, or refuses it.
    ///
    /// `work` is the key of the pending work that the task lent.
    pub fn begin_effect(&mut self, work: RequestKey) -> (r: Result<EffectStart, TaskProtocolError>)
        requires
            old(self)@.wf(),
        ensures
            final(self)@.wf(),
            match old(self)@.ready(work) {
                Err(error) => r == Err::<EffectStart, TaskProtocolError>(error) && *final(self)
                    == *old(self),
                Ok(request) => r matches Ok(start) && exists|capacity: usize|
                    {
                        &&& path_covered(request.operation, capacity)
                        &&& #[trigger] old(self)@.starts(request, capacity, start, final(self)@)
                    },
            },
    {
        let capacity: usize = match &self.driver.effect {
            Some(request) => path_capacity(&request.operation),
            None => 0,
        };
        self.begin_effect_sized(work, capacity)
    }

    /// Admits the queued effect, whose path has `capacity` bytes behind it, or refuses it.
    pub fn begin_effect_sized(&mut self, work: RequestKey, capacity: usize) -> (r: Result<
        EffectStart,
        TaskProtocolError,
    >)
        requires
            old(self)@.wf(),
        ensures
            final(self)@.wf(),
            match old(self)@.ready(work) {
                Err(error) => r == Err::<EffectStart, TaskProtocolError>(error) && *final(self)
                    == *old(self),
                Ok(request) => r matches Ok(start) && old(self)@.starts(
                    request,
                    capacity,
                    start,
                    final(self)@,
                ),
            },
    {
        if self.in_flight || self.driver.response.is_some() {
            return Err(TaskProtocolError::PendingRequest);
        }
        if self.driver.terminal {
            return Err(TaskProtocolError::Terminal);
        }
        let (key, prepared, limits) = match &self.driver.effect {
            None => return Err(TaskProtocolError::NotStarted),
            Some(request) => {
                if work != request.key {
                    return Err(TaskProtocolError::WrongKey);
                }
                let limits = match &request.operation {
                    TaskRequestV1::EvaluationStart { limits, .. } => Some(*limits),
                    TaskRequestV1::Evaluation { .. } => match &self.driver.external_active {
                        Some((_, limits)) => Some(*limits),
                        None => None,
                    },
                    _ => None,
                };
                (request.key, self.driver.prepare_io(&request.operation, capacity), limits)
            },
        };
        let expected_identity = match prepared {
            Ok(identity) => identity,
            Err(failure) => {
                self.refuse(key, failure);
                return Ok(EffectStart::Refused { key });
            },
        };
        if let Some(limits) = limits {
            match self.driver.usage.begin_page(limits) {
                Ok(_) => {},
                Err(failure) => {
                    self.refuse(key, failure);
                    return Ok(EffectStart::Refused { key });
                },
            }
        }
        self.in_flight = true;
        Ok(EffectStart::Run { key, expected_identity, usage: self.driver.usage })
    }

    fn refuse(&mut self, key: RequestKey, failure: OperationFailure)
        ensures
            final(self)@ == (HostedView {
                driver: old(self)@.driver.taken().released().answering(key, Err(failure)),
                in_flight: old(self)@.in_flight,
            }),
    {
        self.driver.effect = None;
        self.driver.release_terminal_state();
        self.driver.response = Some((key, Err(failure)));
    }

    /// Judges what the host handed back and retains the response for transfer.
    pub fn finish_effect(&mut self, result: Result<AdmittedAsyncEffect, OperationFailure>) -> (r: Result<
        EffectEnd,
        TaskProtocolError,
    >)
        requires
            old(self)@.wf(),
        ensures
            final(self)@.wf(),
            !old(self)@.in_flight ==> r == Err::<EffectEnd, TaskProtocolError>(
                TaskProtocolError::NotStarted,
            ) && *final(self) == *old(self),
            old(self)@.in_flight ==> {
                let request = old(self)@.driver.effect->0;
                &&& r matches Ok(end)
                &&& end.key == request.key
                &&& !final(self)@.in_flight
                &&& final(self)@.driver.response matches Some((key, response))
                &&& key == request.key
                &&& end.cancel_host == (response is Err)
                &&& exists|capacities: IoCapacities|
                    {
                        &&& path_covered(request.operation, capacities.path)
                        &&& result matches Ok(AdmittedAsyncEffect::Io(effect)) ==> effect_covered(
                            effect,
                            capacities,
                        )
                        &&& #[trigger] HostedView::judged(
                            old(self)@.driver.taken(),
                            request.operation,
                            result,
                            capacities,
                            final(self)@.driver.transferred(),
                            response,
                        )
                    }
            },
    {
        if !self.in_flight {
            return Err(TaskProtocolError::NotStarted);
        }
        let path: usize = match &self.driver.effect {
            Some(request) => path_capacity(&request.operation),
            None => 0,
        };
        let capacities = match &result {
            Ok(AdmittedAsyncEffect::Io(effect)) => measure_effect(path, effect),
            _ => IoCapacities {
                listing: ListingCapacities {
                    files: 0,
                    paths: Vec::new(),
                    continuation: 0,
                    binding: 0,
                },
                path,
                bytes: 0,
            },
        };
        self.finish_effect_sized(result, capacities)
    }

    /// Judges what the host handed back, with the storage behind it as measured.
    #[verifier::spinoff_prover]
    #[verifier::rlimit(30)]
    pub fn finish_effect_sized(
        &mut self,
        result: Result<AdmittedAsyncEffect, OperationFailure>,
        capacities: IoCapacities,
    ) -> (r: Result<EffectEnd, TaskProtocolError>)
        requires
            old(self)@.wf(),
            result matches Ok(AdmittedAsyncEffect::Io(AdmittedIoEffect::Listing(page)))
                ==> capacities.listing.paths@.len() == page.files@.len(),
        ensures
            final(self)@.wf(),
            !old(self)@.in_flight ==> r == Err::<EffectEnd, TaskProtocolError>(
                TaskProtocolError::NotStarted,
            ) && *final(self) == *old(self),
            old(self)@.in_flight ==> {
                let request = old(self)@.driver.effect->0;
                &&& r matches Ok(end)
                &&& end.key == request.key
                &&& !final(self)@.in_flight
                &&& final(self)@.driver.response matches Some((key, response))
                &&& key == request.key
                &&& end.cancel_host == (response is Err)
                &&& HostedView::judged(
                    old(self)@.driver.taken(),
                    request.operation,
                    result,
                    capacities,
                    final(self)@.driver.transferred(),
                    response,
                )
            },
    {
        if !self.in_flight {
            return Err(TaskProtocolError::NotStarted);
        }
        let request = match self.driver.effect.take() {
            Some(request) => request,
            None => return Err(TaskProtocolError::NotStarted),
        };
        self.in_flight = false;
        let key = request.key;
        let response = match result {
            Ok(effect) => self.finish(request.operation, effect, capacities),
            Err(failure) => Err(failure),
        };
        let cancel_host = response.is_err();
        if cancel_host {
            self.driver.release_terminal_state();
        }
        self.driver.response = Some((key, response));
        Ok(EffectEnd { key, cancel_host })
    }

    fn finish(
        &mut self,
        operation: TaskRequestV1,
        effect: AdmittedAsyncEffect,
        capacities: IoCapacities,
    ) -> (r: Result<TaskResponseV1, OperationFailure>)
        requires
            effect matches AdmittedAsyncEffect::Io(AdmittedIoEffect::Listing(page))
                ==> capacities.listing.paths@.len() == page.files@.len(),
        ensures
            match HostedView::outcome(old(self)@.driver, operation, effect, capacities) {
                Ok((driver, answer)) => r == Ok::<TaskResponseV1, OperationFailure>(answer)
                    && final(self)@.driver == driver,
                Err(kind) => (r matches Err(failure) && failure.is_terminal(kind))
                    && final(self)@.driver.released() == old(self)@.driver.released(),
            },
            final(self)@.in_flight == old(self)@.in_flight,
    {
        match (operation, effect) {
            (
                TaskRequestV1::EvaluationStart { evaluation, limits, .. },
                AdmittedAsyncEffect::Evaluation { evaluation: actual, page },
            ) => {
                self.driver.compiler = None;
                self.finish_page(evaluation, actual, limits, page)
            },
            (
                TaskRequestV1::Evaluation { evaluation, .. },
                AdmittedAsyncEffect::Evaluation { evaluation: actual, page },
            ) => match self.driver.external_active {
                Some((_, limits)) => self.finish_page(evaluation, actual, limits, page),
                None => Err(OperationFailure::malformed_response()),
            },
            (operation, AdmittedAsyncEffect::Io(effect)) => self.driver.finish_io(
                operation,
                effect,
                capacities,
            ),
            _ => Err(OperationFailure::malformed_response()),
        }
    }

    fn finish_page(
        &mut self,
        expected: EvaluationKey,
        actual: EvaluationKey,
        limits: EvaluationLimits,
        page: Option<EvaluationPage>,
    ) -> (r: Result<TaskResponseV1, OperationFailure>)
        ensures
            match HostedView::page_outcome(old(self)@.driver, expected, actual, limits, page) {
                Ok((driver, answer)) => r == Ok::<TaskResponseV1, OperationFailure>(answer)
                    && final(self)@.driver == driver,
                Err(kind) => (r matches Err(failure) && failure.is_terminal(kind))
                    && final(self)@.driver.released() == old(self)@.driver.released(),
            },
            final(self)@.in_flight == old(self)@.in_flight,
    {
        if expected != actual {
            return Err(OperationFailure::malformed_response());
        }
        match &page {
            Some(delivered) => {
                self.driver.usage.record_page(limits, Some(delivered))?;
                self.driver.external_active = Some((expected, limits));
            },
            None => {
                self.driver.usage.record_page(limits, None)?;
                self.driver.external_active = None;
            },
        }
        Ok(TaskResponseV1::Evaluation { evaluation: expected, page })
    }

    /// Transfers the response only for the exact outstanding key.
    pub fn take_response(&mut self, key: RequestKey) -> (r: Result<
        Result<TaskResponseV1, OperationFailure>,
        TaskProtocolError,
    >)
        ensures
            r == old(self)@.driver.transfer(key),
            r is Ok ==> final(self)@ == (HostedView {
                driver: old(self)@.driver.transferred(),
                in_flight: old(self)@.in_flight,
            }),
            r is Err ==> *final(self) == *old(self),
            old(self)@.wf() ==> final(self)@.wf(),
    {
        self.driver.take_response(key)
    }

    /// Abandons pending work. On success the host's execution resources are to be dropped without
    /// polling.
    pub fn cancel(&mut self, key: Option<RequestKey>) -> (r: Result<(), TaskProtocolError>)
        ensures
            r is Ok == (old(self)@.driver.cancelled || key == old(self)@.driver.outstanding()),
            r matches Err(error) ==> error == TaskProtocolError::WrongKey && *final(self)
                == *old(self),
            r is Ok ==> final(self)@ == (HostedView {
                driver: if old(self)@.driver.cancelled {
                    old(self)@.driver
                } else {
                    old(self)@.driver.abandoned()
                },
                in_flight: false,
            }),
            old(self)@.wf() ==> final(self)@.wf(),
    {
        self.driver.cancel(key)?;
        self.in_flight = false;
        Ok(())
    }

    /// Returns the queued effect or completed response key retained by the driver.
    pub fn outstanding_key(&self) -> (key: Option<RequestKey>)
        ensures
            key == self@.driver.outstanding(),
    {
        self.driver.outstanding_key()
    }

    /// Returns cumulative validated evaluation usage after completion or cancellation.
    pub fn evaluation_usage(&self) -> (usage: EvaluationUsage)
        ensures
            usage == self@.driver.usage,
    {
        self.driver.evaluation_usage()
    }

    /// Returns cumulative validated storage usage after completion or cancellation.
    pub fn io_usage(&self) -> (usage: IoUsage)
        ensures
            usage == self@.driver.io_usage,
    {
        self.driver.io_usage()
    }
}

/// A response is transferred once: after a transfer there is nothing under any key.
pub proof fn responses_transfer_once(driver: DriverView, key: RequestKey, other: RequestKey)
    requires
        driver.transfer(key) is Ok,
    ensures
        driver.transferred().transfer(other) is Err,
{
}

/// A terminal driver takes no request and transfers only the response that it still holds.
pub proof fn terminal_drivers_take_no_requests(
    driver: DriverView,
    request: TaskRequest,
    capacity: usize,
)
    requires
        driver.terminal,
    ensures
        driver.dispatched(request, capacity) == Err::<DriverView, TaskProtocolError>(
            TaskProtocolError::Terminal,
        ),
{
}

/// A cancelled driver owns nothing that can run, and another cancellation changes nothing.
pub proof fn cancellation_is_final(driver: DriverView)
    requires
        driver.wf(),
    ensures
        driver.abandoned().wf(),
        driver.abandoned().outstanding() is None,
        driver.abandoned().usage == driver.usage,
        driver.abandoned().io_usage == driver.io_usage,
        driver.abandoned().abandoned() == driver.abandoned(),
{
}

/// Requests are dispatched in the order of their numbers: with nothing dispatched in between, the
/// next one has the next number.
pub proof fn requests_follow_in_order(
    driver: DriverView,
    later: DriverView,
    first: TaskRequest,
    second: TaskRequest,
    first_capacity: usize,
    second_capacity: usize,
)
    requires
        driver.dispatched(first, first_capacity) is Ok,
        later.next == driver.dispatched(first, first_capacity)->Ok_0.next,
        later.dispatched(second, second_capacity) is Ok,
    ensures
        second.key.sequence() == first.key.sequence() + 1,
{
}

/// A dispatched read stays within the size that was observed of its object, and an object that was
/// never observed is read from its start.
pub proof fn dispatched_reads_stay_in_range(driver: DriverView, request: TaskRequest, capacity: usize)
    requires
        driver.dispatched(request, capacity) is Ok,
    ensures
        request.operation matches TaskRequestV1::Read { path, offset, length } ==> {
            &&& length > 0
            &&& driver.observed(utf8(path@)) matches Some(known) ==> (known.size matches Some(size)
                ==> offset + length <= size)
            &&& driver.observed(utf8(path@)) is None ==> offset == 0
        },
{
}

/// An accepted storage effect answers the kind of its request, and the counters of completed work
/// never go back.
pub proof fn accepted_effects_answer_their_requests(
    driver: DriverView,
    operation: TaskRequestV1,
    effect: AdmittedIoEffect,
    capacities: IoCapacities,
)
    ensures
        driver.io_outcome(operation, effect, capacities) matches Ok((later, answer)) ==> {
            &&& operation.expects().accepts(answer)
            &&& driver.io_usage.precedes(later.io_usage)
        },
{
}

/// A driver's view says whether it owns a source and a compiler.
pub proof fn views_show_what_is_owned<S, C>(driver: OperationDriver<S, C>)
    ensures
        driver.source() is Some == driver@.has_source,
        driver.compiler() is Some == driver@.has_compiler,
{
}

/// A completed listing answers its request: its paths ascend strictly, lie under the root and behind
/// the cursor that was asked for, and only a full page continues, behind its last path. The storage
/// behind it is within the request's bytes. A page of the source that breaks any of this becomes a
/// malformed response.
pub proof fn completed_listings_answer_their_requests<S: AdmittedIoSource, C: PlanCompiler>(
    driver: OperationDriver<S, C>,
    root: String,
    continuation: Option<String>,
    entries: usize,
    descriptor_bytes: usize,
    continuation_bytes: usize,
    run: EffectRun,
    left: Option<S>,
    later: DriverView,
    response: Result<TaskResponseV1, OperationFailure>,
)
    requires
        ({
            let operation = TaskRequestV1::List {
                root,
                continuation,
                entries,
                descriptor_bytes,
                continuation_bytes,
            };
            &&& driver.asked(operation, run, left)
            &&& driver@.taken().ran(operation, run, later, response)
        }),
    ensures
        response matches Ok(answer) ==> {
            &&& answer matches TaskResponseV1::Listing { files, continuation: next }
            &&& files@.len() <= entries
            &&& forall|i: int|
                0 <= i < files@.len() ==> {
                    &&& begins(utf8((#[trigger] files@[i]).path@), utf8(root@))
                    &&& continuation matches Some(cursor) ==> precedes(
                        utf8(cursor@),
                        utf8(files@[i].path@),
                    )
                }
            &&& forall|i: int, j: int|
                0 <= i < j < files@.len() ==> precedes(
                    utf8((#[trigger] files@[i]).path@),
                    utf8((#[trigger] files@[j]).path@),
                )
            &&& match next {
                Some(text) => files@.len() == entries && files@.len() > 0 && utf8(text@) == utf8(
                    files@.last().path@,
                ),
                None => files@.len() < entries || files@.len() == 0,
            }
            &&& run.capacities.listing.files >= files@.len()
            &&& forall|i: int|
                0 <= i < files@.len() ==> #[trigger] run.capacities.listing.paths@[i] >= utf8(
                    files@[i].path@,
                ).len()
            &&& run.capacities.listing.files * vstd::layout::size_of::<FileDescriptor>() + total(
                run.capacities.listing.paths@,
                files@.len(),
            ) <= descriptor_bytes
        },
        driver.source() is Some ==> (run.given matches Ok(effect) ==> {
            let valid = effect matches AdmittedIoEffect::Listing(page) && listing_valid(
                utf8(root@),
                optional_utf8(optional_view(continuation)),
                entries,
                descriptor_bytes,
                continuation_bytes,
                page,
                run.capacities.listing,
            );
            !valid ==> (response matches Err(failure) && failure.is_terminal(
                FailureKind::MalformedResponse,
            ))
        }),
{
    views_show_what_is_owned(driver);
    if response is Ok {
        let page = run.given->Ok_0->Listing_0;
        let paths = listed_paths(page.files@);
        let after = optional_utf8(optional_view(continuation));
        assert forall|i: int, j: int| 0 <= i < j < page.files@.len() implies precedes(
            utf8((#[trigger] page.files@[i]).path@),
            utf8((#[trigger] page.files@[j]).path@),
        ) by {
            accepted_listings_are_sorted(paths, utf8(root@), after, i, j);
            assert(paths[i] == utf8(page.files@[i].path@));
            assert(paths[j] == utf8(page.files@[j].path@));
        }
        assert forall|i: int| 0 <= i < page.files@.len() implies {
            &&& begins(utf8((#[trigger] page.files@[i]).path@), utf8(root@))
            &&& continuation matches Some(cursor) ==> precedes(
                utf8(cursor@),
                utf8(page.files@[i].path@),
            )
        } by {
            accepted_paths_follow(paths, utf8(root@), after, i);
            assert(paths[i] == utf8(page.files@[i].path@));
        }
    }
}

/// An accepted read returns exactly the requested range of the object that was observed before.
pub proof fn accepted_reads_are_exact(
    driver: DriverView,
    path: String,
    offset: u64,
    length: usize,
    effect: AdmittedIoEffect,
    capacities: IoCapacities,
)
    ensures
        driver.io_outcome(TaskRequestV1::Read { path, offset, length }, effect, capacities) matches Ok(
            (later, answer),
        ) ==> {
            &&& answer matches TaskResponseV1::Bytes { offset: start, bytes, eof } && start == offset
                && bytes@.len() == length
            &&& effect matches AdmittedIoEffect::Read(read) && (driver.observed(utf8(path@)) matches Some(
                known,
            ) ==> known.identity == read.identity.value())
        },
{
}

impl DriverView {
    /// One call made `later` of this driver: a dispatch, the completion of the queued effect, a
    /// transfer or a cancellation.
    pub open spec fn steps_to(self, later: DriverView) -> bool {
        ||| exists|request: TaskRequest, capacity: usize| #[trigger]
            self.dispatched(request, capacity) == Ok::<DriverView, TaskProtocolError>(later)
        ||| self.completes(later)
        ||| exists|key: RequestKey| #[trigger] self.transfer(key) is Ok && later == self.transferred()
        ||| later == self.abandoned()
    }

    /// Completing the queued effect made `later` of this driver.
    pub open spec fn completes(self, later: DriverView) -> bool {
        self.effect matches Some(request) && exists|
            run: EffectRun,
            response: Result<TaskResponseV1, OperationFailure>,
        |
            {
                &&& later.response == Some((request.key, response))
                &&& #[trigger] self.taken().ran(
                    request.operation,
                    run,
                    later.transferred(),
                    response,
                )
            }
    }

    /// An evaluation is dispatched before it runs, and nothing is spent on it before.
    pub open spec fn unspent(self) -> bool {
        let starting = self.effect matches Some(request) && request.operation is EvaluationStart;
        &&& starting || self.active is Some ==> self.started
        &&& starting || !self.started ==> self.usage == (EvaluationUsage {
            pages: 0,
            batches: 0,
            rows: 0,
            bytes: 0,
        })
    }

    /// `later` is this driver after any number of calls: nothing that was counted is given back, a
    /// compiler that was let go of does not come back, an evaluation that was dispatched stays
    /// dispatched, and the end of a driver is final.
    pub open spec fn precedes(self, later: DriverView) -> bool {
        &&& later.task == self.task
        &&& self.next <= later.next
        &&& self.usage.precedes(later.usage)
        &&& self.io_usage.precedes(later.io_usage)
        &&& self.started ==> later.started
        &&& !self.has_compiler ==> !later.has_compiler
        &&& !self.has_source ==> !later.has_source
        &&& self.terminal ==> later.terminal
        &&& self.cancelled ==> later.cancelled
    }
}

/// A plan is compiled at most once: whatever an evaluation's start gives, the driver has no compiler
/// behind it, and a driver without one fails a start and compiles nothing.
pub proof fn plans_are_compiled_once(
    before: DriverView,
    later: DriverView,
    operation: TaskRequestV1,
    run: EffectRun,
    response: Result<TaskResponseV1, OperationFailure>,
)
    requires
        operation is EvaluationStart,
        before.ran(operation, run, later, response),
    ensures
        !later.has_compiler,
        !before.has_compiler ==> before.fails(FailureKind::MalformedResponse, later, response),
{
}

/// One call gives nothing back of what a driver has counted, and brings back nothing that it has
/// let go of.
pub proof fn driver_steps_only_add(before: DriverView, later: DriverView)
    requires
        before.wf(),
        before.unspent(),
        before.steps_to(later),
    ensures
        before.precedes(later),
        later.unspent(),
{
    if before.completes(later) {
        let request = before.effect->0;
        let (run, response) = choose|
            run: EffectRun,
            response: Result<TaskResponseV1, OperationFailure>,
        |
            {
                &&& later.response == Some((request.key, response))
                &&& #[trigger] before.taken().ran(
                    request.operation,
                    run,
                    later.transferred(),
                    response,
                )
            };
        ran_effects_only_add(before, later.transferred(), request.operation, run, response);
    }
}

proof fn ran_effects_only_add(
    before: DriverView,
    later: DriverView,
    operation: TaskRequestV1,
    run: EffectRun,
    response: Result<TaskResponseV1, OperationFailure>,
)
    requires
        before.wf(),
        before.unspent(),
        before.effect matches Some(request) && request.operation == operation,
        before.taken().ran(operation, run, later, response),
    ensures
        before.precedes(later),
        later.unspent(),
{
    match operation {
        TaskRequestV1::EvaluationStart { evaluation, limits, .. } => {
            if before.has_compiler && run.compiled is Ok {
                let driver = DriverView { has_compiler: false, ..before.taken() };
                let reader = choose|reader: EvaluationReader|
                    {
                        &&& reader.source() == Some(run.compiled->Ok_0)
                        &&& reader.bounds() == limits
                        &&& reader.ended() is None
                        &&& reader.spent() == (EvaluationUsage {
                            pages: 0,
                            batches: 0,
                            rows: 0,
                            bytes: 0,
                        })
                        &&& #[trigger] driver.page_read(
                            evaluation,
                            limits.each(),
                            reader,
                            later,
                            response,
                        )
                    };
                read_pages_only_add(driver, evaluation, limits.each(), reader, later, response);
            }
        },
        TaskRequestV1::Evaluation { evaluation, .. } => {
            if let Some(active) = before.active {
                let driver = DriverView { active: None, ..before.taken() };
                read_pages_only_add(
                    driver,
                    evaluation,
                    active.page_limits,
                    active.reader,
                    later,
                    response,
                );
            }
        },
        _ => {},
    }
}

proof fn read_pages_only_add(
    driver: DriverView,
    evaluation: EvaluationKey,
    page_limits: EvaluationPageLimits,
    reader: EvaluationReader,
    later: DriverView,
    response: Result<TaskResponseV1, OperationFailure>,
)
    requires
        driver.page_read(evaluation, page_limits, reader, later, response),
        reader.spent() == driver.usage,
        driver.effect is None,
        driver.started,
    ensures
        driver.precedes(later),
        later.effect is None,
        later.started,
{
    let (read, page) = choose|
        read: EvaluationReader,
        page: Result<Option<EvaluationPage>, OperationFailure>,
    |
        {
            &&& #[trigger] reader.pages(read, page)
            &&& driver.page_answered(evaluation, page_limits, read, page, later, response)
        };
    readers_give_nothing_back(reader, read, page);
}

/// Over any number of calls a driver gives nothing back of what it has counted, and brings back
/// nothing that it has let go of.
pub proof fn drivers_only_add(drivers: Seq<DriverView>)
    requires
        drivers.len() > 0,
        drivers[0].unspent(),
        forall|i: int| 0 <= i < drivers.len() ==> (#[trigger] drivers[i]).wf(),
        forall|i: int|
            0 <= i < drivers.len() - 1 ==> #[trigger] drivers[i].steps_to(drivers[i + 1]),
    ensures
        drivers[0].precedes(drivers.last()),
        drivers.last().unspent(),
    decreases drivers.len(),
{
    if drivers.len() > 1 {
        let n = drivers.len() as int;
        let earlier = drivers.drop_last();
        assert forall|i: int| 0 <= i < earlier.len() - 1 implies #[trigger] earlier[i].steps_to(
            earlier[i + 1],
        ) by {
            assert(drivers[i].steps_to(drivers[i + 1]));
        }
        drivers_only_add(earlier);
        assert(drivers[n - 2].steps_to(drivers[n - 2 + 1]));
        driver_steps_only_add(drivers[n - 2], drivers[n - 1]);
    }
}

/// A host that finishes an effect twice is refused the second time.
pub proof fn effects_finish_once(
    before: HostedView,
    request: TaskRequest,
    capacity: usize,
    start: EffectStart,
    after: HostedView,
    work: RequestKey,
)
    requires
        before.ready(request.key) == Ok::<TaskRequest, TaskProtocolError>(request),
        before.starts(request, capacity, start, after),
    ensures
        after.ready(work) == Err::<TaskRequest, TaskProtocolError>(
            TaskProtocolError::PendingRequest,
        ),
{
}

/// Everything of a driver but what storage effects change is the same.
pub open spec fn same_but_for_storage(before: DriverView, later: DriverView) -> bool {
    &&& later.task == before.task
    &&& later.next == before.next
    &&& later.started == before.started
    &&& later.effect == before.effect
    &&& later.response == before.response
    &&& later.active == before.active
    &&& later.external == before.external
    &&& later.has_source == before.has_source
    &&& later.usage == before.usage
    &&& later.has_compiler == before.has_compiler
    &&& later.terminal == before.terminal
    &&& later.cancelled == before.cancelled
}

/// An accepted listing hands on the source's page as it is, and remembers where it continues. It
/// counts as one page with its entries.
pub proof fn accepted_listings_hand_on_their_page(
    driver: DriverView,
    operation: TaskRequestV1,
    page: AdmittedListingPage,
    capacities: IoCapacities,
)
    requires
        operation is List,
    ensures
        driver.io_outcome(operation, AdmittedIoEffect::Listing(page), capacities) matches Ok(
            (later, answer),
        ) ==> {
            &&& answer == TaskResponseV1::Listing {
                files: page.files,
                continuation: page.continuation,
            }
            &&& match page.binding {
                Some(bound) => later.listing matches Some(cursor) && cursor.root == utf8(
                    operation->List_root@,
                ) && cursor.continuation == utf8(bound@),
                None => later.listing is None,
            }
            &&& later.objects == driver.objects
            &&& later.io_usage == (IoUsage {
                listing_pages: (driver.io_usage.listing_pages + 1) as usize,
                descriptors: (driver.io_usage.descriptors + page.files@.len()) as usize,
                ..driver.io_usage
            })
            &&& driver.io_usage.listing_pages < usize::MAX
            &&& driver.io_usage.descriptors + page.files@.len() <= usize::MAX
            &&& same_but_for_storage(driver, later)
        },
{
}

/// An accepted read hands on the source's bytes and its end of file as they are, and binds the path
/// to the identity that was observed. A read that reached the end of the object says how long the
/// object is. It counts as one read of its bytes.
pub proof fn accepted_reads_hand_on_their_bytes(
    driver: DriverView,
    path: String,
    offset: u64,
    length: usize,
    read: AdmittedRead,
    capacities: IoCapacities,
    other: Seq<u8>,
)
    ensures
        driver.io_outcome(
            TaskRequestV1::Read { path, offset, length },
            AdmittedIoEffect::Read(read),
            capacities,
        ) matches Ok((later, answer)) ==> {
            &&& answer == TaskResponseV1::Bytes { offset, bytes: read.bytes, eof: read.eof }
            &&& read.offset == offset
            &&& read.bytes@.len() == length
            &&& later.observed(utf8(path@)) matches Some(known)
            &&& known.identity == read.identity.value()
            &&& read.eof ==> known.size == Some((offset + length) as u64)
            &&& !read.eof ==> known.size == (match driver.observed(utf8(path@)) {
                Some(earlier) => earlier.size,
                None => None,
            })
            &&& known.size matches Some(size) ==> offset + length <= size || !read.eof
            &&& known.head_observed == (driver.observed(utf8(path@)) matches Some(earlier)
                && earlier.head_observed)
            &&& other != utf8(path@) ==> later.observed(other) == driver.observed(other)
            &&& later.listing == driver.listing
            &&& later.io_usage == (IoUsage {
                read_requests: (driver.io_usage.read_requests + 1) as usize,
                requested_read_bytes: (driver.io_usage.requested_read_bytes + length) as usize,
                received_read_bytes: (driver.io_usage.received_read_bytes + length) as usize,
                ..driver.io_usage
            })
            &&& same_but_for_storage(driver, later)
        },
{
    if let Some(objects) = driver.objects {
        let known = driver.observed(utf8(path@));
        let size = if read.eof {
            Some((offset + length) as u64)
        } else {
            match known {
                Some(known) => known.size,
                None => None,
            }
        };
        crate::storage::observations_are_recorded(
            objects,
            utf8(path@),
            capacities.path,
            read.identity.value(),
            size,
            known matches Some(known) && known.head_observed,
            other,
        );
    }
}

/// An accepted HEAD answers the size that the source observed, and binds the path to that size and to
/// the identity that was observed with it, so that a footer of the answered size may be asked for.
pub proof fn accepted_heads_answer_what_was_observed(
    driver: DriverView,
    path: String,
    head: AdmittedHead,
    capacities: IoCapacities,
    other: Seq<u8>,
)
    ensures
        driver.io_outcome(
            TaskRequestV1::Head { path },
            AdmittedIoEffect::Head(head),
            capacities,
        ) matches Ok((later, answer)) ==> {
            &&& answer == TaskResponseV1::Head { size: head.size }
            &&& later.observed(utf8(path@)) matches Some(known)
            &&& known.size == Some(head.size)
            &&& known.identity == head.identity.value()
            &&& known.head_observed
            &&& other != utf8(path@) ==> later.observed(other) == driver.observed(other)
            &&& later.listing == driver.listing
            &&& later.io_usage == (IoUsage {
                heads: (driver.io_usage.heads + 1) as usize,
                ..driver.io_usage
            })
            &&& same_but_for_storage(driver, later)
        },
{
    if let Some(objects) = driver.objects {
        crate::storage::observations_are_recorded(
            objects,
            utf8(path@),
            capacities.path,
            head.identity.value(),
            Some(head.size),
            true,
            other,
        );
    }
}

/// An accepted footer hands on the source's footer as it is. It is one of the object that a HEAD
/// observed, with the size that was observed then, and changes nothing that is known.
pub proof fn accepted_footers_hand_on_their_schema(
    driver: DriverView,
    path: String,
    size: u64,
    limits: crate::accounting::FooterLimits,
    footer: AdmittedFooter,
    capacities: IoCapacities,
)
    ensures
        driver.io_outcome(
            TaskRequestV1::Footer { path, size, limits },
            AdmittedIoEffect::Footer(footer),
            capacities,
        ) matches Ok((later, answer)) ==> {
            &&& answer == TaskResponseV1::Footer { footer: footer.footer }
            &&& driver.observed(utf8(path@)) matches Some(known)
            &&& known.head_observed
            &&& known.size == Some(size)
            &&& footer.size == size
            &&& known.identity == footer.identity.value()
            &&& later.objects == driver.objects
            &&& later.listing == driver.listing
            &&& later.io_usage == (IoUsage {
                footers: (driver.io_usage.footers + 1) as usize,
                ..driver.io_usage
            })
            &&& same_but_for_storage(driver, later)
        },
{
}

/// An effect is refused for nothing but what stands against it: a HEAD of an object that the driver
/// does not know or finds again as it knows it, an exact read of such an object, and a footer of the
/// object that a HEAD observed are accepted, as long as the counters can count them.
pub proof fn consistent_effects_are_accepted(
    driver: DriverView,
    path: String,
    offset: u64,
    length: usize,
    read: AdmittedRead,
    head: AdmittedHead,
    footer: AdmittedFooter,
    limits: crate::accounting::FooterLimits,
    capacities: IoCapacities,
)
    requires
        driver.objects matches Some(table) && 0 <= table.retained_bytes && (table.at(
            utf8(path@),
        ) is Some || {
            &&& table.entries.len() < table.entry_limit
            &&& table.entries.len() < table.slots
            &&& table.retained_bytes + capacities.path <= table.byte_limit
        }),
        driver.io_usage.heads < usize::MAX,
        driver.io_usage.footers < usize::MAX,
        driver.io_usage.read_requests < usize::MAX,
        driver.io_usage.requested_read_bytes + length <= usize::MAX,
        driver.io_usage.received_read_bytes + length <= usize::MAX,
    ensures
        ({
            let known = driver.observed(utf8(path@));
            &&& (known matches Some(object) ==> object.identity == head.identity.value() && (
            object.size is None || object.size == Some(head.size))) ==> driver.io_outcome(
                TaskRequestV1::Head { path },
                AdmittedIoEffect::Head(head),
                capacities,
            ) is Ok
            &&& {
                &&& read.offset == offset
                &&& read.bytes@.len() == length
                &&& capacities.bytes == length
                &&& offset + length <= u64::MAX
                &&& known matches Some(object) ==> object.identity == read.identity.value() && (
                object.size matches Some(size) ==> read.eof == (offset + length == size))
            } ==> driver.io_outcome(
                TaskRequestV1::Read { path, offset, length },
                AdmittedIoEffect::Read(read),
                capacities,
            ) is Ok
            &&& (known matches Some(object) && object.head_observed && object.size == Some(
                footer.size,
            ) && object.identity == footer.identity.value()) ==> driver.io_outcome(
                TaskRequestV1::Footer { path, size: footer.size, limits },
                AdmittedIoEffect::Footer(footer),
                capacities,
            ) is Ok
        }),
{
    let table = driver.objects->0;
    let known = driver.observed(utf8(path@));
    let size = if read.eof {
        Some((offset + length) as u64)
    } else {
        match known {
            Some(known) => known.size,
            None => None,
        }
    };
    crate::storage::consistent_observations_are_recorded(
        table,
        utf8(path@),
        capacities.path,
        head.identity.value(),
        Some(head.size),
        true,
    );
    crate::storage::consistent_observations_are_recorded(
        table,
        utf8(path@),
        capacities.path,
        read.identity.value(),
        size,
        known matches Some(known) && known.head_observed,
    );
}

/// An idle driver takes a request exactly where the request has the next key of its task and asks for
/// something that may follow on what the driver knows, and it takes the request as it is.
pub proof fn requests_are_taken_exactly(driver: DriverView, request: TaskRequest, capacity: usize)
    requires
        !driver.terminal,
        driver.effect is None,
        driver.response is None,
    ensures
        driver.dispatched(request, capacity) is Ok <==> {
            &&& request.key.owner() == driver.task
            &&& request.key.sequence() == driver.next
            &&& driver.next < u64::MAX
            &&& match request.operation {
                TaskRequestV1::List {
                    root,
                    continuation,
                    entries,
                    descriptor_bytes,
                    continuation_bytes,
                } => {
                    &&& driver.has_source
                    &&& utf8(root@).len() > 0
                    &&& utf8(root@).last() == 47u8
                    &&& entries > 0
                    &&& entries * vstd::layout::size_of::<FileDescriptor>() <= descriptor_bytes
                    &&& continuation_bytes > 0
                    &&& continuation is Some == driver.listing is Some
                    &&& continuation matches Some(text) ==> {
                        &&& capacity <= continuation_bytes
                        &&& utf8(text@).len() > 0
                        &&& exists|rest: Seq<u8>| utf8(text@) == #[trigger] (utf8(root@) + rest)
                        &&& driver.listing->0.root == utf8(root@)
                        &&& driver.listing->0.continuation == utf8(text@)
                    }
                },
                TaskRequestV1::Read { path, offset, length } => {
                    &&& driver.has_source
                    &&& utf8(path@).len() > 0
                    &&& length > 0
                    &&& offset + length <= u64::MAX
                    &&& match driver.observed(utf8(path@)) {
                        Some(known) => known.size is None || offset + length <= known.size->0,
                        None => offset == 0,
                    }
                },
                TaskRequestV1::Head { path } => driver.has_source && utf8(path@).len() > 0,
                TaskRequestV1::Footer { path, size, .. } => driver.has_source && (driver.observed(
                    utf8(path@),
                ) matches Some(known) && known.head_observed && known.size == Some(size)),
                TaskRequestV1::EvaluationStart { evaluation, .. } => {
                    &&& evaluation.owner() == driver.task
                    &&& !driver.started
                    &&& driver.active is None
                    &&& driver.external is None
                },
                TaskRequestV1::Evaluation { evaluation, limits } => match (
                    driver.active,
                    driver.external,
                ) {
                    (Some(active), _) => evaluation == active.key && limits == active.page_limits,
                    (None, Some((key, all))) => evaluation == key && limits == all.each(),
                    (None, None) => false,
                },
            }
        },
        driver.dispatched(request, capacity) matches Ok(later) ==> {
            &&& later.effect == Some(request)
            &&& later.next == driver.next + 1
            &&& later.started == (driver.started || request.operation is EvaluationStart)
            &&& later.task == driver.task
            &&& later.response is None
            &&& later.active == driver.active
            &&& later.external == driver.external
            &&& later.has_source == driver.has_source
            &&& later.objects == driver.objects
            &&& later.listing == driver.listing
            &&& later.usage == driver.usage
            &&& later.io_usage == driver.io_usage
            &&& later.has_compiler == driver.has_compiler
            &&& later.terminal == driver.terminal
            &&& later.cancelled == driver.cancelled
        },
{
    if let TaskRequestV1::List { root, continuation: Some(text), .. } = request.operation {
        crate::bytes::beginnings_are_prefixes(utf8(text@), utf8(root@));
    }
}

/// A driver hands its response over under its own key and no other, and keeps everything else.
pub proof fn responses_are_handed_over_under_their_key(driver: DriverView, key: RequestKey)
    ensures
        driver.transfer(key) is Ok <==> (driver.response matches Some((own, _)) && own == key),
        driver.transfer(key) matches Ok(response) ==> driver.response == Some((key, response)),
        driver.transferred().response is None,
        driver.transferred().effect == driver.effect,
        driver.transferred().terminal == driver.terminal,
        driver.transferred().objects == driver.objects,
        driver.transferred().next == driver.next,
{
}

/// A listing is accepted exactly where its page is a valid answer to the request and can be counted.
pub proof fn valid_listings_are_accepted(
    driver: DriverView,
    root: String,
    continuation: Option<String>,
    entries: usize,
    descriptor_bytes: usize,
    continuation_bytes: usize,
    page: AdmittedListingPage,
    capacities: IoCapacities,
)
    requires
        page.files@.len() <= usize::MAX,
    ensures
        driver.io_outcome(
            TaskRequestV1::List { root, continuation, entries, descriptor_bytes, continuation_bytes },
            AdmittedIoEffect::Listing(page),
            capacities,
        ) is Ok <==> {
            &&& listing_valid(
                utf8(root@),
                match continuation {
                    Some(text) => Some(utf8(text@)),
                    None => None,
                },
                entries,
                descriptor_bytes,
                continuation_bytes,
                page,
                capacities.listing,
            )
            &&& driver.io_usage.listing_pages + 1 <= usize::MAX
            &&& driver.io_usage.descriptors + page.files@.len() <= usize::MAX
        },
{
}

/// An answer of another kind than the request is never accepted.
pub proof fn other_answers_are_refused(
    driver: DriverView,
    operation: TaskRequestV1,
    effect: AdmittedIoEffect,
    capacities: IoCapacities,
)
    requires
        driver.io_outcome(operation, effect, capacities) is Ok,
    ensures
        operation is List <==> effect is Listing,
        operation is Read <==> effect is Read,
        operation is Head <==> effect is Head,
        operation is Footer <==> effect is Footer,
        !(operation is Evaluation),
        !(operation is EvaluationStart),
{
}

/// A page that was read is the page that is answered, under the key that was asked for, and the reader
/// waits for the next request. An end is answered as an end, and leaves the evaluation. A failure is
/// handed on, and releases everything.
pub proof fn read_pages_are_answered(
    driver: DriverView,
    evaluation: EvaluationKey,
    page_limits: EvaluationPageLimits,
    reader: EvaluationReader,
    page: Result<Option<EvaluationPage>, OperationFailure>,
    later: DriverView,
    response: Result<TaskResponseV1, OperationFailure>,
)
    requires
        driver.page_answered(evaluation, page_limits, reader, page, later, response),
    ensures
        later.usage == reader.spent(),
        response is Ok <==> page is Ok,
        page matches Ok(given) ==> response == Ok::<TaskResponseV1, OperationFailure>(
            TaskResponseV1::Evaluation { evaluation, page: given },
        ),
        page matches Err(failure) ==> {
            &&& response == Err::<TaskResponseV1, OperationFailure>(failure)
            &&& later.terminal
        },
        page matches Ok(Some(_)) ==> {
            &&& later.active matches Some(active)
            &&& active.key == evaluation
            &&& active.page_limits == page_limits
            &&& active.reader == reader
            &&& later.terminal == driver.terminal
            &&& later.has_source == driver.has_source
            &&& later.objects == driver.objects
        },
        page matches Ok(None) ==> {
            &&& driver.has_source ==> later == (DriverView { usage: reader.spent(), ..driver })
            &&& !driver.has_source ==> later.terminal
        },
{
}

/// A host's page is accepted exactly where it is of the evaluation that was asked for and its usage can
/// be recorded. It is answered as it is, under its key, and the evaluation goes on until its end.
pub proof fn host_pages_are_answered(
    driver: DriverView,
    expected: EvaluationKey,
    actual: EvaluationKey,
    limits: EvaluationLimits,
    page: Option<EvaluationPage>,
)
    ensures
        ({
            let outcome = HostedView::page_outcome(driver, expected, actual, limits, page);
            &&& outcome is Ok <==> expected == actual && (page matches Some(delivered)
                ==> driver.usage.recorded(limits, delivered) is Ok)
            &&& outcome matches Ok((later, answer)) ==> {
                &&& answer == (TaskResponseV1::Evaluation { evaluation: expected, page })
                &&& page is None ==> later == (DriverView { external: None, ..driver })
                &&& page matches Some(delivered) ==> {
                    &&& later.external == Some((expected, limits))
                    &&& driver.usage.recorded(limits, delivered) == Ok::<
                        EvaluationUsage,
                        FailureKind,
                    >(later.usage)
                    &&& later.objects == driver.objects
                    &&& later.io_usage == driver.io_usage
                    &&& later.terminal == driver.terminal
                    &&& later.next == driver.next
                }
            }
            &&& outcome matches Err(kind) ==> expected != actual ==> kind
                == FailureKind::MalformedResponse
        }),
{
}

/// A host's work is ready exactly where a request waits for it under the work's own key, and nothing is
/// in flight or answered. It is that request.
pub proof fn host_work_is_ready_under_its_key(hosted: HostedView, work: RequestKey)
    ensures
        hosted.ready(work) is Ok <==> {
            &&& !hosted.in_flight
            &&& hosted.driver.response is None
            &&& !hosted.driver.terminal
            &&& hosted.driver.effect matches Some(request)
            &&& request.key == work
        },
        hosted.ready(work) matches Ok(request) ==> hosted.driver.effect == Some(request),
{
}

/// A read or an observation is prepared exactly where the table of objects has the path or room for it,
/// and a footer exactly where the path was observed with the requested size. What is expected is the
/// identity that was observed before, if one was.
pub proof fn observed_identities_are_expected(
    driver: DriverView,
    operation: TaskRequestV1,
    path: String,
    capacity: usize,
)
    requires
        match operation {
            TaskRequestV1::Read { path: own, .. } => own == path,
            TaskRequestV1::Head { path: own } => own == path,
            TaskRequestV1::Footer { path: own, .. } => own == path,
            _ => false,
        },
    ensures
        ({
            let known = driver.observed(utf8(path@));
            &&& driver.prepared(operation, capacity) is Ok <==> match operation {
                TaskRequestV1::Footer { size, .. } => {
                    &&& known matches Some(object)
                    &&& object.head_observed
                    &&& object.size == Some(size)
                },
                _ => driver.objects matches Some(table) && table.room(
                    utf8(path@),
                    capacity,
                ) is Ok,
            }
            &&& driver.prepared(operation, capacity) matches Ok(expected) ==> match known {
                Some(object) => expected == Some(object.identity),
                None => expected is None,
            }
        }),
{
}

/// What a driver lets go when it fails: its evaluation, its source, its compiler, its table and its
/// listing. It is terminal then, and its counts and its last key stay.
pub proof fn released_drivers_keep_their_counts(driver: DriverView)
    ensures
        driver.released().terminal,
        driver.released().active is None,
        driver.released().external is None,
        !driver.released().has_source,
        !driver.released().has_compiler,
        driver.released().objects is None,
        driver.released().listing is None,
        driver.released().task == driver.task,
        driver.released().next == driver.next,
        driver.released().usage == driver.usage,
        driver.released().io_usage == driver.io_usage,
        driver.abandoned().cancelled,
        driver.abandoned().terminal,
        driver.abandoned().effect is None,
        driver.abandoned().response is None,
        driver.abandoned().next == driver.next,
        driver.abandoned().io_usage == driver.io_usage,
        driver.active is None ==> driver.abandoned().usage == driver.usage,
        driver.active matches Some(active) ==> driver.abandoned().usage == active.reader.spent(),
{
}

/// A host's effect starts exactly where its object is prepared and, for a page, where another page can
/// be begun. It starts under the request's own key, with the identity that is expected, and is in
/// flight then; otherwise the request is answered with the failure, and everything is released.
pub proof fn host_effects_start_where_they_are_prepared(
    hosted: HostedView,
    request: TaskRequest,
    capacity: usize,
    start: EffectStart,
    later: HostedView,
)
    requires
        hosted.starts(request, capacity, start, later),
    ensures
        later.in_flight <==> {
            &&& hosted.driver.prepared(request.operation, capacity) is Ok
            &&& match request.operation {
                TaskRequestV1::EvaluationStart { limits, .. } => hosted.driver.usage.begun(
                    limits,
                ) is Ok,
                TaskRequestV1::Evaluation { .. } => hosted.driver.external matches Some((_, limits))
                    ==> hosted.driver.usage.begun(limits) is Ok,
                _ => true,
            }
        },
        later.in_flight ==> {
            &&& start matches EffectStart::Run { key, expected_identity, .. }
            &&& key == request.key
            &&& hosted.driver.prepared(request.operation, capacity) matches Ok(expected)
            &&& expected is Some <==> expected_identity is Some
            &&& expected_identity matches Some(identity) ==> expected == Some(identity.value())
            &&& later.driver.effect == hosted.driver.effect
            &&& later.driver.io_usage == hosted.driver.io_usage
            &&& !(request.operation is EvaluationStart) && !(request.operation is Evaluation)
                ==> later.driver.usage == hosted.driver.usage
        },
        !later.in_flight ==> {
            &&& start matches EffectStart::Refused { key }
            &&& key == request.key
            &&& later.driver.terminal
            &&& later.driver.response matches Some((answered, response))
            &&& answered == request.key
            &&& response is Err
        },
{
}

/// A driver is made exactly where its table fits and was granted, and a task identity is left; it gets
/// the next one, and the allocator moves on by one.
pub proof fn drivers_get_the_next_identity(
    ids: IdentityAllocator,
    limits: TaskLimits,
    granted: bool,
    slots: usize,
)
    ensures
        ({
            let made = identity_with_table(ids, limits, granted, slots);
            &&& made is Ok <==> {
                &&& granted
                &&& ObjectBindings::reserved(limits, slots) is Some
                &&& crate::protocol::next_identity(ids.tasks()) is Some
            }
            &&& made matches Ok((id, table)) ==> {
                &&& crate::protocol::next_identity(ids.tasks()) == Some(id)
                &&& ObjectBindings::reserved(limits, slots) == Some(table)
            }
        }),
{
}

} // verus!
