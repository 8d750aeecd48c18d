//! The messages that a task and its driver exchange, and the identities that bind them.

use crate::accounting::{FooterLimits, PendingWork};
use crate::backing::{optional_text_capacity, text_capacity};
use crate::bytes::utf8;
use crate::evaluation::{EvaluationLimits, EvaluationPage, EvaluationPageLimits};
use crate::failure::{OperationFailure, TaskProtocolError};
use crate::plan_admission::AdmittedPlan;
use crate::schema::ParquetFooter;
use vstd::arithmetic::overflow::CheckedUsize;
use vstd::prelude::*;

verus! {

/// The next identity of a counter, or `None` where the counter is spent.
pub open spec fn next_identity(counter: u64) -> Option<u64> {
    if counter == 0 || counter == u64::MAX {
        None
    } else {
        Some(counter)
    }
}

/// Issues the counter's value and advances it. Neither zero nor the last value is ever issued.
pub fn allocate_identity(counter: &mut u64) -> (r: Result<u64, TaskProtocolError>)
    ensures
        match next_identity(*old(counter)) {
            Some(id) => r == Ok::<u64, TaskProtocolError>(id) && *final(counter) == id + 1,
            None => r == Err::<u64, TaskProtocolError>(TaskProtocolError::IdentityExhausted)
                && *final(counter) == *old(counter),
        },
{
    let id: u64 = *counter;
    if id == 0 {
        return Err(TaskProtocolError::IdentityExhausted);
    }
    match id.checked_add(1) {
        Some(next) => {
            *counter = next;
            Ok(id)
        },
        None => Err(TaskProtocolError::IdentityExhausted),
    }
}

/// The counters that a driver's identities come from.
///
/// Identities of one allocator are nonzero and never repeat. Sharing the allocator between
/// drivers is the caller's part.
pub struct IdentityAllocator {
    next_task: u64,
    next_evaluation: u64,
}

impl IdentityAllocator {
    /// The counter of tasks.
    pub closed spec fn tasks(self) -> u64 {
        self.next_task
    }

    /// The counter of evaluations.
    pub closed spec fn evaluations(self) -> u64 {
        self.next_evaluation
    }

    /// Starts both counters at one.
    pub fn new() -> (ids: IdentityAllocator)
        ensures
            ids.tasks() == 1,
            ids.evaluations() == 1,
    {
        IdentityAllocator { next_task: 1, next_evaluation: 1 }
    }

    /// Starts the counters where others left off.
    pub fn resume_at(next_task: u64, next_evaluation: u64) -> (ids: IdentityAllocator)
        ensures
            ids.tasks() == next_task,
            ids.evaluations() == next_evaluation,
    {
        IdentityAllocator { next_task, next_evaluation }
    }
}

/// A nonzero process-local identity allocated by a driver and consumed by one task.
///
/// The token cannot be cloned or reconstructed from its numeric value. It is not a durable or
/// serializable identity, and does not authenticate effects from an untrusted driver.
#[derive(Debug, PartialEq, Eq)]
pub struct TaskId {
    value: u64,
}

impl TaskId {
    /// The numeric value.
    pub closed spec fn number(self) -> u64 {
        self.value
    }

    /// Allocates a fresh driver identity, or refuses instead of wrapping.
    pub fn allocate(ids: &mut IdentityAllocator) -> (r: Result<TaskId, TaskProtocolError>)
        ensures
            final(ids).evaluations() == old(ids).evaluations(),
            match next_identity(old(ids).tasks()) {
                Some(id) => (r matches Ok(token) && token.number() == id) && final(ids).tasks() == id
                    + 1,
                None => r == Err::<TaskId, TaskProtocolError>(TaskProtocolError::IdentityExhausted)
                    && final(ids).tasks() == old(ids).tasks(),
            },
    {
        match allocate_identity(&mut ids.next_task) {
            Ok(value) => Ok(TaskId { value }),
            Err(error) => Err(error),
        }
    }

    /// Returns the nonzero value for request routing and diagnostics.
    pub fn get(&self) -> (id: u64)
        ensures
            id == self.number(),
    {
        self.value
    }
}

/// Identifies one outstanding request within one task.
#[derive(Debug, Clone, Copy, PartialEq, Eq, Structural)]
pub struct RequestKey {
    task: u64,
    request: u64,
}

impl RequestKey {
    /// The key of a task's request.
    pub closed spec fn of(task: u64, request: u64) -> RequestKey {
        RequestKey { task, request }
    }

    /// The task.
    pub closed spec fn owner(self) -> u64 {
        self.task
    }

    /// The request's place in the task's sequence.
    pub closed spec fn sequence(self) -> u64 {
        self.request
    }

    /// Reconstructs a response key, rejecting either reserved zero value.
    ///
    /// Constructing a key does not create a task or authorize an effect. Drivers echo the key
    /// received from the task; resumption validates it against the outstanding request.
    pub fn new(task: u64, request: u64) -> (r: Result<RequestKey, TaskProtocolError>)
        ensures
            r == (if task == 0 || request == 0 {
                Err::<RequestKey, TaskProtocolError>(TaskProtocolError::InvalidIdentity)
            } else {
                Ok(RequestKey::of(task, request))
            }),
            r matches Ok(key) ==> key.owner() == task && key.sequence() == request,
    {
        if task == 0 || request == 0 {
            return Err(TaskProtocolError::InvalidIdentity);
        }
        Ok(RequestKey { task, request })
    }

    /// Returns the task's driver-assigned identity.
    pub fn task_id(self) -> (id: u64)
        ensures
            id == self.owner(),
    {
        self.task
    }

    /// Returns the task-local request sequence number, starting at one.
    pub fn request_id(self) -> (id: u64)
        ensures
            id == self.sequence(),
    {
        self.request
    }
}

/// Keys are the same exactly when their task and their place in the sequence are.
pub broadcast proof fn key_parts(task: u64, request: u64)
    ensures
        (#[trigger] RequestKey::of(task, request)).owner() == task,
        RequestKey::of(task, request).sequence() == request,
{
}

/// A key is made of its two parts.
pub proof fn keys_are_determined(a: RequestKey, b: RequestKey)
    ensures
        a == b <==> a.owner() == b.owner() && a.sequence() == b.sequence(),
        a == RequestKey::of(a.owner(), a.sequence()),
{
}

/// A checked reference to evaluation state owned by the driver, not by a task.
#[derive(Debug, Clone, Copy, PartialEq, Eq, Structural)]
pub struct EvaluationKey {
    task: u64,
    evaluation: u64,
}

impl EvaluationKey {
    /// The owning task.
    pub closed spec fn owner(self) -> u64 {
        self.task
    }

    /// The evaluation's identity.
    pub closed spec fn number(self) -> u64 {
        self.evaluation
    }

    /// Allocates an evaluation identity for a nonzero task identity.
    ///
    /// The driver must bind the result to its admitted evaluation before issuing pages.
    pub fn allocate(ids: &mut IdentityAllocator, task: u64) -> (r: Result<
        EvaluationKey,
        TaskProtocolError,
    >)
        ensures
            final(ids).tasks() == old(ids).tasks(),
            task == 0 ==> r == Err::<EvaluationKey, TaskProtocolError>(
                TaskProtocolError::InvalidIdentity,
            ) && final(ids).evaluations() == old(ids).evaluations(),
            task != 0 ==> match next_identity(old(ids).evaluations()) {
                Some(id) => (r matches Ok(key) && key.owner() == task && key.number() == id) 
                    && final(ids).evaluations() == id + 1,
                None => r == Err::<EvaluationKey, TaskProtocolError>(
                    TaskProtocolError::IdentityExhausted,
                ) && final(ids).evaluations() == old(ids).evaluations(),
            },
    {
        if task == 0 {
            return Err(TaskProtocolError::InvalidIdentity);
        }
        match allocate_identity(&mut ids.next_evaluation) {
            Ok(evaluation) => Ok(EvaluationKey { task, evaluation }),
            Err(error) => Err(error),
        }
    }

    /// Returns the owning task identity.
    pub fn task_id(self) -> (id: u64)
        ensures
            id == self.owner(),
    {
        self.task
    }

    /// Returns the checked driver-local evaluation identity.
    pub fn evaluation_id(self) -> (id: u64)
        ensures
            id == self.number(),
    {
        self.evaluation
    }
}

/// An identity that was issued is nonzero, and no later one of the same counter equals it.
pub proof fn identities_never_repeat(first_counter: u64, later_counter: u64)
    requires
        next_identity(first_counter) is Some,
        next_identity(later_counter) is Some,
        later_counter >= first_counter + 1,
    ensures
        next_identity(first_counter)->0 != 0,
        next_identity(first_counter)->0 < next_identity(later_counter)->0,
{
}

/// Validated work allowances for one cooperative CPU turn.
///
/// This is a work budget, not a wall-clock deadline. Implementers must yield inside wide schemas,
/// records and expression trees rather than only between outer operations.
#[derive(Debug, Clone, Copy, PartialEq, Eq, Structural)]
pub struct CpuSlice {
    records: usize,
    bytes: usize,
    plan_nodes: usize,
}

impl CpuSlice {
    /// The allowances of a turn.
    pub closed spec fn of(records: usize, bytes: usize, plan_nodes: usize) -> CpuSlice {
        CpuSlice { records, bytes, plan_nodes }
    }

    /// The most records of a turn.
    pub closed spec fn record_cap(self) -> usize {
        self.records
    }

    /// The most input bytes of a turn.
    pub closed spec fn byte_cap(self) -> usize {
        self.bytes
    }

    /// The most plan nodes of a turn.
    pub closed spec fn node_cap(self) -> usize {
        self.plan_nodes
    }

    /// Allowances that permit progress and stay under the qualification turn ceilings.
    pub open spec fn qualifies(records: usize, bytes: usize, plan_nodes: usize) -> bool {
        0 < records <= 1024 && 0 < bytes <= 1048576 && 0 < plan_nodes <= 256
    }

    /// Sets record, input-byte and plan-node allowances.
    ///
    /// Refuses zero allowances and values above the finite qualification turn ceilings: 1024
    /// records, 1 MiB input and 256 plan nodes.
    pub fn new(records: usize, bytes: usize, plan_nodes: usize) -> (r: Result<
        CpuSlice,
        TaskProtocolError,
    >)
        ensures
            r == (if CpuSlice::qualifies(records, bytes, plan_nodes) {
                Ok::<CpuSlice, TaskProtocolError>(CpuSlice::of(records, bytes, plan_nodes))
            } else {
                Err(TaskProtocolError::InvalidLimits)
            }),
            r matches Ok(cpu) ==> cpu.record_cap() == records && cpu.byte_cap() == bytes
                && cpu.node_cap() == plan_nodes,
    {
        if records == 0 || records > 1024 || bytes == 0 || bytes > 1048576 || plan_nodes == 0
            || plan_nodes > 256 {
            return Err(TaskProtocolError::InvalidLimits);
        }
        Ok(CpuSlice { records, bytes, plan_nodes })
    }

    /// Returns the maximum records processed in this turn.
    pub fn records(self) -> (n: usize)
        ensures
            n == self.record_cap(),
    {
        self.records
    }

    /// Returns the maximum input bytes processed in this turn.
    pub fn bytes(self) -> (n: usize)
        ensures
            n == self.byte_cap(),
    {
        self.bytes
    }

    /// Returns the maximum plan nodes processed in this turn.
    pub fn plan_nodes(self) -> (n: usize)
        ensures
            n == self.node_cap(),
    {
        self.plan_nodes
    }
}

/// Fixed-size identity used to bind reads and footer decoding to one observed object version.
#[derive(Debug, Clone, Copy, PartialEq, Eq)]
pub struct ObjectIdentity {
    bytes: [u8; 32],
}

impl ObjectIdentity {
    /// The identity's bytes.
    pub closed spec fn value(self) -> Seq<u8> {
        self.bytes@
    }

    /// Creates an identity from provider-owned version bytes or their collision-resistant digest.
    pub fn new(bytes: [u8; 32]) -> (identity: ObjectIdentity)
        ensures
            identity.value() == bytes@,
    {
        ObjectIdentity { bytes }
    }

    /// Returns the fixed-size identity bytes.
    pub fn bytes(self) -> (bytes: [u8; 32])
        ensures
            bytes@ == self.value(),
    {
        self.bytes
    }

    /// Compares two identities byte for byte.
    pub fn same(&self, other: &ObjectIdentity) -> (r: bool)
        ensures
            r == (self.value() == other.value()),
    {
        let mut i: usize = 0;
        while i < 32
            invariant
                i <= 32,
                forall|j: int| 0 <= j < i ==> self.bytes@[j] == other.bytes@[j],
            decreases 32 - i,
        {
            if self.bytes[i] != other.bytes[i] {
                assert(self.value()[i as int] != other.value()[i as int]);
                return false;
            }
            i += 1;
        }
        assert(self.value() =~= other.value());
        true
    }
}

/// Owned semantic metadata from an admitted listing source.
///
/// Producers bound discovery and allocation before creating descriptors. Consumers account the
/// actual container and string capacities before retaining a page.
#[derive(Debug)]
pub struct FileDescriptor {
    /// The full object path, ordered using the storage path ordering.
    pub path: String,
    /// The object's byte length.
    pub size: u64,
    /// Last modification time in milliseconds since the Unix epoch.
    pub modification_time: i64,
    /// The object version observed by discovery.
    pub identity: ObjectIdentity,
}

/// Read-only work transferred to a driver after protocol admission.
///
/// Request materialization must admit owned bytes before allocation. The driver additionally
/// admits each effect's I/O and destination allocations before performing it.
#[allow(inconsistent_fields)]
pub enum TaskRequestV1 {
    /// Returns an admitted listing page without lookahead.
    List {
        /// The listing root.
        root: String,
        /// The bounded cursor returned by the preceding page.
        continuation: Option<String>,
        /// Maximum descriptors in the response.
        entries: usize,
        /// Maximum descriptor backing and container bytes.
        descriptor_bytes: usize,
        /// Maximum cursor backing bytes.
        continuation_bytes: usize,
    },
    /// Reads exactly the requested range into admitted owned storage.
    Read {
        /// The admitted object path.
        path: String,
        /// The first byte offset.
        offset: u64,
        /// Exact requested length.
        length: usize,
    },
    /// Reads the size of an admitted object.
    Head {
        /// The admitted object path.
        path: String,
    },
    /// Uses the driver's injected limited Parquet reader.
    Footer {
        /// The admitted object path.
        path: String,
        /// Size established by the driver's identity-checked HEAD.
        size: u64,
        /// The footer, schema, row-group, metadata and page-index allowances.
        limits: FooterLimits,
    },
    /// Transfers an admitted plan, once, and requests its first page.
    EvaluationStart {
        /// Identity bound to the task by the driver.
        evaluation: EvaluationKey,
        /// The plan whose ownership passes to the driver.
        plan: AdmittedPlan,
        /// Per-page and cumulative bounds of the evaluation.
        limits: EvaluationLimits,
    },
    /// Requests another page of an already admitted driver-owned evaluation.
    Evaluation {
        /// Identity bound to the task by the driver.
        evaluation: EvaluationKey,
        /// Bounds supplied to the producer before it constructs the page.
        limits: EvaluationPageLimits,
    },
}

/// An owned effect request and the exact key the driver must echo on resumption.
pub struct TaskRequest {
    /// The task identity and checked request sequence number.
    pub key: RequestKey,
    /// The semantic effect to execute.
    pub operation: TaskRequestV1,
}

/// Owned responses from an admitted driver.
///
/// The transition machine validates keys and variants before consuming pending state. Concrete
/// semantic states validate range shape, ordering, object identity, schema and actual backing
/// capacity before retaining payloads. The producer must establish allocation admission first.
pub enum TaskResponseV1 {
    /// An admitted listing page; `None` is definitive end-of-listing.
    Listing {
        /// Owned descriptors, including their container capacity.
        files: Vec<FileDescriptor>,
        /// The bounded continuation for the next page.
        continuation: Option<String>,
    },
    /// Exact owned read bytes. Visible length alone is not a backing-allocation charge.
    Bytes {
        /// Actual first byte offset.
        offset: u64,
        /// Response storage whose allocation was admitted by the driver.
        bytes: Vec<u8>,
        /// Whether the end of this range is the identity-checked object end.
        eof: bool,
    },
    /// Identity-checked object size.
    Head {
        /// Byte length of the admitted object.
        size: u64,
    },
    /// Metadata produced by the injected limited Parquet reader.
    Footer {
        /// The converted schema, requiring owner-local admission before task retention.
        footer: ParquetFooter,
    },
    /// One internal page or definitive end of the referenced evaluation.
    Evaluation {
        /// Exact identity from the request.
        evaluation: EvaluationKey,
        /// An admitted page; `None` establishes the end without retaining a source.
        page: Option<EvaluationPage>,
    },
}

/// Reason for caller-driven cancellation.
#[derive(Debug, Clone, Copy, PartialEq, Eq, Structural)]
pub enum CancelReason {
    /// The caller no longer needs the operation.
    Caller,
}

/// Cancellation result after the task has released its semantic state.
#[derive(Debug, Clone, Copy, PartialEq, Eq, Structural)]
pub enum CancelDisposition {
    /// The driver must release this pending effect and any response awaiting resumption.
    Cancelled(Option<RequestKey>),
    /// Cancellation has already released task-owned state.
    AlreadyCancelled,
    /// Completion or failure is immutable; cancellation did not change it.
    AlreadyTerminal,
}

/// The next owned outcome of a cooperative operation.
pub enum TaskStep<T> {
    /// The driver must perform this effect and resume with its exact key.
    Execute(TaskRequest),
    /// A CPU allowance was consumed; call `progress` in another turn.
    Yield,
    /// Transfers the completed output once.
    Complete(T),
    /// Transfers an operational failure and its original source once.
    Failed(OperationFailure),
    /// The task was cancelled before completion.
    Cancelled,
}

/// An owned, cooperative operation driven through explicit effects and CPU turns.
///
/// Implementations retain bounded semantic data and numeric identities only. Drivers own
/// handlers, iterators, evaluation execution and cancellation mechanisms. Payload construction
/// requires producer admission; protocol validation cannot establish it afterward.
pub trait OperationTask {
    /// The output transferred exactly once on successful completion.
    type Output;

    /// Lends the ledger to a host while a request is pending. Tasks without host work lend none.
    fn pending_work(&mut self) -> Result<PendingWork<'_>, TaskProtocolError> {
        Err(TaskProtocolError::HostWorkUnavailable)
    }

    /// Starts one CPU turn. Repeated starts are refused; a cancelled task stays cancelled.
    fn start(&mut self, cpu: CpuSlice) -> Result<TaskStep<Self::Output>, TaskProtocolError>;

    /// Advances one CPU turn, rejecting unstarted, pending or terminal tasks without mutation.
    fn progress(&mut self, cpu: CpuSlice) -> Result<TaskStep<Self::Output>, TaskProtocolError>;

    /// Resumes one matching effect. Wrong keys or variants preserve pending state; matching
    /// malformed responses and operational failures terminate the task and release its state.
    fn resume(
        &mut self,
        key: RequestKey,
        response: Result<TaskResponseV1, OperationFailure>,
        cpu: CpuSlice,
    ) -> Result<TaskStep<Self::Output>, TaskProtocolError>;

    /// Immediately releases task-owned state and returns the outstanding key for driver cleanup.
    fn cancel(&mut self, reason: CancelReason) -> CancelDisposition;
}

/// The response that a request expects.
#[derive(Debug, Clone, Copy, PartialEq, Eq, Structural)]
pub enum ResponseKind {
    /// A listing page.
    List,
    /// An exact range.
    Read,
    /// An object size.
    Head,
    /// A decoded footer.
    Footer,
    /// A page of this evaluation.
    Evaluation(EvaluationKey),
}

impl TaskRequestV1 {
    /// The response that the request expects.
    pub open spec fn expects(self) -> ResponseKind {
        match self {
            TaskRequestV1::List { .. } => ResponseKind::List,
            TaskRequestV1::Read { .. } => ResponseKind::Read,
            TaskRequestV1::Head { .. } => ResponseKind::Head,
            TaskRequestV1::Footer { .. } => ResponseKind::Footer,
            TaskRequestV1::EvaluationStart { evaluation, .. } => ResponseKind::Evaluation(evaluation),
            TaskRequestV1::Evaluation { evaluation, .. } => ResponseKind::Evaluation(evaluation),
        }
    }

    /// Returns the response that the request expects.
    pub fn response_kind(&self) -> (kind: ResponseKind)
        ensures
            kind == self.expects(),
    {
        match self {
            TaskRequestV1::List { .. } => ResponseKind::List,
            TaskRequestV1::Read { .. } => ResponseKind::Read,
            TaskRequestV1::Head { .. } => ResponseKind::Head,
            TaskRequestV1::Footer { .. } => ResponseKind::Footer,
            TaskRequestV1::EvaluationStart { evaluation, .. } => ResponseKind::Evaluation(*evaluation),
            TaskRequestV1::Evaluation { evaluation, .. } => ResponseKind::Evaluation(*evaluation),
        }
    }

    /// The bytes behind the request's texts, where the first has `first` and the second has
    /// `second` bytes of capacity, and behind its plan.
    pub open spec fn owned_backing(self, first: usize, second: usize) -> nat {
        match self {
            TaskRequestV1::List { continuation, .. } => if continuation is Some {
                (first + second) as nat
            } else {
                first as nat
            },
            TaskRequestV1::Read { .. } => first as nat,
            TaskRequestV1::Head { .. } => first as nat,
            TaskRequestV1::Footer { .. } => first as nat,
            TaskRequestV1::EvaluationStart { plan, .. } => plan.backing() as nat,
            TaskRequestV1::Evaluation { .. } => 0,
        }
    }

    /// The bytes of the whole request, where they can be represented.
    pub open spec fn owned_total(self, first: usize, second: usize) -> Option<usize> {
        let total = vstd::layout::size_of::<TaskRequest>() + self.owned_backing(first, second);
        if total <= usize::MAX {
            Some(total as usize)
        } else {
            None
        }
    }

    /// The bytes of the request's first text.
    pub open spec fn first_text(self) -> nat {
        match self {
            TaskRequestV1::List { root, .. } => utf8(root@).len(),
            TaskRequestV1::Read { path, .. } => utf8(path@).len(),
            TaskRequestV1::Head { path } => utf8(path@).len(),
            TaskRequestV1::Footer { path, .. } => utf8(path@).len(),
            _ => 0,
        }
    }

    /// The bytes of the request's second text.
    pub open spec fn second_text(self) -> nat {
        match self {
            TaskRequestV1::List { continuation: Some(text), .. } => utf8(text@).len(),
            _ => 0,
        }
    }

    /// Adds up the bytes of the request from the capacities of its texts.
    pub fn owned_bytes_with(&self, first: usize, second: usize) -> (r: Option<usize>)
        ensures
            r == self.owned_total(first, second),
    {
        let backing = match self {
            TaskRequestV1::List { continuation, .. } => {
                if continuation.is_some() {
                    CheckedUsize::new(first).add_value(second)
                } else {
                    CheckedUsize::new(first)
                }
            },
            TaskRequestV1::Read { .. } => CheckedUsize::new(first),
            TaskRequestV1::Head { .. } => CheckedUsize::new(first),
            TaskRequestV1::Footer { .. } => CheckedUsize::new(first),
            TaskRequestV1::EvaluationStart { plan, .. } => CheckedUsize::new(plan.retained_bytes()),
            TaskRequestV1::Evaluation { .. } => CheckedUsize::new(0),
        };
        backing.add_value(core::mem::size_of::<TaskRequest>()).to_option()
    }

    /// Measures the bytes of the whole request, or finds that they cannot be represented.
    pub fn owned_bytes(&self) -> (r: Option<usize>)
        ensures
            exists|first: usize, second: usize|
                first >= self.first_text() && second >= self.second_text() && r
                    == #[trigger] self.owned_total(first, second),
    {
        let mut first: usize = 0;
        let mut second: usize = 0;
        match self {
            TaskRequestV1::List { root, continuation, .. } => {
                first = text_capacity(root);
                second = optional_text_capacity(continuation);
            },
            TaskRequestV1::Read { path, .. } => {
                first = text_capacity(path);
            },
            TaskRequestV1::Head { path } => {
                first = text_capacity(path);
            },
            TaskRequestV1::Footer { path, .. } => {
                first = text_capacity(path);
            },
            _ => {},
        }
        self.owned_bytes_with(first, second)
    }

    /// Names the request without visiting its payload.
    pub fn label(&self) -> (s: &'static str)
        ensures
            s@ == (match *self {
                TaskRequestV1::List { .. } => "List(..)"@,
                TaskRequestV1::Read { .. } => "Read(..)"@,
                TaskRequestV1::Head { .. } => "Head(..)"@,
                TaskRequestV1::Footer { .. } => "Footer(..)"@,
                TaskRequestV1::EvaluationStart { .. } => "EvaluationStart(..)"@,
                TaskRequestV1::Evaluation { .. } => "Evaluation(..)"@,
            }),
    {
        match self {
            TaskRequestV1::List { .. } => "List(..)",
            TaskRequestV1::Read { .. } => "Read(..)",
            TaskRequestV1::Head { .. } => "Head(..)",
            TaskRequestV1::Footer { .. } => "Footer(..)",
            TaskRequestV1::EvaluationStart { .. } => "EvaluationStart(..)",
            TaskRequestV1::Evaluation { .. } => "Evaluation(..)",
        }
    }
}

impl TaskResponseV1 {
    /// Names the response without visiting its payload.
    pub fn label(&self) -> (s: &'static str)
        ensures
            s@ == (match *self {
                TaskResponseV1::Listing { .. } => "Listing(..)"@,
                TaskResponseV1::Bytes { .. } => "Bytes(..)"@,
                TaskResponseV1::Head { .. } => "Head(..)"@,
                TaskResponseV1::Footer { .. } => "Footer(..)"@,
                TaskResponseV1::Evaluation { .. } => "Evaluation(..)"@,
            }),
    {
        match self {
            TaskResponseV1::Listing { .. } => "Listing(..)",
            TaskResponseV1::Bytes { .. } => "Bytes(..)",
            TaskResponseV1::Head { .. } => "Head(..)",
            TaskResponseV1::Footer { .. } => "Footer(..)",
            TaskResponseV1::Evaluation { .. } => "Evaluation(..)",
        }
    }
}

impl<T> TaskStep<T> {
    /// Names the step without visiting its payload.
    pub fn label(&self) -> (s: &'static str)
        ensures
            s@ == (match *self {
                TaskStep::Execute(_) => "Execute(..)"@,
                TaskStep::Yield => "Yield"@,
                TaskStep::Complete(_) => "Complete(..)"@,
                TaskStep::Failed(_) => "Failed(..)"@,
                TaskStep::Cancelled => "Cancelled"@,
            }),
    {
        match self {
            TaskStep::Execute(_) => "Execute(..)",
            TaskStep::Yield => "Yield",
            TaskStep::Complete(_) => "Complete(..)",
            TaskStep::Failed(_) => "Failed(..)",
            TaskStep::Cancelled => "Cancelled",
        }
    }
}

impl ResponseKind {
    /// The response is of this kind.
    pub open spec fn accepts(self, response: TaskResponseV1) -> bool {
        match self {
            ResponseKind::List => response is Listing,
            ResponseKind::Read => response is Bytes,
            ResponseKind::Head => response is Head,
            ResponseKind::Footer => response is Footer,
            ResponseKind::Evaluation(_) => response is Evaluation,
        }
    }

    /// A page belongs to the evaluation that was asked for.
    pub open spec fn identifies(self, response: TaskResponseV1) -> bool {
        match (self, response) {
            (
                ResponseKind::Evaluation(expected),
                TaskResponseV1::Evaluation { evaluation, .. },
            ) => expected == evaluation,
            _ => true,
        }
    }

    /// Checks the variant of a response.
    pub fn matches(self, response: &TaskResponseV1) -> (r: bool)
        ensures
            r == self.accepts(*response),
    {
        match (self, response) {
            (ResponseKind::List, TaskResponseV1::Listing { .. }) => true,
            (ResponseKind::Read, TaskResponseV1::Bytes { .. }) => true,
            (ResponseKind::Head, TaskResponseV1::Head { .. }) => true,
            (ResponseKind::Footer, TaskResponseV1::Footer { .. }) => true,
            (ResponseKind::Evaluation(_), TaskResponseV1::Evaluation { .. }) => true,
            _ => false,
        }
    }

    /// Checks the evaluation identity of a response.
    pub fn valid_identity(self, response: &TaskResponseV1) -> (r: bool)
        ensures
            r == self.identifies(*response),
    {
        match (self, response) {
            (
                ResponseKind::Evaluation(expected),
                TaskResponseV1::Evaluation { evaluation, .. },
            ) => expected == *evaluation,
            _ => true,
        }
    }
}

/// No response is accepted by two kinds of request, evaluations of different identity apart.
pub proof fn kinds_accept_disjoint_responses(a: ResponseKind, b: ResponseKind, response: TaskResponseV1)
    requires
        a.accepts(response),
        b.accepts(response),
        a.identifies(response),
        b.identifies(response),
    ensures
        a == b,
{
}

/// A request is answered by a response of its own kind: a listing by a page, a read by bytes, a HEAD
/// by a size, a footer by a footer, and both requests of an evaluation by a page of that very
/// evaluation.
pub proof fn requests_expect_their_own_answers(request: TaskRequestV1, response: TaskResponseV1)
    ensures
        (request.expects().accepts(response) && request.expects().identifies(response)) <==> match (
            request,
            response,
        ) {
            (TaskRequestV1::List { .. }, TaskResponseV1::Listing { .. }) => true,
            (TaskRequestV1::Read { .. }, TaskResponseV1::Bytes { .. }) => true,
            (TaskRequestV1::Head { .. }, TaskResponseV1::Head { .. }) => true,
            (TaskRequestV1::Footer { .. }, TaskResponseV1::Footer { .. }) => true,
            (
                TaskRequestV1::EvaluationStart { evaluation: asked, .. },
                TaskResponseV1::Evaluation { evaluation, .. },
            ) => asked == evaluation,
            (
                TaskRequestV1::Evaluation { evaluation: asked, .. },
                TaskResponseV1::Evaluation { evaluation, .. },
            ) => asked == evaluation,
            _ => false,
        },
{
}

/// A request owns its own bytes and those behind its texts or its plan, and never less than its texts
/// hold.
pub proof fn requests_own_what_they_carry(request: TaskRequestV1, first: usize, second: usize)
    requires
        first >= request.first_text(),
        second >= request.second_text(),
    ensures
        request.owned_total(first, second) matches Some(bytes) ==> {
            &&& bytes >= vstd::layout::size_of::<TaskRequest>()
            &&& match request {
                TaskRequestV1::List { root, continuation, .. } => bytes
                    == vstd::layout::size_of::<TaskRequest>() + first + (if continuation is Some {
                    second as int
                } else {
                    0
                }) && bytes >= utf8(root@).len() + (match continuation {
                    Some(text) => utf8(text@).len(),
                    None => 0,
                }),
                TaskRequestV1::Read { path, .. } => bytes == vstd::layout::size_of::<TaskRequest>()
                    + first && bytes >= utf8(path@).len(),
                TaskRequestV1::Head { path } => bytes == vstd::layout::size_of::<TaskRequest>()
                    + first && bytes >= utf8(path@).len(),
                TaskRequestV1::Footer { path, .. } => bytes == vstd::layout::size_of::<
                    TaskRequest,
                >() + first && bytes >= utf8(path@).len(),
                TaskRequestV1::EvaluationStart { plan, .. } => bytes == vstd::layout::size_of::<
                    TaskRequest,
                >() + plan.backing(),
                TaskRequestV1::Evaluation { .. } => bytes == vstd::layout::size_of::<TaskRequest>(),
            }
        },
        request.owned_total(first, second) is None ==> vstd::layout::size_of::<TaskRequest>() + first
            + second > usize::MAX || request is EvaluationStart,
{
}

/// An identity is issued from every counter but a spent one: zero is none, and the last number is
/// never issued.
pub proof fn identities_are_issued_until_the_last(counter: u64)
    ensures
        next_identity(counter) is None <==> counter == 0 || counter == u64::MAX,
        next_identity(counter) matches Some(id) ==> id == counter && id != 0,
{
}

/// A slice of CPU work is accepted exactly where it makes progress in each domain and asks for no more
/// than the qualification profile grants.
pub proof fn slices_qualify_within_the_profile(records: usize, bytes: usize, plan_nodes: usize)
    ensures
        CpuSlice::qualifies(records, bytes, plan_nodes) <==> {
            &&& 1 <= records <= 1024
            &&& 1 <= bytes <= 1048576
            &&& 1 <= plan_nodes <= 256
        },
{
}

} // verus!
