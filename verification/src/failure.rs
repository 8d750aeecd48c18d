//! Failures and errors exchanged by cooperative operations.
//!
//! An operational failure owns its original error at most once. The category that terminal
//! state keeps afterwards holds no source, so that it can be copied and retained.

use crate::accounting::Resource;
use crate::plan_admission::PlanAdmissionError;
use crate::text::decimal;
use vstd::prelude::*;

verus! {

/// A configured limit was exceeded, or its checked accounting overflowed.
///
/// On overflow, `observed` is `usize::MAX`, even when the limit is also `usize::MAX`.
#[derive(Debug, Clone, Copy, PartialEq, Eq, Structural)]
pub struct ResourceExhausted {
    /// The exhausted accounting domain.
    pub resource: Resource,
    /// The configured limit.
    pub limit: usize,
    /// The attempted charge, saturated only when arithmetic overflowed.
    pub observed: usize,
}

impl ResourceExhausted {
    /// The text of [`ResourceExhausted::message`].
    pub open spec fn text(self) -> Seq<char> {
        self.resource.text() + " exhausted: limit "@ + crate::text::decimal_text(self.limit as nat)
            + ", observed "@ + crate::text::decimal_text(self.observed as nat)
    }

    /// Names the domain, its limit and the attempted charge.
    pub fn message(&self) -> (s: String)
        ensures
            s@ == self.text(),
    {
        let mut s = self.resource.name().to_owned();
        s.append(" exhausted: limit ");
        s.append(decimal(self.limit).as_str());
        s.append(", observed ");
        s.append(decimal(self.observed).as_str());
        s
    }
}

/// Source-free terminal failure information, safe to retain after transferring an error.
#[derive(Debug, Clone, Copy, PartialEq, Eq, Structural)]
pub enum FailureKind {
    /// A finite resource budget was exhausted.
    ResourceExhausted(ResourceExhausted),
    /// The engine failed for a reason represented by the original error.
    Engine,
    /// Execution was cancelled.
    Cancelled,
    /// A matching response has invalid contents or an inconsistent evaluation identity.
    MalformedResponse,
    /// A checked request identity cannot advance without wrapping.
    IdentityExhausted,
}

impl FailureKind {
    /// The text of [`FailureKind::message`].
    pub open spec fn text(self) -> Seq<char> {
        match self {
            FailureKind::ResourceExhausted(error) => error.text(),
            FailureKind::Engine => "engine operation failed"@,
            FailureKind::Cancelled => "operation cancelled"@,
            FailureKind::MalformedResponse => "malformed task response"@,
            FailureKind::IdentityExhausted => "task identity exhausted"@,
        }
    }

    /// Describes the category without any source.
    pub fn message(&self) -> (s: String)
        ensures
            s@ == self.text(),
    {
        match self {
            FailureKind::ResourceExhausted(error) => error.message(),
            FailureKind::Engine => "engine operation failed".to_owned(),
            FailureKind::Cancelled => "operation cancelled".to_owned(),
            FailureKind::MalformedResponse => "malformed task response".to_owned(),
            FailureKind::IdentityExhausted => "task identity exhausted".to_owned(),
        }
    }
}

/// An error object of an engine, carried through without being inspected.
pub trait EngineError {
    /// Describes the engine's error.
    fn message(&self) -> String;
}

/// What a generic error carries.
pub enum ErrorSource {
    /// A failure detected locally, without an engine error.
    Failure(FailureKind),
    /// A refused plan.
    Plan(PlanAdmissionError),
    /// A misused or misconfigured protocol.
    Protocol(TaskProtocolError),
    /// A container that could not be reserved, with the allocator's reason.
    Allocation(String),
    /// The engine's own error object.
    Engine(Box<dyn EngineError>),
}

/// Errors of the table library that operations transfer to their callers.
#[allow(inconsistent_fields)]
pub enum Error {
    /// Execution was cancelled.
    Cancelled,
    /// An error captured together with the place where it was raised.
    Backtraced {
        /// The captured error.
        source: Box<Error>,
    },
    /// An error that consists of its description.
    Generic(String),
    /// An error that owns what caused it.
    GenericError {
        /// The cause.
        source: ErrorSource,
    },
    /// A table or a request outside the supported subset.
    Unsupported(String),
    /// A write refused because its target exists.
    FileAlreadyExists(String),
    /// The log holds no metadata action.
    MissingMetadata,
    /// The log holds no protocol action.
    MissingProtocol,
    /// The log holds neither a metadata nor a protocol action.
    MissingMetadataAndProtocol,
    /// A table without a version was requested at one.
    MissingVersion,
    /// A schema that the table library refuses.
    Schema(String),
    /// Text that is not the JSON it should be.
    MalformedJson(String),
}

impl Error {
    /// Makes an error of a description.
    pub fn generic(message: &str) -> (e: Error)
        ensures
            e matches Error::Generic(m) && m@ == message@,
    {
        Error::Generic(message.to_owned())
    }

    /// Makes an error that owns its cause.
    pub fn generic_err(source: ErrorSource) -> (e: Error)
        ensures
            e == (Error::GenericError { source }),
    {
        Error::GenericError { source }
    }

    /// Makes an error for an input outside the supported subset.
    pub fn unsupported(message: &str) -> (e: Error)
        ensures
            e matches Error::Unsupported(m) && m@ == message@,
    {
        Error::Unsupported(message.to_owned())
    }

    /// Whether this is a cancellation, seen through any number of captures.
    pub open spec fn cancels(self) -> bool
        decreases self,
    {
        match self {
            Error::Cancelled => true,
            Error::Backtraced { source } => source.cancels(),
            _ => false,
        }
    }

    /// Looks through captures for a cancellation.
    pub fn is_cancellation(&self) -> (b: bool)
        ensures
            b == self.cancels(),
        decreases self,
    {
        match self {
            Error::Cancelled => true,
            Error::Backtraced { source } => source.is_cancellation(),
            _ => false,
        }
    }
}

/// An operational failure owning its original, non-cloneable error at most once.
pub struct OperationFailure {
    kind: FailureKind,
    source: Option<Box<Error>>,
}

impl OperationFailure {
    /// The category that terminal state keeps.
    pub closed spec fn category(self) -> FailureKind {
        self.kind
    }

    /// The original error, where there is one.
    pub closed spec fn origin(self) -> Option<Error> {
        match self.source {
            Some(source) => Some(*source),
            None => None,
        }
    }

    /// A failure of the given category without an original error.
    pub open spec fn is_terminal(self, kind: FailureKind) -> bool {
        self.category() == kind && self.origin() is None
    }

    /// Reports invalid contents of a matching response without retaining the payload.
    pub fn malformed_response() -> (f: OperationFailure)
        ensures
            f.is_terminal(FailureKind::MalformedResponse),
    {
        OperationFailure::terminal(FailureKind::MalformedResponse)
    }

    /// Takes ownership of an engine error with its typed category.
    ///
    /// A cancellation, captured or not, keeps the cancellation category whatever `kind` says.
    pub fn new(kind: FailureKind, source: Error) -> (f: OperationFailure)
        ensures
            f.category() == (if source.cancels() { FailureKind::Cancelled } else { kind }),
            f.origin() == Some(source),
    {
        let kind = if source.is_cancellation() { FailureKind::Cancelled } else { kind };
        OperationFailure { kind, source: Some(Box::new(source)) }
    }

    /// Returns the source-free category retained by terminal state.
    pub fn kind(&self) -> (k: FailureKind)
        ensures
            k == self.category(),
    {
        self.kind
    }

    /// Whether the original error is still owned here.
    pub fn has_source(&self) -> (b: bool)
        ensures
            b == (self.origin() is Some),
    {
        self.source.is_some()
    }

    /// Describes the category.
    pub fn message(&self) -> (s: String)
        ensures
            s@ == self.category().text(),
    {
        self.kind.message()
    }

    /// The error that a failure turns into.
    pub open spec fn error(self) -> Error {
        if self.category() == FailureKind::Cancelled {
            Error::Cancelled
        } else {
            match self.origin() {
                Some(source) => source,
                None => Error::GenericError { source: ErrorSource::Failure(self.category()) },
            }
        }
    }

    /// Transfers the original error, with every cancellation reduced to [`Error::Cancelled`].
    ///
    /// Failures detected locally own no original error; they turn into a generic error of their
    /// category. Cancellation releases any original diagnostic context.
    pub fn into_error(self) -> (e: Error)
        ensures
            e == self.error(),
    {
        if self.kind == FailureKind::Cancelled {
            return Error::Cancelled;
        }
        match self.source {
            Some(source) => *source,
            None => Error::generic_err(ErrorSource::Failure(self.kind)),
        }
    }

    /// Makes a failure that owns no original error.
    pub fn terminal(kind: FailureKind) -> (f: OperationFailure)
        ensures
            f.is_terminal(kind),
    {
        OperationFailure { kind, source: None }
    }

    /// Makes the failure of an exhausted resource.
    pub fn exhausted(error: ResourceExhausted) -> (f: OperationFailure)
        ensures
            f.is_terminal(FailureKind::ResourceExhausted(error)),
    {
        OperationFailure::terminal(FailureKind::ResourceExhausted(error))
    }

    /// Makes the failure of an engine error.
    pub fn engine(error: Error) -> (f: OperationFailure)
        ensures
            f.category() == (if error.cancels() { FailureKind::Cancelled } else { FailureKind::Engine }),
            f.origin() == Some(error),
    {
        OperationFailure::new(FailureKind::Engine, error)
    }
}

/// A failure without an original error is determined by its category.
pub proof fn terminal_failures_are_determined(a: OperationFailure, b: OperationFailure, kind: FailureKind)
    requires
        a.is_terminal(kind),
        b.is_terminal(kind),
    ensures
        a == b,
{
}

/// Taking a failure apart gives back the error it was made of, unless that was a cancellation,
/// which comes back bare.
pub proof fn a_failure_gives_its_error_back(failure: OperationFailure, kind: FailureKind, source: Error)
    requires
        failure.category() == (if source.cancels() { FailureKind::Cancelled } else { kind }),
        failure.origin() == Some(source),
        kind != FailureKind::Cancelled,
    ensures
        source.cancels() ==> failure.error() == Error::Cancelled,
        !source.cancels() ==> failure.error() == source,
{
}

impl From<ResourceExhausted> for OperationFailure {
    fn from(error: ResourceExhausted) -> (f: OperationFailure) {
        OperationFailure::exhausted(error)
    }
}

impl vstd::std_specs::convert::FromSpecImpl<ResourceExhausted> for OperationFailure {
    open spec fn obeys_from_spec() -> bool {
        true
    }

    closed spec fn from_spec(error: ResourceExhausted) -> OperationFailure {
        OperationFailure { kind: FailureKind::ResourceExhausted(error), source: None }
    }
}

/// Caller misuse or invalid configuration, distinct from an operational failure.
#[derive(Debug, Clone, Copy, PartialEq, Eq, Structural)]
pub enum TaskProtocolError {
    /// Limits cannot represent a progressing, bounded page.
    InvalidLimits,
    /// The task has not been started.
    NotStarted,
    /// The task has already been started.
    AlreadyStarted,
    /// A request must be resumed or cancelled before more CPU work.
    PendingRequest,
    /// No outstanding request has the supplied key.
    WrongKey,
    /// The response variant does not match the outstanding request.
    WrongKind,
    /// A completed, failed or cancelled task cannot be resumed.
    Terminal,
    /// An identity contains a reserved zero value.
    InvalidIdentity,
    /// The process-local driver identity allocator has exhausted its range.
    IdentityExhausted,
    /// The task lends no ledger to a host.
    HostWorkUnavailable,
}

impl TaskProtocolError {
    /// The text of [`TaskProtocolError::message`].
    pub open spec fn text(self) -> Seq<char> {
        match self {
            TaskProtocolError::InvalidLimits => "invalid task limits"@,
            TaskProtocolError::NotStarted => "task not started"@,
            TaskProtocolError::AlreadyStarted => "task already started"@,
            TaskProtocolError::PendingRequest => "task has an outstanding request"@,
            TaskProtocolError::WrongKey => "wrong task request key"@,
            TaskProtocolError::WrongKind => "wrong task response kind"@,
            TaskProtocolError::Terminal => "task is terminal"@,
            TaskProtocolError::InvalidIdentity => "task identities must be nonzero"@,
            TaskProtocolError::IdentityExhausted => "driver identity exhausted"@,
            TaskProtocolError::HostWorkUnavailable => "task lends no host work"@,
        }
    }

    /// Describes the misuse.
    pub fn message(&self) -> (s: String)
        ensures
            s@ == self.text(),
    {
        let text = match self {
            TaskProtocolError::InvalidLimits => "invalid task limits",
            TaskProtocolError::NotStarted => "task not started",
            TaskProtocolError::AlreadyStarted => "task already started",
            TaskProtocolError::PendingRequest => "task has an outstanding request",
            TaskProtocolError::WrongKey => "wrong task request key",
            TaskProtocolError::WrongKind => "wrong task response kind",
            TaskProtocolError::Terminal => "task is terminal",
            TaskProtocolError::InvalidIdentity => "task identities must be nonzero",
            TaskProtocolError::IdentityExhausted => "driver identity exhausted",
            TaskProtocolError::HostWorkUnavailable => "task lends no host work",
        };
        text.to_owned()
    }
}

} // verus!
