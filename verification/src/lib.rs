//! Bounded, owned data exchanged by cooperative table operations.
//!
//! Engines admit allocations before constructing responses. Validation here checks the transfer
//! into an operation; it cannot undo an allocation already performed by an engine. Accounted bytes
//! are conservative backing-allocation charges, not total process memory.

pub mod accounting;
pub mod backing;
pub mod bytes;
pub mod checks;
pub mod driver;
pub mod engine;
pub mod evaluation;
pub mod failure;
pub mod headroom;
pub mod inspection;
pub mod json_discovery;
pub mod json_materialization;
pub mod json_plans;
pub mod json_producer_shape;
pub mod json_replay;
pub mod json_scan;
pub mod json_scan_allocation;
pub mod json_schema_shape;
pub mod json_snapshot;
pub mod json_url_allocation;
pub mod json_visitor_allocation;
pub mod ledger;
pub mod literal_acceptance;
pub mod literal_costs;
pub mod literals;
pub mod local_index;
pub mod local_objects;
pub mod local_paths;
pub mod locations;
pub mod log_manifest;
pub mod machine;
pub mod plan;
pub mod plan_acceptance;
pub mod plan_admission;
pub mod plan_costs;
pub mod plan_shape;
pub mod protocol;
pub mod refusals;
pub mod rows;
pub mod scan_preflight;
pub mod scan_task;
pub mod schema;
pub mod sizing;
pub mod snapshot_task;
pub mod storage;
pub mod table;
pub mod table_features;
pub mod table_support;
pub mod text;

pub use accounting::{
    FooterLimits, PendingWork, Resource, ResourceUsage, TaskAccounting, TaskLimits, TaskUsage,
};
pub use driver::{AsyncOperationDriver, EvaluationDriver, OperationDriver};
pub use evaluation::{
    AccountedEngineData, AdmittedEvaluationSource, EvaluationLimits, EvaluationPage,
    EvaluationPageLimits, EvaluationReader, EvaluationUsage,
};
pub use failure::{FailureKind, OperationFailure, ResourceExhausted, TaskProtocolError};
pub use inspection::PlanShapeError;
pub use log_manifest::LogIdentityManifest;
pub use machine::{TaskAction, TaskMachine, TaskState, TaskStatus};
pub use plan_admission::{AdmittedPlan, PlanAdmissionError, PlanMetadataEntry};
pub use plan_shape::PlanShape;
pub use protocol::{
    CancelDisposition, CancelReason, CpuSlice, EvaluationKey, FileDescriptor, ObjectIdentity,
    OperationTask, RequestKey, TaskId, TaskRequest, TaskRequestV1, TaskResponseV1, TaskStep,
};
pub use scan_task::ScanMetadataTask;
pub use snapshot_task::SnapshotLoadTask;
pub use storage::{
    AdmittedFooter, AdmittedHead, AdmittedIoEffect, AdmittedIoSource, AdmittedListingPage,
    AdmittedRead, IoUsage,
};
