//! Closed producers of plans over a JSON history.
//!
//! Both producers use fixed system schemas and fixed expression trees. The envelope covers builder
//! scratch, containers, fixed schema clones and expressions. What depends on the files covers the
//! parsed paths, the scanned files and all copies of their locations. Admission precedes the first
//! call of a builder.

use crate::accounting::{Resource, TaskLimits};
use crate::bytes::{byte_len, utf8};
use crate::failure::Error;
use crate::inspection::FIELD_BOUND;
use crate::json_producer_shape::{
    fixed_owner_peak, fixed_owners, producer_steps, work_units, DATA_TYPES, EXPRESSIONS,
    FIXED_ENCODING, NAME_BYTES, NODES, PATH_COMPONENTS, SCHEMA_FIELDS,
};
use crate::json_scan_allocation::{builder_owners, scan_builder_peak};
use crate::log_manifest::{LogIdentityManifest, ManifestView};
use crate::plan::{Plan, Scalar, ScanFile};
use crate::plan_admission::{
    bounded, check_total, checked_add, shape_refusal, uncounted, uncounted_total, AdmittedPlan,
    AdmittedView, PlanAdmissionError,
};
use crate::plan_shape::{produced, PlanShape};
use crate::protocol::FileDescriptor;
use crate::schema::{ColumnName, DataType, StructField, StructType};
use crate::sizing::{fitted, plus, vector_bytes, vector_of};
use crate::table::{KernelLayout, LogSegment, ParsedLogPath, Snapshot, TableKernel};
use std::sync::Arc;
use vstd::arithmetic::overflow::CheckedUsize;
use vstd::layout::size_of;
use vstd::prelude::*;

verus! {

/// The schema nodes of five serialized system roots, their fields and nested types.
pub const SYSTEM_SCHEMA_NODES: usize = SCHEMA_FIELDS + DATA_TYPES + 5;

/// The depth of a system schema.
pub const SYSTEM_SCHEMA_DEPTH: usize = 4;

/// The fixed work of a host's inspection: every node, field, type, expression and path component,
/// the bytes of their names, and one linear lookup for each path component.
#[verifier::nonlinear]
pub const INSPECTION_WORK: usize = NODES + SCHEMA_FIELDS + DATA_TYPES + EXPRESSIONS
    + PATH_COMPONENTS + (SCHEMA_FIELDS + PATH_COMPONENTS) * NAME_BYTES + PATH_COMPONENTS * 11;

/// What a producer may use, admitted before it builds anything.
#[derive(Debug, Clone, Copy, PartialEq, Eq, Structural)]
pub struct JsonPlanBudget {
    /// What the plan and its construction own.
    pub backing: usize,
    /// The part of it that does not depend on the files.
    pub fixed_backing: usize,
    /// The bytes of the encoded plan.
    pub encoded: usize,
    /// The work of the construction.
    pub work: usize,
}

/// What the producer's work gives, for `files` files under a root of `root` bytes.
pub open spec fn work_admitted(files: nat, root: nat, limits: TaskLimits) -> Result<
    usize,
    PlanAdmissionError,
> {
    if root + 25 > usize::MAX {
        Err(uncounted(limits, Resource::WorkUnits))
    } else {
        bounded(
            limits,
            Resource::WorkUnits,
            producer_steps(files, (root + 25) * files + root) as int,
        )
    }
}

/// The owners of the first `n` files of a plan: three copies of the location, the name with its
/// extension, and both lists of one constant.
pub open spec fn file_owners(files: Seq<FileDescriptor>, n: nat) -> nat
    decreases n,
{
    if n == 0 {
        0
    } else {
        file_owners(files, (n - 1) as nat) + 3 * utf8(files[n - 1].path@).len() + 29 + 2
            * vector_bytes(size_of::<Scalar>(), 1)
    }
}

/// The owners of a plan that depend on its files.
pub open spec fn plan_file_owners(files: Seq<FileDescriptor>) -> nat {
    vector_bytes(size_of::<ParsedLogPath>(), files.len()) + 3 * vector_bytes(
        size_of::<ScanFile>(),
        files.len(),
    ) + file_owners(files, files.len())
}

/// What owning a producer's plan gives: the fixed owners, and all owners.
pub open spec fn backing_admitted(manifest: ManifestView, layout: KernelLayout, limits: TaskLimits) -> Result<
    (usize, usize),
    PlanAdmissionError,
> {
    let overflow = uncounted(limits, Resource::TaskStateBytes);
    match fitted(plan_file_owners(manifest.files) as int) {
        None => Err(overflow),
        Some(files) => match fitted(fixed_owners(layout) as int) {
            None => Err(overflow),
            Some(fixed) => match bounded(limits, Resource::TaskStateBytes, fixed + files) {
                Err(error) => Err(error),
                Ok(backing) => match bounded(
                    limits,
                    Resource::TaskStateBytes,
                    backing + manifest.retained_bytes,
                ) {
                    Err(error) => Err(error),
                    Ok(backing) => Ok((fixed, backing)),
                },
            },
        },
    }
}

/// What encoding a producer's plan gives: seven fields for each file, and its path.
pub open spec fn encoding_admitted(manifest: ManifestView, limits: TaskLimits) -> Result<
    usize,
    PlanAdmissionError,
> {
    match bounded(
        limits,
        Resource::PlanEncodedBytes,
        (manifest.files.len() * (7 * FIELD_BOUND as nat)) as int,
    ) {
        Err(error) => Err(error),
        Ok(files) => match manifest.path_total() {
            None => Err(uncounted(limits, Resource::PlanEncodedBytes)),
            Some(paths) => match bounded(
                limits,
                Resource::PlanEncodedBytes,
                FIXED_ENCODING + files,
            ) {
                Err(error) => Err(error),
                Ok(encoded) => bounded(limits, Resource::PlanEncodedBytes, encoded + paths),
            },
        },
    }
}

/// What the fixed shape of a producer gives.
pub open spec fn shape_admitted(limits: TaskLimits) -> Result<(), PlanAdmissionError> {
    match bounded(limits, Resource::PlanNodes, NODES as int) {
        Err(error) => Err(error),
        Ok(_) => match bounded(limits, Resource::PlanDepth, NODES as int) {
            Err(error) => Err(error),
            Ok(_) => match bounded(limits, Resource::SchemaNodes, SYSTEM_SCHEMA_NODES as int) {
                Err(error) => Err(error),
                Ok(_) => match bounded(
                    limits,
                    Resource::SchemaDepth,
                    SYSTEM_SCHEMA_DEPTH as int,
                ) {
                    Err(error) => Err(error),
                    Ok(_) => Ok(()),
                },
            },
        },
    }
}

/// What budgeting a producer over a history gives.
pub open spec fn budgeted(manifest: ManifestView, layout: KernelLayout, limits: TaskLimits) -> Result<
    JsonPlanBudget,
    PlanAdmissionError,
> {
    match work_admitted(manifest.files.len(), utf8(manifest.log_root).len(), limits) {
        Err(error) => Err(error),
        Ok(work) => match shape_admitted(limits) {
            Err(error) => Err(error),
            Ok(()) => match backing_admitted(manifest, layout, limits) {
                Err(error) => Err(error),
                Ok((fixed_backing, backing)) => match encoding_admitted(manifest, limits) {
                    Err(error) => Err(error),
                    Ok(encoded) => match bounded(
                        limits,
                        Resource::MetadataAllocatedBytes,
                        fixed_backing as int,
                    ) {
                        Err(error) => Err(error),
                        Ok(_) => Ok(JsonPlanBudget { backing, fixed_backing, encoded, work }),
                    },
                },
            },
        },
    }
}

/// All fields are without parts and without metadata.
pub open spec fn plain_fields(fields: Seq<StructField>) -> bool {
    forall|i: int|
        0 <= i < fields.len() ==> (#[trigger] fields[i]).data_type is Primitive
            && fields[i].metadata@.len() == 0
}

/// What budgeting a scan gives: the scratch of its builder comes on top, and the snapshot stays
/// alive beside it.
pub open spec fn scan_budgeted(
    manifest: ManifestView,
    schema: StructType,
    columns: Option<Vec<ColumnName>>,
    snapshot_bytes: usize,
    layout: KernelLayout,
    limits: TaskLimits,
) -> Result<JsonPlanBudget, PlanAdmissionError> {
    match budgeted(manifest, layout, limits) {
        Err(error) => Err(error),
        Ok(budget) => match bounded(
            limits,
            Resource::SchemaNodes,
            schema.fields@.len() as int,
        ) {
            Err(error) => Err(error),
            Ok(_) => if !plain_fields(schema.fields@) {
                Err(PlanAdmissionError::UnsupportedMetadata)
            } else {
                match fitted(builder_owners(schema, columns, layout) as int) {
                    None => Err(uncounted(limits, Resource::TaskStateBytes)),
                    Some(scratch) => match bounded(
                        limits,
                        Resource::TaskStateBytes,
                        budget.backing + scratch,
                    ) {
                        Err(error) => Err(error),
                        Ok(backing) => match bounded(
                            limits,
                            Resource::TaskStateBytes,
                            backing + snapshot_bytes,
                        ) {
                            Err(error) => Err(error),
                            Ok(_) => Ok(JsonPlanBudget { backing, ..budget }),
                        },
                    },
                }
            },
        },
    }
}

impl JsonPlanBudget {
    /// Returns the work of the construction.
    pub fn work_units(&self) -> (work: usize)
        ensures
            work == self.work,
    {
        self.work
    }

    /// Admits the work of a producer over `files` files under a root of `root_bytes` bytes.
    pub fn producer_work(files: usize, root_bytes: usize, limits: &TaskLimits) -> (r: Result<
        usize,
        PlanAdmissionError,
    >)
        ensures
            r == work_admitted(files as nat, root_bytes as nat, *limits),
    {
        let path: usize = match root_bytes.checked_add(25) {
            Some(path) => path,
            None => return Err(uncounted_total(Resource::WorkUnits, limits)),
        };
        let paths = CheckedUsize::new(path).mul_value(files).add_value(root_bytes);
        let ghost total = paths@;
        let counted = match paths.to_option() {
            Some(paths) => work_units(files, paths),
            None => None,
        };
        match counted {
            Some(work) => check_total(&CheckedUsize::new(work), Resource::WorkUnits, limits),
            None => {
                assert(producer_steps(files as nat, total) > usize::MAX);
                Err(uncounted_total(Resource::WorkUnits, limits))
            },
        }
    }

    /// Budgets a producer over a history.
    ///
    /// All work is compared before the first descriptor or schema is looked at.
    pub fn preflight(manifest: &LogIdentityManifest, limits: &TaskLimits, layout: &KernelLayout) -> (r:
        Result<JsonPlanBudget, PlanAdmissionError>)
        ensures
            r == budgeted(manifest@, *layout, *limits),
    {
        let work: usize = JsonPlanBudget::producer_work(
            manifest.files().len(),
            byte_len(manifest.log_root()),
            limits,
        )?;
        checked_add(0, NODES, Resource::PlanNodes, limits)?;
        checked_add(0, NODES, Resource::PlanDepth, limits)?;
        checked_add(0, SYSTEM_SCHEMA_NODES, Resource::SchemaNodes, limits)?;
        checked_add(0, SYSTEM_SCHEMA_DEPTH, Resource::SchemaDepth, limits)?;
        let files: usize = match json_file_plan_owners(manifest) {
            Some(files) => files,
            None => return Err(uncounted_total(Resource::TaskStateBytes, limits)),
        };
        let fixed_backing: usize = match fixed_owner_peak(layout) {
            Some(fixed) => fixed,
            None => return Err(uncounted_total(Resource::TaskStateBytes, limits)),
        };
        let backing: usize = checked_add(fixed_backing, files, Resource::TaskStateBytes, limits)?;
        let backing: usize = checked_add(
            backing,
            manifest.retained_bytes(),
            Resource::TaskStateBytes,
            limits,
        )?;
        let encoded_files: usize = check_total(
            &CheckedUsize::new(manifest.files().len()).mul_value(7 * FIELD_BOUND),
            Resource::PlanEncodedBytes,
            limits,
        )?;
        let paths: usize = match manifest.path_bytes() {
            Some(paths) => paths,
            None => return Err(uncounted_total(Resource::PlanEncodedBytes, limits)),
        };
        let encoded: usize = checked_add(
            FIXED_ENCODING,
            encoded_files,
            Resource::PlanEncodedBytes,
            limits,
        )?;
        let encoded: usize = checked_add(encoded, paths, Resource::PlanEncodedBytes, limits)?;
        checked_add(0, fixed_backing, Resource::MetadataAllocatedBytes, limits)?;
        Ok(JsonPlanBudget { backing, fixed_backing, encoded, work })
    }

    /// Budgets a scan over a history.
    pub fn preflight_scan(
        manifest: &LogIdentityManifest,
        schema: &StructType,
        columns: &Option<Vec<ColumnName>>,
        snapshot_bytes: usize,
        limits: &TaskLimits,
        layout: &KernelLayout,
    ) -> (r: Result<JsonPlanBudget, PlanAdmissionError>)
        ensures
            r == scan_budgeted(manifest@, *schema, *columns, snapshot_bytes, *layout, *limits),
    {
        let budget = JsonPlanBudget::preflight(manifest, limits, layout)?;
        checked_add(0, schema.fields.len(), Resource::SchemaNodes, limits)?;
        let mut i: usize = 0;
        while i < schema.fields.len()
            invariant
                i <= schema.fields@.len(),
                forall|j: int|
                    0 <= j < i ==> (#[trigger] schema.fields@[j]).data_type is Primitive
                        && schema.fields@[j].metadata@.len() == 0,
                budgeted(manifest@, *layout, *limits) == Ok::<JsonPlanBudget, PlanAdmissionError>(
                    budget,
                ),
                bounded(
                    *limits,
                    Resource::SchemaNodes,
                    schema.fields@.len() as int,
                ) is Ok,
            decreases schema.fields@.len() - i,
        {
            let primitive = matches!(schema.fields[i].data_type, DataType::Primitive(_));
            if !primitive || schema.fields[i].metadata.len() > 0 {
                assert(!plain_fields(schema.fields@)) by {
                    let _field = schema.fields@[i as int];
                }
                return Err(PlanAdmissionError::UnsupportedMetadata);
            }
            i += 1;
        }
        let scratch: usize = match scan_builder_peak(schema, columns, layout) {
            Some(scratch) => scratch,
            None => return Err(uncounted_total(Resource::TaskStateBytes, limits)),
        };
        let backing: usize = checked_add(budget.backing, scratch, Resource::TaskStateBytes, limits)?;
        checked_add(backing, snapshot_bytes, Resource::TaskStateBytes, limits)?;
        Ok(
            JsonPlanBudget {
                backing,
                fixed_backing: budget.fixed_backing,
                encoded: budget.encoded,
                work: budget.work,
            },
        )
    }
}

/// Bounds the owners of a plan that depend on its files.
///
/// The parsed paths are collected once and the scanned files twice, with one relocation. Each file
/// owns three copies of its location, its name and extension, and two lists of one constant.
pub fn json_file_plan_owners(manifest: &LogIdentityManifest) -> (r: Option<usize>)
    ensures
        r == fitted(plan_file_owners(manifest@.files) as int),
{
    let files = manifest.files();
    let containers = plus(
        &vector_of::<ParsedLogPath>(files.len()),
        &vector_of::<ScanFile>(files.len()).mul_value(3),
    );
    let constants = vector_of::<Scalar>(1).mul_value(2);
    let mut total = containers;
    let mut i: usize = 0;
    while i < files.len()
        invariant
            i <= files@.len(),
            constants@ == 2 * vector_bytes(size_of::<Scalar>(), 1),
            total@ == vector_bytes(size_of::<ParsedLogPath>(), files@.len()) + 3 * vector_bytes(
                size_of::<ScanFile>(),
                files@.len(),
            ) + file_owners(files@, i as nat),
        decreases files@.len() - i,
    {
        let path = CheckedUsize::new(byte_len(files[i].path.as_str())).mul_value(3);
        total = plus(&plus(&total, &path).add_value(29), &constants);
        i += 1;
    }
    total.to_option()
}

impl AdmittedPlan {
    /// The plan of a producer, as its budget admitted it.
    pub open spec fn of_budget(
        self,
        nodes: Seq<crate::plan::PlanNode>,
        manifest: Arc<LogIdentityManifest>,
        budget: JsonPlanBudget,
        shape: crate::plan_shape::ShapeView,
    ) -> bool {
        &&& self.nodes() == nodes
        &&& self.measures() == (AdmittedView {
            shape,
            backing: budget.backing,
            metadata: budget.fixed_backing,
        })
        &&& self.provenance().len() == 0
        &&& self.history() == Some(manifest)
    }

    /// `r` is what finishing a producer's plan gives.
    pub open spec fn finished(
        nodes: Seq<crate::plan::PlanNode>,
        manifest: Arc<LogIdentityManifest>,
        budget: JsonPlanBudget,
        limits: TaskLimits,
        r: Result<AdmittedPlan, PlanAdmissionError>,
    ) -> bool {
        match produced(nodes, budget.encoded, budget.work, limits) {
            Ok(shape) => r matches Ok(plan) && plan.of_budget(nodes, manifest, budget, shape),
            Err(error) => r == Err::<AdmittedPlan, PlanAdmissionError>(shape_refusal(error)),
        }
    }

    /// Inspects the topology of a producer's plan and owns it under its budget.
    pub fn finish_json_producer(
        plan: Plan,
        manifest: Arc<LogIdentityManifest>,
        budget: JsonPlanBudget,
        limits: &TaskLimits,
    ) -> (r: Result<AdmittedPlan, PlanAdmissionError>)
        ensures
            AdmittedPlan::finished(plan.nodes@, manifest, budget, *limits, r),
    {
        match PlanShape::json_log_producer_shape(&plan, budget.encoded, budget.work, limits) {
            Ok(shape) => Ok(
                AdmittedPlan::of_producer(
                    plan,
                    shape,
                    budget.backing,
                    budget.fixed_backing,
                    manifest,
                ),
            ),
            Err(error) => Err(PlanAdmissionError::from(error)),
        }
    }

    /// `r` follows from what a builder gave.
    pub open spec fn followed(
        built: Result<Option<Plan>, Error>,
        manifest: Arc<LogIdentityManifest>,
        budget: JsonPlanBudget,
        limits: TaskLimits,
        r: Result<AdmittedPlan, PlanAdmissionError>,
    ) -> bool {
        match built {
            Ok(Some(plan)) => AdmittedPlan::finished(plan.nodes@, manifest, budget, limits, r),
            _ => r == Err::<AdmittedPlan, PlanAdmissionError>(PlanAdmissionError::InvalidShape),
        }
    }

    /// The table implementation built this plan, or failed so, for the replay of a segment.
    pub open spec fn replay_built<K: TableKernel>(
        kernel: &K,
        segment: &LogSegment,
        built: Result<Option<Plan>, Error>,
    ) -> bool {
        match built {
            Ok(Some(plan)) => call_ensures(
                K::protocol_metadata_plan,
                (kernel, segment),
                Ok::<Plan, Error>(plan),
            ),
            Ok(None) => false,
            Err(error) => call_ensures(
                K::protocol_metadata_plan,
                (kernel, segment),
                Err::<Plan, Error>(error),
            ),
        }
    }

    /// `r` follows from what the table implementation built for the live files of a snapshot.
    pub open spec fn scan_followed<K: TableKernel>(
        kernel: &K,
        snapshot: &Snapshot,
        budget: JsonPlanBudget,
        limits: TaskLimits,
        built: Result<Option<Plan>, Error>,
        r: Result<AdmittedPlan, PlanAdmissionError>,
    ) -> bool {
        &&& call_ensures(K::live_files_plan, (kernel, snapshot), built)
        &&& AdmittedPlan::followed(
            built,
            snapshot.log_identity_manifest->0,
            budget,
            limits,
            r,
        )
    }

    /// Owns the plan that a builder gave, where it gave one.
    pub fn after_builder(
        built: Result<Option<Plan>, Error>,
        manifest: Arc<LogIdentityManifest>,
        budget: JsonPlanBudget,
        limits: &TaskLimits,
    ) -> (r: Result<AdmittedPlan, PlanAdmissionError>)
        ensures
            AdmittedPlan::followed(built, manifest, budget, *limits, r),
    {
        match built {
            Ok(Some(plan)) => AdmittedPlan::finish_json_producer(plan, manifest, budget, limits),
            _ => Err(PlanAdmissionError::InvalidShape),
        }
    }

    /// Builds the plan that replays the protocol and metadata of a history.
    ///
    /// A history behind a checkpoint is refused. Nothing is built before the budget is admitted.
    pub fn try_snapshot_json<K: TableKernel>(
        kernel: &K,
        segment: &LogSegment,
        manifest: Arc<LogIdentityManifest>,
        limits: &TaskLimits,
        layout: &KernelLayout,
    ) -> (r: Result<AdmittedPlan, PlanAdmissionError>)
        ensures
            match budgeted(manifest@, *layout, *limits) {
                Err(error) => r == Err::<AdmittedPlan, PlanAdmissionError>(error),
                Ok(budget) => if segment.checkpoint_version is Some
                    || segment.checkpoint_parts@.len() > 0 {
                    r == Err::<AdmittedPlan, PlanAdmissionError>(PlanAdmissionError::InvalidShape)
                } else {
                    exists|built: Result<Option<Plan>, Error>|
                        {
                            &&& AdmittedPlan::replay_built(kernel, segment, built)
                            &&& #[trigger] AdmittedPlan::followed(
                                built,
                                manifest,
                                budget,
                                *limits,
                                r,
                            )
                        }
                },
            },
    {
        let budget = JsonPlanBudget::preflight(&manifest, limits, layout)?;
        if segment.checkpoint_version.is_some() || segment.checkpoint_parts.len() > 0 {
            return Err(PlanAdmissionError::InvalidShape);
        }
        let built = match kernel.protocol_metadata_plan(segment) {
            Ok(plan) => Ok(Some(plan)),
            Err(error) => Err(error),
        };
        let ghost given = built;
        assert(AdmittedPlan::replay_built(kernel, segment, given));
        let r = AdmittedPlan::after_builder(built, manifest, budget, limits);
        assert(AdmittedPlan::followed(given, manifest, budget, *limits, r));
        r
    }

    /// Builds the plan that replays the live files of a snapshot.
    ///
    /// A snapshot that no snapshot task discovered is refused. Nothing is built before the budget,
    /// the builder's scratch and the snapshot beside it are admitted.
    pub fn try_scan_json<K: TableKernel>(
        kernel: &K,
        snapshot: &Snapshot,
        limits: &TaskLimits,
        layout: &KernelLayout,
    ) -> (r: Result<AdmittedPlan, PlanAdmissionError>)
        ensures
            match snapshot.log_identity_manifest {
                None => r == Err::<AdmittedPlan, PlanAdmissionError>(
                    PlanAdmissionError::InvalidShape,
                ),
                Some(manifest) => match scan_budgeted(
                    manifest@,
                    snapshot.configuration.schema,
                    snapshot.configuration.stats_columns,
                    snapshot.json_task_retained_bytes,
                    *layout,
                    *limits,
                ) {
                    Err(error) => r == Err::<AdmittedPlan, PlanAdmissionError>(error),
                    Ok(budget) => exists|built: Result<Option<Plan>, Error>| #[trigger]
                        AdmittedPlan::scan_followed(kernel, snapshot, budget, *limits, built, r),
                },
            },
    {
        let manifest = match &snapshot.log_identity_manifest {
            Some(manifest) => manifest,
            None => return Err(PlanAdmissionError::InvalidShape),
        };
        let budget = JsonPlanBudget::preflight_scan(
            manifest,
            &snapshot.configuration.schema,
            &snapshot.configuration.stats_columns,
            snapshot.json_task_retained_bytes,
            limits,
            layout,
        )?;
        let manifest = Arc::clone(manifest);
        let built = kernel.live_files_plan(snapshot);
        let ghost given = built;
        let r = AdmittedPlan::after_builder(built, manifest, budget, limits);
        assert(AdmittedPlan::scan_followed(kernel, snapshot, budget, *limits, given, r));
        r
    }

    /// Bounds a host's borrowed inspection of the sealed plan, every system field, type, name and
    /// path and the linear lookups of nested fields included.
    pub fn json_host_inspection_work(&self, limits: &TaskLimits) -> (r: Result<
        usize,
        PlanAdmissionError,
    >)
        ensures
            match self.history() {
                None => r == Err::<usize, PlanAdmissionError>(PlanAdmissionError::InvalidShape),
                Some(manifest) => match bounded(
                    *limits,
                    Resource::WorkUnits,
                    (manifest@.files.len() * 4) as int,
                ) {
                    Err(error) => r == Err::<usize, PlanAdmissionError>(error),
                    Ok(files) => r == bounded(
                        *limits,
                        Resource::WorkUnits,
                        INSPECTION_WORK + files,
                    ),
                },
            },
    {
        let manifest = match self.log_identity_manifest() {
            Some(manifest) => manifest,
            None => return Err(PlanAdmissionError::InvalidShape),
        };
        let files: usize = check_total(
            &CheckedUsize::new(manifest.files().len()).mul_value(4),
            Resource::WorkUnits,
            limits,
        )?;
        checked_add(INSPECTION_WORK, files, Resource::WorkUnits, limits)
    }
}

/// A budget covers everything that stays alive with its plan, and every part is within its
/// allowance.
pub proof fn budgets_cover_their_plans(manifest: ManifestView, layout: KernelLayout, limits: TaskLimits)
    requires
        budgeted(manifest, layout, limits) is Ok,
    ensures
        budgeted(manifest, layout, limits) matches Ok(budget) && {
            &&& budget.backing == fixed_owners(layout) + plan_file_owners(manifest.files)
                + manifest.retained_bytes
            &&& budget.backing <= limits.allowance(Resource::TaskStateBytes)
            &&& budget.fixed_backing <= limits.allowance(Resource::MetadataAllocatedBytes)
            &&& budget.encoded <= limits.allowance(Resource::PlanEncodedBytes)
            &&& budget.work <= limits.allowance(Resource::WorkUnits)
        },
{
}

/// The work of a producer is admitted exactly up to its allowance, and as it is.
pub proof fn producers_work_within_their_allowance(files: nat, root: nat, limits: TaskLimits)
    ensures
        ({
            let work = producer_steps(files, (root + 25) * files + root);
            &&& work_admitted(files, root, limits) is Ok <==> work <= limits.allowance(
                Resource::WorkUnits,
            )
            &&& work_admitted(files, root, limits) matches Ok(admitted) ==> admitted == work
        }),
{
    assert((root + 25) * files >= 0) by (nonlinear_arith);
}

/// Each file is owned by three copies of its path and a fixed part.
pub proof fn files_add_their_owners(files: Seq<FileDescriptor>, n: nat)
    requires
        n < files.len(),
    ensures
        file_owners(files, n + 1) == file_owners(files, n) + 3 * utf8(files[n as int].path@).len() + 29
            + 2 * vector_bytes(size_of::<Scalar>(), 1),
        file_owners(files, 0) == 0,
{
}

/// A plan is budgeted exactly where its work, its nodes and schemas, all that it owns beside its
/// history, and its encoding are within their allowances. Each part of the budget is then just that.
pub proof fn plans_are_budgeted_within_their_allowances(
    manifest: ManifestView,
    layout: KernelLayout,
    limits: TaskLimits,
)
    ensures
        ({
            let files = manifest.files.len();
            let root = utf8(manifest.log_root).len();
            let work = producer_steps(files, (root + 25) * files + root);
            let backing = fixed_owners(layout) + plan_file_owners(manifest.files)
                + manifest.retained_bytes;
            let encoded = FIXED_ENCODING + files * 84 + (root + 25) * files;
            &&& budgeted(manifest, layout, limits) is Ok <==> {
                &&& work <= limits.allowance(Resource::WorkUnits)
                &&& limits.allowance(Resource::PlanNodes) >= 7
                &&& limits.allowance(Resource::PlanDepth) >= 7
                &&& limits.allowance(Resource::SchemaNodes) >= 298
                &&& limits.allowance(Resource::SchemaDepth) >= 4
                &&& backing <= limits.allowance(Resource::TaskStateBytes)
                &&& encoded <= limits.allowance(Resource::PlanEncodedBytes)
                &&& fixed_owners(layout) <= limits.allowance(Resource::MetadataAllocatedBytes)
            }
            &&& budgeted(manifest, layout, limits) matches Ok(budget) ==> {
                &&& budget.work == work
                &&& budget.backing == backing
                &&& budget.encoded == encoded
                &&& budget.fixed_backing == fixed_owners(layout)
            }
        }),
{
    let files = manifest.files.len();
    let root = utf8(manifest.log_root).len();
    producers_work_within_their_allowance(files, root, limits);
    assert(files * (7 * FIELD_BOUND as nat) == files * 84);
    assert((root + 25) * files >= 0) by (nonlinear_arith);
    assert(NODES == 7 && SYSTEM_SCHEMA_NODES == 298 && SYSTEM_SCHEMA_DEPTH == 4);
}

/// A scan is budgeted exactly where its replay is, its table has no more fields than the allowance of
/// schema nodes, each of them a primitive without metadata, and the builder's owners fit into the
/// task's storage beside the plan and the snapshot.
pub proof fn scans_are_budgeted_within_their_allowances(
    manifest: ManifestView,
    schema: StructType,
    columns: Option<Vec<ColumnName>>,
    snapshot_bytes: usize,
    layout: KernelLayout,
    limits: TaskLimits,
)
    ensures
        ({
            let made = scan_budgeted(manifest, schema, columns, snapshot_bytes, layout, limits);
            let scratch = builder_owners(schema, columns, layout);
            &&& made is Ok <==> {
                &&& budgeted(manifest, layout, limits) matches Ok(budget)
                &&& schema.fields@.len() <= limits.allowance(Resource::SchemaNodes)
                &&& forall|i: int|
                    0 <= i < schema.fields@.len() ==> {
                        &&& (#[trigger] schema.fields@[i]).data_type is Primitive
                        &&& schema.fields@[i].metadata@.len() == 0
                    }
                &&& budget.backing + scratch + snapshot_bytes <= limits.allowance(
                    Resource::TaskStateBytes,
                )
            }
            &&& made matches Ok(budget) ==> {
                &&& budgeted(manifest, layout, limits) matches Ok(replay)
                &&& budget.backing == replay.backing + scratch
                &&& budget.fixed_backing == replay.fixed_backing
                &&& budget.encoded == replay.encoded
                &&& budget.work == replay.work
            }
        }),
{
}

} // verus!
