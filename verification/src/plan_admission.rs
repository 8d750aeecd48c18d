//! Plans whose owners and whose shape are admitted before anything is built.
//!
//! There is no conversion from a plan: each constructor owns the allocations of the exact subset
//! that it accepts, and refuses before the first of them.

use crate::accounting::{refusal, Resource, TaskLimits};
use crate::bytes::{byte_len, same_text, utf8};
use crate::failure::{Error, ErrorSource, FailureKind, OperationFailure, ResourceExhausted};
use crate::inspection::{PlanShapeError, FIELD_BOUND};
use crate::log_manifest::LogIdentityManifest;
use crate::plan::{Operator, Plan, PlanNode, Scalar, Values};
use crate::plan_shape::{announced, fixed_plan, FixedValues, PlanShape, ShapeView};
use crate::schema::{
    DataType, MetadataEntry, MetadataValue, PrimitiveType, StructField, StructType,
};
use crate::sizing::{plus, power_from, power_of_two, size};
use std::sync::Arc;
use vstd::arithmetic::overflow::CheckedUsize;
use vstd::layout::size_of;
use vstd::prelude::*;

verus! {

/// Source-free failure from a concrete admitted-plan producer.
#[derive(Debug, Clone, Copy, PartialEq, Eq, Structural)]
#[non_exhaustive]
pub enum PlanAdmissionError {
    /// A finite admission allowance was exceeded or checked arithmetic overflowed.
    ResourceExhausted(ResourceExhausted),
    /// Two ordered metadata entries use the same exact key.
    DuplicateMetadata,
    /// Nested arbitrary JSON requires a bounded metadata decoder.
    UnsupportedMetadata,
    /// The concrete producer generated an invalid fixed plan shape.
    InvalidShape,
}

impl PlanAdmissionError {
    /// The text of [`PlanAdmissionError::message`].
    pub open spec fn text(self) -> Seq<char> {
        match self {
            PlanAdmissionError::ResourceExhausted(error) => error.text(),
            PlanAdmissionError::DuplicateMetadata => "duplicate task metadata key"@,
            PlanAdmissionError::UnsupportedMetadata => "unsupported task metadata value"@,
            PlanAdmissionError::InvalidShape => "invalid admitted plan shape"@,
        }
    }

    /// Describes the refusal without any source.
    pub fn message(&self) -> (s: String)
        ensures
            s@ == self.text(),
    {
        match self {
            PlanAdmissionError::ResourceExhausted(error) => error.message(),
            PlanAdmissionError::DuplicateMetadata => "duplicate task metadata key".to_owned(),
            PlanAdmissionError::UnsupportedMetadata => "unsupported task metadata value".to_owned(),
            PlanAdmissionError::InvalidShape => "invalid admitted plan shape".to_owned(),
        }
    }

    /// The failure delivers this refusal: an exceeded allowance keeps its category, and every other
    /// refusal is carried as its own error.
    pub open spec fn failed(self, failure: OperationFailure) -> bool {
        match self {
            PlanAdmissionError::ResourceExhausted(error) => failure.is_terminal(
                FailureKind::ResourceExhausted(error),
            ),
            _ => failure.category() == FailureKind::Engine && (failure.origin() matches Some(
                Error::GenericError { source },
            ) && source == ErrorSource::Plan(self)),
        }
    }

    /// Turns the refusal into an operation's failure.
    pub fn into_failure(self) -> (failure: OperationFailure)
        ensures
            self.failed(failure),
    {
        match self {
            PlanAdmissionError::ResourceExhausted(error) => OperationFailure::exhausted(error),
            error => OperationFailure::new(
                FailureKind::Engine,
                Error::GenericError { source: ErrorSource::Plan(error) },
            ),
        }
    }
}

/// An exceeded allowance keeps its domain; every other refused shape is invalid.
pub open spec fn shape_refusal(error: PlanShapeError) -> PlanAdmissionError {
    match error {
        PlanShapeError::ResourceExhausted(error) => PlanAdmissionError::ResourceExhausted(error),
        _ => PlanAdmissionError::InvalidShape,
    }
}

impl vstd::std_specs::convert::FromSpecImpl<PlanShapeError> for PlanAdmissionError {
    open spec fn obeys_from_spec() -> bool {
        true
    }

    open spec fn from_spec(error: PlanShapeError) -> PlanAdmissionError {
        shape_refusal(error)
    }
}

impl From<PlanShapeError> for PlanAdmissionError {
    fn from(error: PlanShapeError) -> (refusal: PlanAdmissionError) {
        match error {
            PlanShapeError::ResourceExhausted(error) => PlanAdmissionError::ResourceExhausted(error),
            _ => PlanAdmissionError::InvalidShape,
        }
    }
}

impl vstd::std_specs::convert::FromSpecImpl<ResourceExhausted> for PlanAdmissionError {
    open spec fn obeys_from_spec() -> bool {
        true
    }

    open spec fn from_spec(error: ResourceExhausted) -> PlanAdmissionError {
        PlanAdmissionError::ResourceExhausted(error)
    }
}

impl From<ResourceExhausted> for PlanAdmissionError {
    fn from(error: ResourceExhausted) -> (refusal: PlanAdmissionError) {
        PlanAdmissionError::ResourceExhausted(error)
    }
}

/// What comparing a total with its allowance gives.
pub open spec fn bounded(limits: TaskLimits, resource: Resource, total: int) -> Result<
    usize,
    PlanAdmissionError,
> {
    if total > limits.allowance(resource) {
        Err(
            PlanAdmissionError::ResourceExhausted(
                refusal(resource, limits.allowance(resource), total as nat),
            ),
        )
    } else {
        Ok(total as usize)
    }
}

/// The refusal of a total that the machine cannot hold.
pub open spec fn uncounted(limits: TaskLimits, resource: Resource) -> PlanAdmissionError {
    PlanAdmissionError::ResourceExhausted(
        ResourceExhausted { resource, limit: limits.allowance(resource), observed: usize::MAX },
    )
}

pub(crate) fn check_total(total: &CheckedUsize, resource: Resource, limits: &TaskLimits) -> (r: Result<
    usize,
    PlanAdmissionError,
>)
    ensures
        r == bounded(*limits, resource, total@ as int),
{
    let limit: usize = limits.limit(resource);
    match total.to_option() {
        Some(observed) => if observed > limit {
            Err(
                PlanAdmissionError::ResourceExhausted(
                    ResourceExhausted { resource, limit, observed },
                ),
            )
        } else {
            Ok(observed)
        },
        None => Err(
            PlanAdmissionError::ResourceExhausted(
                ResourceExhausted { resource, limit, observed: usize::MAX },
            ),
        ),
    }
}

pub(crate) fn checked_add(left: usize, right: usize, resource: Resource, limits: &TaskLimits) -> (r: Result<
    usize,
    PlanAdmissionError,
>)
    ensures
        r == bounded(*limits, resource, left + right),
{
    check_total(&CheckedUsize::new(left).add_value(right), resource, limits)
}

pub(crate) fn uncounted_total(resource: Resource, limits: &TaskLimits) -> (error: PlanAdmissionError)
    ensures
        error == uncounted(*limits, resource),
{
    PlanAdmissionError::ResourceExhausted(
        ResourceExhausted { resource, limit: limits.limit(resource), observed: usize::MAX },
    )
}

/// One ordered metadata entry supplied by an allocation-owning plan producer.
///
/// The borrowed slice of entries is the admission source: its length bounds the iteration. The
/// admitted plan owns copies of the sequence, and of the field metadata, only after all size, work
/// and duplicate checks succeed.
#[derive(Debug, Clone, Copy)]
pub struct PlanMetadataEntry<'a> {
    key: &'a str,
    value: &'a MetadataValue,
}

impl<'a> PlanMetadataEntry<'a> {
    /// The entry's key.
    pub closed spec fn name(self) -> Seq<char> {
        self.key@
    }

    /// Its value.
    pub closed spec fn content(self) -> MetadataValue {
        *self.value
    }

    /// Borrows one key and value from a producer-owned immutable sequence.
    pub fn new(key: &'a str, value: &'a MetadataValue) -> (entry: PlanMetadataEntry<'a>)
        ensures
            entry.name() == key@,
            entry.content() == *value,
    {
        PlanMetadataEntry { key, value }
    }
}

/// Running totals over metadata entries.
pub struct MetadataTally {
    /// The bytes of the encoding.
    pub encoded: usize,
    /// The bytes of the owned keys and texts.
    pub dynamic: usize,
    /// The steps of the comparisons.
    pub work: usize,
}

/// What comparing entry `i` with the entries from `j` up to it gives.
pub open spec fn compared(
    entries: Seq<PlanMetadataEntry>,
    i: int,
    j: int,
    work: usize,
    limits: TaskLimits,
) -> Result<usize, PlanAdmissionError>
    decreases i - j,
{
    if j >= i {
        Ok(work)
    } else {
        let key = utf8(entries[i].name()).len();
        match bounded(limits, Resource::WorkUnits, work + 1) {
            Err(error) => Err(error),
            Ok(step) => match bounded(limits, Resource::WorkUnits, step + key) {
                Err(error) => Err(error),
                Ok(step) => match bounded(
                    limits,
                    Resource::WorkUnits,
                    step + utf8(entries[j].name()).len(),
                ) {
                    Err(error) => Err(error),
                    Ok(step) => if utf8(entries[i].name()) == utf8(entries[j].name()) {
                        Err(PlanAdmissionError::DuplicateMetadata)
                    } else {
                        compared(entries, i, j + 1, step, limits)
                    },
                },
            },
        }
    }
}

/// What owning and encoding one entry adds.
pub open spec fn entry_counted(
    entry: PlanMetadataEntry,
    tally: MetadataTally,
    limits: TaskLimits,
) -> Result<MetadataTally, PlanAdmissionError> {
    let key = utf8(entry.name()).len();
    let value: Result<(nat, usize), PlanAdmissionError> = match entry.content() {
        MetadataValue::Other(_) => Err(PlanAdmissionError::UnsupportedMetadata),
        MetadataValue::String(text) => match bounded(
            limits,
            Resource::MetadataAllocatedBytes,
            tally.dynamic + utf8(text@).len(),
        ) {
            Err(error) => Err(error),
            Ok(dynamic) => Ok((utf8(text@).len(), dynamic)),
        },
        _ => Ok((10nat, tally.dynamic)),
    };
    match value {
        Err(error) => Err(error),
        Ok((bytes, dynamic)) => match bounded(
            limits,
            Resource::MetadataAllocatedBytes,
            dynamic + key,
        ) {
            Err(error) => Err(error),
            Ok(dynamic) => match bounded(
                limits,
                Resource::PlanEncodedBytes,
                6 * FIELD_BOUND + key,
            ) {
                Err(error) => Err(error),
                Ok(encoded) => match bounded(
                    limits,
                    Resource::PlanEncodedBytes,
                    encoded + bytes,
                ) {
                    Err(error) => Err(error),
                    Ok(encoded) => match bounded(
                        limits,
                        Resource::PlanEncodedBytes,
                        tally.encoded + encoded,
                    ) {
                        Err(error) => Err(error),
                        Ok(encoded) => Ok(MetadataTally { encoded, dynamic, work: tally.work }),
                    },
                },
            },
        },
    }
}

/// What counting the entries from `i` on gives.
///
/// The key that declares a metadata specification is reserved. Keys are unique.
pub open spec fn entries_counted(
    entries: Seq<PlanMetadataEntry>,
    i: int,
    tally: MetadataTally,
    limits: TaskLimits,
) -> Result<MetadataTally, PlanAdmissionError>
    decreases entries.len() - i,
{
    if i >= entries.len() {
        Ok(tally)
    } else if utf8(entries[i].name()) == utf8("delta.metadataSpec"@) {
        Err(PlanAdmissionError::UnsupportedMetadata)
    } else {
        match compared(entries, i, 0, tally.work, limits) {
            Err(error) => Err(error),
            Ok(work) => match entry_counted(
                entries[i],
                MetadataTally { encoded: tally.encoded, dynamic: tally.dynamic, work },
                limits,
            ) {
                Err(error) => Err(error),
                Ok(tally) => entries_counted(entries, i + 1, tally, limits),
            },
        }
    }
}

/// The backing of a metadata index of `entries` entries: buckets at a load of seven eighths, one
/// control byte for each, and the trailing group with its alignment.
pub open spec fn map_bound(entries: nat, limits: TaskLimits) -> Result<usize, PlanAdmissionError> {
    if entries == 0 {
        Ok(0)
    } else {
        match bounded(limits, Resource::MetadataAllocatedBytes, (entries * 8) as int) {
            Err(error) => Err(error),
            Ok(scaled) => {
                let power = power_from(1, ((scaled + 6) / 7) as nat);
                let buckets = if power >= 4 {
                    power
                } else {
                    4
                };
                if scaled + 6 > usize::MAX || power > usize::MAX {
                    Err(uncounted(limits, Resource::MetadataAllocatedBytes))
                } else {
                    match bounded(
                        limits,
                        Resource::MetadataAllocatedBytes,
                        (buckets * (size_of::<(String, MetadataValue)>() + 1)) as int,
                    ) {
                        Err(error) => Err(error),
                        Ok(payload) => bounded(
                            limits,
                            Resource::MetadataAllocatedBytes,
                            payload + 31,
                        ),
                    }
                }
            },
        }
    }
}

/// What owning the entries gives, with what their encoding and comparison take: the sequence and
/// the index each own a copy of every key and text.
pub open spec fn metadata_counted(entries: Seq<PlanMetadataEntry>, limits: TaskLimits) -> Result<
    MetadataTally,
    PlanAdmissionError,
> {
    let zero = MetadataTally { encoded: 0, dynamic: 0, work: 0 };
    match entries_counted(entries, 0, zero, limits) {
        Err(error) => Err(error),
        Ok(tally) => match bounded(
            limits,
            Resource::MetadataAllocatedBytes,
            tally.dynamic * 2,
        ) {
            Err(error) => Err(error),
            Ok(copies) => match bounded(
                limits,
                Resource::MetadataAllocatedBytes,
                (entries.len() * size_of::<MetadataEntry>()) as int,
            ) {
                Err(error) => Err(error),
                Ok(slots) => match bounded(
                    limits,
                    Resource::MetadataAllocatedBytes,
                    copies + slots,
                ) {
                    Err(error) => Err(error),
                    Ok(owned) => match map_bound(entries.len(), limits) {
                        Err(error) => Err(error),
                        Ok(index) => match bounded(
                            limits,
                            Resource::MetadataAllocatedBytes,
                            owned + index,
                        ) {
                            Err(error) => Err(error),
                            Ok(dynamic) => Ok(
                                MetadataTally { encoded: tally.encoded, dynamic, work: tally.work },
                            ),
                        },
                    },
                },
            },
        },
    }
}

/// What owning the texts from `i` on gives.
pub open spec fn texts_owned(values: Seq<&str>, i: int, used: usize, limits: TaskLimits) -> Result<
    usize,
    PlanAdmissionError,
>
    decreases values.len() - i,
{
    if i >= values.len() {
        Ok(used)
    } else {
        match bounded(limits, Resource::TaskStateBytes, used + utf8(values[i]@).len()) {
            Err(error) => Err(error),
            Ok(used) => texts_owned(values, i + 1, used, limits),
        }
    }
}

/// What owning the values gives.
pub open spec fn values_owned(values: FixedValues, limits: TaskLimits) -> Result<
    usize,
    PlanAdmissionError,
> {
    match values {
        FixedValues::I64(_) => Ok(0),
        FixedValues::String(texts) => texts_owned(texts@, 0, 0, limits),
    }
}

/// The owners of the schema of one column: four slots of its index, the shared structure, the tag
/// and both copies of the name.
pub open spec fn column_owners(name: nat) -> nat {
    4 * size_of::<(String, StructField)>() + size_of::<StructType>() + 2 * size_of::<usize>() + 6
        + name + name
}

/// What summing the parts from `i` on gives; every partial sum is compared.
pub open spec fn summed(parts: Seq<nat>, i: int, total: usize, limits: TaskLimits) -> Result<
    usize,
    PlanAdmissionError,
>
    decreases parts.len() - i,
{
    if i >= parts.len() {
        Ok(total)
    } else {
        match bounded(limits, Resource::TaskStateBytes, total + parts[i]) {
            Err(error) => Err(error),
            Ok(total) => summed(parts, i + 1, total, limits),
        }
    }
}

/// The parts of a one-column schema, in the order in which they are compared.
pub open spec fn column_parts(name: nat) -> Seq<nat> {
    Seq::empty().push(4 * size_of::<(String, StructField)>()).push(size_of::<StructType>()).push(
        2 * size_of::<usize>(),
    ).push(6).push(name).push(name)
}

/// What owning a plan of one literal column gives.
pub open spec fn plan_owned(name: nat, metadata: usize, rows: nat, texts: usize, limits: TaskLimits) -> Result<
    usize,
    PlanAdmissionError,
> {
    match bounded(
        limits,
        Resource::TaskStateBytes,
        (rows * (size_of::<Vec<Scalar>>() + size_of::<Scalar>())) as int,
    ) {
        Err(error) => Err(error),
        Ok(slots) => match summed(column_parts(name), 0, 0, limits) {
            Err(error) => Err(error),
            Ok(schema) => summed(
                Seq::empty().push(schema as nat).push(size_of::<PlanNode>()).push(
                    texts as nat,
                ).push(metadata as nat),
                0,
                slots,
                limits,
            ),
        },
    }
}

/// The measures of an admitted plan.
pub struct AdmittedView {
    /// Its shape.
    pub shape: ShapeView,
    /// What it owns.
    pub backing: usize,
    /// What its metadata owns.
    pub metadata: usize,
}

/// What admitting a plan of one literal column gives.
pub open spec fn fixed_admitted(
    name: Seq<char>,
    entries: Seq<PlanMetadataEntry>,
    values: FixedValues,
    limits: TaskLimits,
) -> Result<AdmittedView, PlanAdmissionError> {
    match metadata_counted(entries, limits) {
        Err(error) => Err(error),
        Ok(tally) => match values_owned(values, limits) {
            Err(error) => Err(error),
            Ok(texts) => match announced(name, values, tally.encoded, tally.work, limits) {
                Err(error) => Err(shape_refusal(error)),
                Ok(shape) => match plan_owned(
                    utf8(name).len(),
                    tally.dynamic,
                    values.count(),
                    texts,
                    limits,
                ) {
                    Err(error) => Err(error),
                    Ok(backing) => Ok(AdmittedView { shape, backing, metadata: tally.dynamic }),
                },
            },
        },
    }
}

/// Two metadata values are the same; texts are compared by their characters.
pub open spec fn same_value(a: MetadataValue, b: MetadataValue) -> bool {
    match (a, b) {
        (MetadataValue::String(a), MetadataValue::String(b)) => a@ == b@,
        (a, b) => a == b,
    }
}

/// The owned entries are copies of the supplied ones, in their order.
pub open spec fn copied(entries: Seq<PlanMetadataEntry>, owned: Seq<MetadataEntry>) -> bool {
    &&& owned.len() == entries.len()
    &&& forall|i: int|
        0 <= i < owned.len() ==> (#[trigger] owned[i]).key@ == entries[i].name() && same_value(
            entries[i].content(),
            owned[i].value,
        )
}

/// The value of the first entry of a key.
pub open spec fn value_of(entries: Seq<MetadataEntry>, key: Seq<char>) -> Option<MetadataValue>
    decreases entries.len(),
{
    if entries.len() == 0 {
        None
    } else if utf8(entries[0].key@) == utf8(key) {
        Some(entries[0].value)
    } else {
        value_of(entries.drop_first(), key)
    }
}

/// The metadata of a literal source's first field.
pub open spec fn source_metadata(nodes: Seq<PlanNode>) -> Option<Seq<MetadataEntry>> {
    if nodes.len() == 0 {
        None
    } else {
        match nodes[0].op {
            Operator::Values(values) => if values.schema.fields@.len() == 0 {
                None
            } else {
                Some(values.schema.fields@[0].metadata@)
            },
            _ => None,
        }
    }
}

/// A plan whose retained allocations and executable shape were admitted before construction.
pub struct AdmittedPlan {
    plan: Plan,
    shape: PlanShape,
    retained_bytes: usize,
    metadata_bytes: usize,
    metadata_source: Vec<MetadataEntry>,
    log_manifest: Option<Arc<LogIdentityManifest>>,
}

impl AdmittedPlan {
    /// The plan's nodes.
    pub closed spec fn nodes(self) -> Seq<PlanNode> {
        self.plan.nodes@
    }

    /// What was measured of the plan.
    pub closed spec fn measures(self) -> AdmittedView {
        AdmittedView {
            shape: self.shape@,
            backing: self.retained_bytes,
            metadata: self.metadata_bytes,
        }
    }

    /// What the plan owns.
    pub open spec fn backing(self) -> usize {
        self.measures().backing
    }

    /// The metadata entries that the producer was given.
    pub closed spec fn provenance(self) -> Seq<MetadataEntry> {
        self.metadata_source@
    }

    /// The history that the plan reads.
    pub closed spec fn history(self) -> Option<Arc<LogIdentityManifest>> {
        self.log_manifest
    }

    /// The plan of one literal column, as it was admitted.
    pub open spec fn fixed(
        self,
        name: Seq<char>,
        entries: Seq<PlanMetadataEntry>,
        values: FixedValues,
        view: AdmittedView,
    ) -> bool {
        &&& fixed_plan(self.nodes(), name, values)
        &&& self.measures() == view
        &&& copied(entries, self.provenance())
        &&& source_metadata(self.nodes()) matches Some(metadata)
        &&& copied(entries, metadata)
        &&& self.history() is None
    }

    /// Builds one non-nullable LONG `Values` source from borrowed fixed-width rows.
    ///
    /// This deliberately small producer exists for evaluation-driver qualification. Metadata is
    /// accepted as an ordered slice, checked for duplicate keys, and limited to scalar number,
    /// string and boolean values. Every failure precedes allocation and retains no caller input.
    pub fn try_i64_values(
        field_name: &str,
        metadata: &[PlanMetadataEntry],
        values: &[i64],
        limits: &TaskLimits,
    ) -> (r: Result<AdmittedPlan, PlanAdmissionError>)
        ensures
            match fixed_admitted(field_name@, metadata@, FixedValues::I64(values), *limits) {
                Ok(view) => r matches Ok(plan) && plan.fixed(
                    field_name@,
                    metadata@,
                    FixedValues::I64(values),
                    view,
                ),
                Err(error) => r == Err::<AdmittedPlan, PlanAdmissionError>(error),
            },
    {
        AdmittedPlan::try_fixed_values(field_name, metadata, FixedValues::I64(values), limits)
    }

    /// Builds one non-nullable STRING `Values` source from borrowed strings.
    ///
    /// String bytes, row containers, schema, metadata and the encoded plan are bounded before any
    /// producer allocation. The accepted metadata subset matches [`AdmittedPlan::try_i64_values`].
    pub fn try_string_values<'a>(
        field_name: &str,
        metadata: &[PlanMetadataEntry],
        values: &'a [&'a str],
        limits: &TaskLimits,
    ) -> (r: Result<AdmittedPlan, PlanAdmissionError>)
        ensures
            match fixed_admitted(field_name@, metadata@, FixedValues::String(values), *limits) {
                Ok(view) => r matches Ok(plan) && plan.fixed(
                    field_name@,
                    metadata@,
                    FixedValues::String(values),
                    view,
                ),
                Err(error) => r == Err::<AdmittedPlan, PlanAdmissionError>(error),
            },
    {
        AdmittedPlan::try_fixed_values(field_name, metadata, FixedValues::String(values), limits)
    }

    fn try_fixed_values(
        field_name: &str,
        metadata: &[PlanMetadataEntry],
        values: FixedValues,
        limits: &TaskLimits,
    ) -> (r: Result<AdmittedPlan, PlanAdmissionError>)
        ensures
            match fixed_admitted(field_name@, metadata@, values, *limits) {
                Ok(view) => r matches Ok(plan) && plan.fixed(field_name@, metadata@, values, view),
                Err(error) => r == Err::<AdmittedPlan, PlanAdmissionError>(error),
            },
    {
        let tally = count_metadata(metadata, limits)?;
        let texts: usize = own_values(values, limits)?;
        let shape = match PlanShape::fixed_values(
            field_name,
            values,
            tally.encoded,
            tally.work,
            limits,
        ) {
            Ok(shape) => shape,
            Err(error) => return Err(PlanAdmissionError::from(error)),
        };
        let retained_bytes: usize = fixed_plan_backing_bound(
            byte_len(field_name),
            tally.dynamic,
            values.len(),
            texts,
            limits,
        )?;
        proof {
            accepted_metadata_is_plain(metadata@, *limits);
        }
        let metadata_source = copy_entries(metadata);
        let data_type = DataType::Primitive(
            match values {
                FixedValues::I64(_) => PrimitiveType::Long,
                FixedValues::String(_) => PrimitiveType::String,
            },
        );
        let mut field = StructField::not_null(field_name, data_type);
        field.metadata = copy_entries(metadata);
        let mut fields: Vec<StructField> = Vec::new();
        fields.push(field);
        let rows = literal_rows(values);
        let mut nodes: Vec<PlanNode> = Vec::new();
        nodes.push(
            PlanNode {
                op: Operator::Values(Values { schema: StructType { fields }, rows }),
                inputs: Vec::new(),
            },
        );
        Ok(
            AdmittedPlan {
                plan: Plan { nodes },
                shape,
                retained_bytes,
                metadata_bytes: tally.dynamic,
                metadata_source,
                log_manifest: None,
            },
        )
    }

    /// Owns the plan of a closed producer, whose budget was admitted before it was built.
    pub(crate) fn of_producer(
        plan: Plan,
        shape: PlanShape,
        retained_bytes: usize,
        metadata_bytes: usize,
        manifest: Arc<LogIdentityManifest>,
    ) -> (admitted: AdmittedPlan)
        ensures
            admitted.nodes() == plan.nodes@,
            admitted.measures() == (AdmittedView {
                shape: shape@,
                backing: retained_bytes,
                metadata: metadata_bytes,
            }),
            admitted.provenance().len() == 0,
            admitted.history() == Some(manifest),
    {
        AdmittedPlan {
            plan,
            shape,
            retained_bytes,
            metadata_bytes,
            metadata_source: Vec::new(),
            log_manifest: Some(manifest),
        }
    }

    /// Returns the checked structural and encoded-size measurements.
    pub fn shape(&self) -> (shape: PlanShape)
        ensures
            shape@ == self.measures().shape,
    {
        self.shape
    }

    /// Returns the conservative dynamic backing bytes owned by this plan.
    pub fn retained_bytes(&self) -> (bytes: usize)
        ensures
            bytes == self.backing(),
    {
        self.retained_bytes
    }

    /// Returns the checked dynamic bytes owned by metadata sequences and indexes.
    pub fn metadata_bytes(&self) -> (bytes: usize)
        ensures
            bytes == self.measures().metadata,
    {
        self.metadata_bytes
    }

    /// Returns the number of ordered metadata entries retained as producer provenance.
    pub fn metadata_entries(&self) -> (count: usize)
        ensures
            count == self.provenance().len(),
    {
        self.metadata_source.len()
    }

    /// Looks up fixed-source field metadata without exposing the mutable plan IR.
    pub fn field_metadata(&self, key: &str) -> (r: Option<&MetadataValue>)
        ensures
            match source_metadata(self.nodes()) {
                None => r is None,
                Some(entries) => match value_of(entries, key@) {
                    None => r is None,
                    Some(value) => r matches Some(found) && *found == value,
                },
            },
    {
        if self.plan.nodes.len() == 0 {
            return None;
        }
        match &self.plan.nodes[0].op {
            Operator::Values(values) => {
                if values.schema.fields.len() == 0 {
                    return None;
                }
                let entries = &values.schema.fields[0].metadata;
                assert(entries@.skip(0) =~= entries@);
                let mut i: usize = 0;
                while i < entries.len()
                    invariant
                        i <= entries@.len(),
                        value_of(entries@.skip(i as int), key@) == value_of(entries@, key@),
                        source_metadata(self.nodes()) == Some(entries@),
                    decreases entries@.len() - i,
                {
                    assert(entries@.skip(i as int).drop_first() =~= entries@.skip(i + 1));
                    if same_text(entries[i].key.as_str(), key) {
                        return Some(&entries[i].value);
                    }
                    i += 1;
                }
                None
            },
            _ => None,
        }
    }

    /// Borrows the immutable JSON discovery provenance supplied by a concrete task producer.
    pub fn log_identity_manifest(&self) -> (r: Option<&Arc<LogIdentityManifest>>)
        ensures
            match self.history() {
                Some(manifest) => r matches Some(found) && *found == manifest,
                None => r is None,
            },
    {
        self.log_manifest.as_ref()
    }

    /// Borrows admitted IR during host compilation. The host admits any additional lowering
    /// allocations before creating them; this borrow grants no new producer.
    pub fn plan(&self) -> (plan: &Plan)
        ensures
            plan.nodes@ == self.nodes(),
    {
        &self.plan
    }

    /// Transfers the admitted IR to its driver for compilation or execution.
    ///
    /// The caller becomes the allocation owner. Task code moves this value at most once and
    /// retains no clone of the source plan.
    pub fn into_plan(self) -> (plan: Plan)
        ensures
            plan.nodes@ == self.nodes(),
    {
        self.plan
    }
}

proof fn compared_keys_differ(
    entries: Seq<PlanMetadataEntry>,
    i: int,
    j: int,
    work: usize,
    limits: TaskLimits,
)
    requires
        0 <= j,
        compared(entries, i, j, work, limits) is Ok,
    ensures
        forall|k: int|
            j <= k < i ==> utf8(entries[i].name()) != utf8((#[trigger] entries[k]).name()),
    decreases i - j,
{
    if j < i {
        let key = utf8(entries[i].name()).len();
        let step = bounded(limits, Resource::WorkUnits, work + 1)->Ok_0;
        let step = bounded(limits, Resource::WorkUnits, step + key)->Ok_0;
        let step = bounded(
            limits,
            Resource::WorkUnits,
            step + utf8(entries[j].name()).len(),
        )->Ok_0;
        compared_keys_differ(entries, i, j + 1, step, limits);
    }
}

proof fn counted_entries_are_plain(
    entries: Seq<PlanMetadataEntry>,
    i: int,
    tally: MetadataTally,
    limits: TaskLimits,
)
    requires
        0 <= i,
        entries_counted(entries, i, tally, limits) is Ok,
    ensures
        forall|j: int|
            i <= j < entries.len() ==> {
                &&& !((#[trigger] entries[j]).content() is Other)
                &&& utf8(entries[j].name()) != utf8("delta.metadataSpec"@)
            },
        forall|j: int, k: int|
            i <= j < entries.len() && 0 <= k < j ==> utf8((#[trigger] entries[j]).name()) != utf8(
                (#[trigger] entries[k]).name(),
            ),
    decreases entries.len() - i,
{
    if i < entries.len() {
        let work = compared(entries, i, 0, tally.work, limits)->Ok_0;
        compared_keys_differ(entries, i, 0, tally.work, limits);
        let next = entry_counted(
            entries[i],
            MetadataTally { encoded: tally.encoded, dynamic: tally.dynamic, work },
            limits,
        )->Ok_0;
        counted_entries_are_plain(entries, i + 1, next, limits);
    }
}

/// Accepted metadata has unique keys, none of them reserved, and values without parts.
pub proof fn accepted_metadata_is_plain(entries: Seq<PlanMetadataEntry>, limits: TaskLimits)
    requires
        metadata_counted(entries, limits) is Ok,
    ensures
        forall|j: int|
            0 <= j < entries.len() ==> {
                &&& !((#[trigger] entries[j]).content() is Other)
                &&& utf8(entries[j].name()) != utf8("delta.metadataSpec"@)
            },
        forall|j: int, k: int|
            0 <= k < j < entries.len() ==> utf8((#[trigger] entries[j]).name()) != utf8(
                (#[trigger] entries[k]).name(),
            ),
{
    counted_entries_are_plain(
        entries,
        0,
        MetadataTally { encoded: 0, dynamic: 0, work: 0 },
        limits,
    );
}

proof fn first_entries_are_found(entries: Seq<MetadataEntry>, j: int)
    requires
        0 <= j < entries.len(),
        forall|k: int|
            0 <= k < j ==> utf8((#[trigger] entries[k]).key@) != utf8(entries[j].key@),
    ensures
        value_of(entries, entries[j].key@) == Some(entries[j].value),
    decreases j,
{
    if j > 0 {
        let rest = entries.drop_first();
        assert forall|k: int| 0 <= k < j - 1 implies utf8((#[trigger] rest[k]).key@) != utf8(
            rest[j - 1].key@,
        ) by {
            assert(rest[k] == entries[k + 1]);
        }
        assert(utf8(entries[0].key@) != utf8(entries[j].key@));
        first_entries_are_found(rest, j - 1);
    }
}

proof fn absent_keys_are_not_found(entries: Seq<MetadataEntry>, key: Seq<char>)
    requires
        forall|k: int| 0 <= k < entries.len() ==> utf8((#[trigger] entries[k]).key@) != utf8(key),
    ensures
        value_of(entries, key) is None,
    decreases entries.len(),
{
    if entries.len() > 0 {
        let rest = entries.drop_first();
        assert(utf8(entries[0].key@) != utf8(key));
        assert forall|k: int| 0 <= k < rest.len() implies utf8((#[trigger] rest[k]).key@) != utf8(
            key,
        ) by {
            assert(rest[k] == entries[k + 1]);
        }
        absent_keys_are_not_found(rest, key);
    }
}

/// A plan gives back the metadata that it was admitted with: looking up the key of any supplied
/// entry finds that entry's value, and looking up any other key finds nothing.
pub proof fn supplied_metadata_is_found(
    plan: AdmittedPlan,
    name: Seq<char>,
    entries: Seq<PlanMetadataEntry>,
    values: FixedValues,
    limits: TaskLimits,
    key: Seq<char>,
)
    requires
        fixed_admitted(name, entries, values, limits) is Ok,
        plan.fixed(name, entries, values, fixed_admitted(name, entries, values, limits)->Ok_0),
    ensures
        forall|j: int|
            0 <= j < entries.len() ==> (value_of(
                source_metadata(plan.nodes())->0,
                (#[trigger] entries[j]).name(),
            ) matches Some(value) && same_value(entries[j].content(), value)),
        (forall|j: int| 0 <= j < entries.len() ==> utf8((#[trigger] entries[j]).name()) != utf8(key))
            ==> value_of(source_metadata(plan.nodes())->0, key) is None,
{
    let owned = source_metadata(plan.nodes())->0;
    accepted_metadata_is_plain(entries, limits);
    assert forall|j: int| 0 <= j < entries.len() implies (value_of(
        owned,
        (#[trigger] entries[j]).name(),
    ) matches Some(value) && same_value(entries[j].content(), value)) by {
        assert(owned[j].key@ == entries[j].name());
        assert forall|k: int| 0 <= k < j implies utf8((#[trigger] owned[k]).key@) != utf8(
            owned[j].key@,
        ) by {
            assert(utf8(entries[j].name()) != utf8(entries[k].name()));
        }
        first_entries_are_found(owned, j);
    }
    if forall|j: int| 0 <= j < entries.len() ==> utf8((#[trigger] entries[j]).name()) != utf8(key) {
        assert forall|k: int| 0 <= k < owned.len() implies utf8((#[trigger] owned[k]).key@) != utf8(
            key,
        ) by {
            assert(utf8(entries[k].name()) != utf8(key));
        }
        absent_keys_are_not_found(owned, key);
    }
}

fn compare_keys(metadata: &[PlanMetadataEntry], i: usize, work: usize, limits: &TaskLimits) -> (r: Result<
    usize,
    PlanAdmissionError,
>)
    requires
        i < metadata@.len(),
    ensures
        r == compared(metadata@, i as int, 0, work, *limits),
{
    let mut total: usize = work;
    let mut j: usize = 0;
    while j < i
        invariant
            j <= i < metadata@.len(),
            compared(metadata@, i as int, 0, work, *limits) == compared(
                metadata@,
                i as int,
                j as int,
                total,
                *limits,
            ),
        decreases i - j,
    {
        let step: usize = checked_add(total, 1, Resource::WorkUnits, limits)?;
        let step: usize = checked_add(
            step,
            byte_len(metadata[i].key),
            Resource::WorkUnits,
            limits,
        )?;
        let step: usize = checked_add(
            step,
            byte_len(metadata[j].key),
            Resource::WorkUnits,
            limits,
        )?;
        if same_text(metadata[i].key, metadata[j].key) {
            return Err(PlanAdmissionError::DuplicateMetadata);
        }
        total = step;
        j += 1;
    }
    Ok(total)
}

fn count_entry(entry: &PlanMetadataEntry, tally: MetadataTally, limits: &TaskLimits) -> (r: Result<
    MetadataTally,
    PlanAdmissionError,
>)
    ensures
        r == entry_counted(*entry, tally, *limits),
{
    let key: usize = byte_len(entry.key);
    let mut dynamic: usize = tally.dynamic;
    let value: usize = match entry.value {
        MetadataValue::Number(_) => 10,
        MetadataValue::Boolean(_) => 10,
        MetadataValue::String(text) => {
            dynamic = checked_add(
                dynamic,
                byte_len(text.as_str()),
                Resource::MetadataAllocatedBytes,
                limits,
            )?;
            byte_len(text.as_str())
        },
        MetadataValue::Other(_) => return Err(PlanAdmissionError::UnsupportedMetadata),
    };
    let dynamic: usize = checked_add(dynamic, key, Resource::MetadataAllocatedBytes, limits)?;
    let encoded: usize = checked_add(6 * FIELD_BOUND, key, Resource::PlanEncodedBytes, limits)?;
    let encoded: usize = checked_add(encoded, value, Resource::PlanEncodedBytes, limits)?;
    let encoded: usize = checked_add(tally.encoded, encoded, Resource::PlanEncodedBytes, limits)?;
    Ok(MetadataTally { encoded, dynamic, work: tally.work })
}

fn metadata_map_bound(entries: usize, limits: &TaskLimits) -> (r: Result<usize, PlanAdmissionError>)
    ensures
        r == map_bound(entries as nat, *limits),
{
    if entries == 0 {
        return Ok(0);
    }
    let scaled: usize = check_total(
        &CheckedUsize::new(entries).mul_value(8),
        Resource::MetadataAllocatedBytes,
        limits,
    )?;
    let minimum: usize = match scaled.checked_add(6) {
        Some(sum) => sum / 7,
        None => return Err(uncounted_total(Resource::MetadataAllocatedBytes, limits)),
    };
    let buckets: usize = match power_of_two(minimum) {
        Some(power) => if power >= 4 {
            power
        } else {
            4
        },
        None => return Err(uncounted_total(Resource::MetadataAllocatedBytes, limits)),
    };
    let payload: usize = check_total(
        &CheckedUsize::new(buckets).mul_checked(&size::<(String, MetadataValue)>().add_value(1)),
        Resource::MetadataAllocatedBytes,
        limits,
    )?;
    checked_add(payload, 31, Resource::MetadataAllocatedBytes, limits)
}

fn count_metadata(metadata: &[PlanMetadataEntry], limits: &TaskLimits) -> (r: Result<
    MetadataTally,
    PlanAdmissionError,
>)
    ensures
        r == metadata_counted(metadata@, *limits),
{
    let mut tally = MetadataTally { encoded: 0, dynamic: 0, work: 0 };
    let ghost zero = tally;
    let mut i: usize = 0;
    while i < metadata.len()
        invariant
            i <= metadata@.len(),
            zero == (MetadataTally { encoded: 0, dynamic: 0, work: 0 }),
            entries_counted(metadata@, 0, zero, *limits) == entries_counted(
                metadata@,
                i as int,
                tally,
                *limits,
            ),
        decreases metadata@.len() - i,
    {
        if same_text(metadata[i].key, "delta.metadataSpec") {
            return Err(PlanAdmissionError::UnsupportedMetadata);
        }
        let work: usize = compare_keys(metadata, i, tally.work, limits)?;
        let before = MetadataTally { encoded: tally.encoded, dynamic: tally.dynamic, work };
        tally = count_entry(&metadata[i], before, limits)?;
        i += 1;
    }
    let copies: usize = check_total(
        &CheckedUsize::new(tally.dynamic).mul_value(2),
        Resource::MetadataAllocatedBytes,
        limits,
    )?;
    let slots: usize = check_total(
        &CheckedUsize::new(metadata.len()).mul_checked(&size::<MetadataEntry>()),
        Resource::MetadataAllocatedBytes,
        limits,
    )?;
    let owned: usize = checked_add(copies, slots, Resource::MetadataAllocatedBytes, limits)?;
    let index: usize = metadata_map_bound(metadata.len(), limits)?;
    let dynamic: usize = checked_add(owned, index, Resource::MetadataAllocatedBytes, limits)?;
    Ok(MetadataTally { encoded: tally.encoded, dynamic, work: tally.work })
}

fn own_values(values: FixedValues, limits: &TaskLimits) -> (r: Result<usize, PlanAdmissionError>)
    ensures
        r == values_owned(values, *limits),
{
    match values {
        FixedValues::I64(_) => Ok(0),
        FixedValues::String(texts) => {
            let mut used: usize = 0;
            let mut i: usize = 0;
            while i < texts.len()
                invariant
                    i <= texts@.len(),
                    values == FixedValues::String(texts),
                    texts_owned(texts@, 0, 0, *limits) == texts_owned(
                        texts@,
                        i as int,
                        used,
                        *limits,
                    ),
                decreases texts@.len() - i,
            {
                used = checked_add(used, byte_len(texts[i]), Resource::TaskStateBytes, limits)?;
                i += 1;
            }
            Ok(used)
        },
    }
}

fn add_part(
    total: usize,
    part: &CheckedUsize,
    limits: &TaskLimits,
    Ghost(parts): Ghost<Seq<nat>>,
    Ghost(i): Ghost<int>,
) -> (r: Result<usize, PlanAdmissionError>)
    requires
        0 <= i < parts.len(),
        part@ == parts[i],
    ensures
        match r {
            Ok(sum) => summed(parts, i, total, *limits) == summed(parts, i + 1, sum, *limits),
            Err(error) => summed(parts, i, total, *limits) == Err::<usize, PlanAdmissionError>(
                error,
            ),
        },
{
    check_total(&plus(&CheckedUsize::new(total), part), Resource::TaskStateBytes, limits)
}

fn fixed_plan_backing_bound(
    name: usize,
    metadata: usize,
    rows: usize,
    texts: usize,
    limits: &TaskLimits,
) -> (r: Result<usize, PlanAdmissionError>)
    ensures
        r == plan_owned(name as nat, metadata, rows as nat, texts, *limits),
{
    let slots: usize = check_total(
        &CheckedUsize::new(rows).mul_checked(&plus(&size::<Vec<Scalar>>(), &size::<Scalar>())),
        Resource::TaskStateBytes,
        limits,
    )?;
    let ghost parts = column_parts(name as nat);
    let field = size::<(String, StructField)>().mul_value(4);
    let shared = size::<usize>().mul_value(2);
    let label = CheckedUsize::new(name);
    let schema: usize = add_part(0, &field, limits, Ghost(parts), Ghost(0))?;
    let schema: usize = add_part(schema, &size::<StructType>(), limits, Ghost(parts), Ghost(1))?;
    let schema: usize = add_part(schema, &shared, limits, Ghost(parts), Ghost(2))?;
    let schema: usize = add_part(schema, &CheckedUsize::new(6), limits, Ghost(parts), Ghost(3))?;
    let schema: usize = add_part(schema, &label, limits, Ghost(parts), Ghost(4))?;
    let schema: usize = add_part(schema, &label, limits, Ghost(parts), Ghost(5))?;
    let ghost whole = Seq::<nat>::empty().push(schema as nat).push(size_of::<PlanNode>()).push(
        texts as nat,
    ).push(metadata as nat);
    let total: usize = add_part(
        slots,
        &CheckedUsize::new(schema),
        limits,
        Ghost(whole),
        Ghost(0),
    )?;
    let total: usize = add_part(total, &size::<PlanNode>(), limits, Ghost(whole), Ghost(1))?;
    let total: usize = add_part(
        total,
        &CheckedUsize::new(texts),
        limits,
        Ghost(whole),
        Ghost(2),
    )?;
    add_part(total, &CheckedUsize::new(metadata), limits, Ghost(whole), Ghost(3))
}

fn copy_value(value: &MetadataValue) -> (copy: MetadataValue)
    requires
        !(value is Other),
    ensures
        same_value(*value, copy),
{
    match value {
        MetadataValue::Number(number) => MetadataValue::Number(*number),
        MetadataValue::Boolean(truth) => MetadataValue::Boolean(*truth),
        MetadataValue::String(text) => MetadataValue::String(text.as_str().to_owned()),
        MetadataValue::Other(_) => MetadataValue::Boolean(false),
    }
}

fn copy_entries(metadata: &[PlanMetadataEntry]) -> (owned: Vec<MetadataEntry>)
    requires
        forall|i: int| 0 <= i < metadata@.len() ==> !((#[trigger] metadata@[i]).content() is Other),
    ensures
        copied(metadata@, owned@),
{
    let mut owned: Vec<MetadataEntry> = Vec::with_capacity(metadata.len());
    let mut i: usize = 0;
    while i < metadata.len()
        invariant
            i <= metadata@.len(),
            forall|j: int|
                0 <= j < metadata@.len() ==> !((#[trigger] metadata@[j]).content() is Other),
            copied(metadata@.take(i as int), owned@),
        decreases metadata@.len() - i,
    {
        assert(!(metadata@[i as int].content() is Other));
        owned.push(
            MetadataEntry {
                key: metadata[i].key.to_owned(),
                value: copy_value(metadata[i].value),
            },
        );
        i += 1;
    }
    assert(metadata@.take(i as int) =~= metadata@);
    owned
}

fn literal_rows(values: FixedValues) -> (rows: Vec<Vec<Scalar>>)
    ensures
        rows@.len() == values.count(),
        forall|i: int|
            0 <= i < rows@.len() ==> (#[trigger] rows@[i])@.len() == 1 && values.holds(
                i,
                rows@[i]@[0],
            ),
{
    let count: usize = values.len();
    let mut rows: Vec<Vec<Scalar>> = Vec::with_capacity(count);
    let mut i: usize = 0;
    while i < count
        invariant
            i <= count == values.count(),
            rows@.len() == i,
            forall|j: int|
                0 <= j < i ==> (#[trigger] rows@[j])@.len() == 1 && values.holds(j, rows@[j]@[0]),
        decreases count - i,
    {
        let mut row: Vec<Scalar> = Vec::with_capacity(1);
        match values {
            FixedValues::I64(values) => row.push(Scalar::Long(values[i])),
            FixedValues::String(values) => row.push(Scalar::String(values[i].to_owned())),
        }
        rows.push(row);
        i += 1;
    }
    rows
}

/// The bytes of the texts from `i` on.
pub open spec fn text_total(values: Seq<&str>, i: int) -> nat
    decreases values.len() - i,
{
    if i >= values.len() {
        0
    } else {
        utf8(values[i]@).len() + text_total(values, i + 1)
    }
}

/// The bytes that the values own.
pub open spec fn value_bytes(values: FixedValues) -> nat {
    match values {
        FixedValues::I64(_) => 0,
        FixedValues::String(texts) => text_total(texts@, 0),
    }
}

/// The sum of the parts from `i` on.
pub open spec fn parts_total(parts: Seq<nat>, i: int) -> nat
    decreases parts.len() - i,
{
    if i >= parts.len() {
        0
    } else {
        parts[i] + parts_total(parts, i + 1)
    }
}

proof fn sums_are_exact(parts: Seq<nat>, i: int, total: usize, limits: TaskLimits)
    requires
        0 <= i,
    ensures
        summed(parts, i, total, limits) matches Ok(sum) ==> {
            &&& sum == total + parts_total(parts, i)
            &&& i < parts.len() ==> sum <= limits.allowance(Resource::TaskStateBytes)
        },
    decreases parts.len() - i,
{
    if i < parts.len() {
        let next = bounded(limits, Resource::TaskStateBytes, total + parts[i]);
        if next is Ok {
            sums_are_exact(parts, i + 1, next->Ok_0, limits);
        }
    }
}

proof fn owned_texts_are_exact(values: Seq<&str>, i: int, used: usize, limits: TaskLimits)
    requires
        0 <= i,
    ensures
        texts_owned(values, i, used, limits) matches Ok(total) ==> total == used + text_total(
            values,
            i,
        ),
    decreases values.len() - i,
{
    if i < values.len() {
        let next = bounded(limits, Resource::TaskStateBytes, used + utf8(values[i]@).len());
        if next is Ok {
            owned_texts_are_exact(values, i + 1, next->Ok_0, limits);
        }
    }
}

/// The backing of an admitted plan of one literal column is the sum of its owners: the row
/// containers, the schema, the node, the texts and the metadata. It is within its allowance, and so
/// is the metadata.
pub proof fn admitted_backing_is_the_sum_of_owners(
    name: Seq<char>,
    entries: Seq<PlanMetadataEntry>,
    values: FixedValues,
    limits: TaskLimits,
)
    requires
        fixed_admitted(name, entries, values, limits) is Ok,
    ensures
        fixed_admitted(name, entries, values, limits) matches Ok(view) && {
            &&& view.backing == values.count() * (size_of::<Vec<Scalar>>() + size_of::<Scalar>())
                + column_owners(utf8(name).len()) + size_of::<PlanNode>() + value_bytes(values)
                + view.metadata
            &&& view.backing <= limits.allowance(Resource::TaskStateBytes)
            &&& view.metadata <= limits.allowance(Resource::MetadataAllocatedBytes)
        },
{
    let view = fixed_admitted(name, entries, values, limits)->Ok_0;
    let tally = metadata_counted(entries, limits)->Ok_0;
    let texts = values_owned(values, limits)->Ok_0;
    if let FixedValues::String(list) = values {
        owned_texts_are_exact(list@, 0, 0, limits);
    }
    let length = utf8(name).len();
    let slots = bounded(
        limits,
        Resource::TaskStateBytes,
        (values.count() * (size_of::<Vec<Scalar>>() + size_of::<Scalar>())) as int,
    )->Ok_0;
    let columns = column_parts(length);
    sums_are_exact(columns, 0, 0, limits);
    reveal_with_fuel(parts_total, 7);
    assert(parts_total(columns, 0) == column_owners(length));
    let schema = summed(columns, 0, 0, limits)->Ok_0;
    let whole = Seq::<nat>::empty().push(schema as nat).push(size_of::<PlanNode>()).push(
        texts as nat,
    ).push(view.metadata as nat);
    sums_are_exact(whole, 0, slots, limits);
    assert(parts_total(whole, 0) == schema + size_of::<PlanNode>() + texts + view.metadata);
}

/// An amount is bounded exactly by its allowance, and then as it is.
pub proof fn amounts_are_bounded_by_their_allowance(
    limits: TaskLimits,
    resource: Resource,
    total: int,
)
    requires
        0 <= total,
    ensures
        bounded(limits, resource, total) is Ok <==> total <= limits.allowance(resource),
        bounded(limits, resource, total) matches Ok(admitted) ==> admitted == total,
        bounded(limits, resource, total) matches Err(error) ==> {
            &&& error matches PlanAdmissionError::ResourceExhausted(error)
            &&& error.resource == resource
            &&& error.limit == limits.allowance(resource)
            &&& total <= usize::MAX ==> error.observed == total
        },
{
}

/// The work of comparing the key at `i` with those from `j` on in front of it: both keys, and a step.
pub open spec fn comparison_work(entries: Seq<PlanMetadataEntry>, i: int, j: int) -> nat
    decreases i - j,
{
    if j >= i {
        0
    } else {
        1 + utf8(entries[i].name()).len() + utf8(entries[j].name()).len() + comparison_work(
            entries,
            i,
            j + 1,
        )
    }
}

/// The work of comparing every key from the one at `i` on.
pub open spec fn work_from(entries: Seq<PlanMetadataEntry>, i: int) -> nat
    decreases entries.len() - i,
{
    if i >= entries.len() {
        0
    } else {
        comparison_work(entries, i, 0) + work_from(entries, i + 1)
    }
}

/// The bytes of a value's text.
pub open spec fn text_of(value: MetadataValue) -> nat {
    match value {
        MetadataValue::String(text) => utf8(text@).len(),
        _ => 0,
    }
}

/// The bytes of the keys and texts from the entry at `i` on.
pub open spec fn owned_from(entries: Seq<PlanMetadataEntry>, i: int) -> nat
    decreases entries.len() - i,
{
    if i >= entries.len() {
        0
    } else {
        utf8(entries[i].name()).len() + text_of(entries[i].content()) + owned_from(entries, i + 1)
    }
}

/// The bytes that encode the entries from the one at `i` on: six wire fields, the key, and the text or
/// ten bytes.
pub open spec fn encoded_from(entries: Seq<PlanMetadataEntry>, i: int) -> nat
    decreases entries.len() - i,
{
    if i >= entries.len() {
        0
    } else {
        72 + utf8(entries[i].name()).len() + (if entries[i].content() is String {
            text_of(entries[i].content())
        } else {
            10
        }) + encoded_from(entries, i + 1)
    }
}

/// The entries from the one at `i` on have plain values and keys of their own.
pub open spec fn plain_from(entries: Seq<PlanMetadataEntry>, i: int) -> bool {
    &&& forall|j: int|
        i <= j < entries.len() ==> {
            &&& !((#[trigger] entries[j]).content() is Other)
            &&& utf8(entries[j].name()) != utf8("delta.metadataSpec"@)
        }
    &&& forall|j: int, k: int|
        i <= j < entries.len() && 0 <= k < j ==> utf8((#[trigger] entries[j]).name()) != utf8(
            (#[trigger] entries[k]).name(),
        )
}

proof fn keys_are_compared_exactly(
    entries: Seq<PlanMetadataEntry>,
    i: int,
    j: int,
    work: usize,
    limits: TaskLimits,
)
    requires
        0 <= j <= i < entries.len(),
        work <= limits.allowance(Resource::WorkUnits),
    ensures
        compared(entries, i, j, work, limits) is Ok <==> {
            &&& work + comparison_work(entries, i, j) <= limits.allowance(Resource::WorkUnits)
            &&& forall|k: int|
                j <= k < i ==> utf8(entries[i].name()) != utf8((#[trigger] entries[k]).name())
        },
        compared(entries, i, j, work, limits) matches Ok(total) ==> total == work + comparison_work(
            entries,
            i,
            j,
        ),
    decreases i - j,
{
    if j < i {
        let key = utf8(entries[i].name()).len();
        let step = work + 1 + key + utf8(entries[j].name()).len();
        if step <= limits.allowance(Resource::WorkUnits) {
            keys_are_compared_exactly(entries, i, j + 1, step as usize, limits);
            assert(entries[j] == entries[j]);
        }
    }
}

proof fn entries_are_counted_exactly(
    entries: Seq<PlanMetadataEntry>,
    i: int,
    tally: MetadataTally,
    limits: TaskLimits,
)
    requires
        0 <= i <= entries.len(),
        tally.work <= limits.allowance(Resource::WorkUnits),
        tally.encoded <= limits.allowance(Resource::PlanEncodedBytes),
        tally.dynamic <= limits.allowance(Resource::MetadataAllocatedBytes),
    ensures
        entries_counted(entries, i, tally, limits) is Ok <==> {
            &&& plain_from(entries, i)
            &&& tally.work + work_from(entries, i) <= limits.allowance(Resource::WorkUnits)
            &&& tally.dynamic + owned_from(entries, i) <= limits.allowance(
                Resource::MetadataAllocatedBytes,
            )
            &&& tally.encoded + encoded_from(entries, i) <= limits.allowance(
                Resource::PlanEncodedBytes,
            )
        },
        entries_counted(entries, i, tally, limits) matches Ok(total) ==> {
            &&& total.work == tally.work + work_from(entries, i)
            &&& total.dynamic == tally.dynamic + owned_from(entries, i)
            &&& total.encoded == tally.encoded + encoded_from(entries, i)
        },
    decreases entries.len() - i,
{
    if i < entries.len() {
        keys_are_compared_exactly(entries, i, 0, tally.work, limits);
        let entry = entries[i];
        let here = !(entry.content() is Other) && utf8(entry.name()) != utf8("delta.metadataSpec"@)
            && forall|k: int| 0 <= k < i ==> utf8(entry.name()) != utf8((#[trigger] entries[k]).name());
        assert(plain_from(entries, i) <==> here && plain_from(entries, i + 1)) by {
            if plain_from(entries, i) {
                assert(entries[i] == entry);
            }
            if here && plain_from(entries, i + 1) {
                assert forall|j: int, k: int|
                    i <= j < entries.len() && 0 <= k < j implies utf8((#[trigger] entries[j]).name())
                    != utf8((#[trigger] entries[k]).name()) by {
                    if j == i {
                        assert(utf8(entry.name()) != utf8(entries[k].name()));
                    }
                }
            }
        }
        if let Ok(work) = compared(entries, i, 0, tally.work, limits) {
            let next = MetadataTally { encoded: tally.encoded, dynamic: tally.dynamic, work };
            assert(FIELD_BOUND == 12);
            if let Ok(after) = entry_counted(entry, next, limits) {
                entries_are_counted_exactly(entries, i + 1, after, limits);
            }
        }
    }
}

/// Metadata is accepted exactly where every key is its own and not that of a metadata column, every
/// value is plain, and the comparisons, the encoding and all that is owned are within their
/// allowances: two copies of every key and text, a slot for each entry, and an index.
pub proof fn plain_metadata_is_accepted(entries: Seq<PlanMetadataEntry>, limits: TaskLimits)
    ensures
        ({
            let counted = metadata_counted(entries, limits);
            let bytes = limits.allowance(Resource::MetadataAllocatedBytes);
            &&& counted is Ok <==> {
                &&& forall|j: int|
                    0 <= j < entries.len() ==> {
                        &&& !((#[trigger] entries[j]).content() is Other)
                        &&& utf8(entries[j].name()) != utf8("delta.metadataSpec"@)
                    }
                &&& forall|j: int, k: int|
                    0 <= k < j < entries.len() ==> utf8((#[trigger] entries[j]).name()) != utf8(
                        (#[trigger] entries[k]).name(),
                    )
                &&& work_from(entries, 0) <= limits.allowance(Resource::WorkUnits)
                &&& encoded_from(entries, 0) <= limits.allowance(Resource::PlanEncodedBytes)
                &&& map_bound(entries.len(), limits) matches Ok(index)
                &&& 2 * owned_from(entries, 0) + entries.len() * size_of::<MetadataEntry>() + index
                    <= bytes
            }
            &&& counted matches Ok(tally) ==> {
                &&& tally.work == work_from(entries, 0)
                &&& tally.encoded == encoded_from(entries, 0)
                &&& tally.dynamic == 2 * owned_from(entries, 0) + entries.len() * size_of::<
                    MetadataEntry,
                >() + map_bound(entries.len(), limits)->Ok_0
            }
        }),
{
    entries_are_counted_exactly(
        entries,
        0,
        MetadataTally { encoded: 0, dynamic: 0, work: 0 },
        limits,
    );
    assert(entries.len() * size_of::<MetadataEntry>() >= 0) by (nonlinear_arith);
}

proof fn sums_are_bounded_by_their_allowance(
    parts: Seq<nat>,
    i: int,
    total: usize,
    limits: TaskLimits,
)
    requires
        0 <= i <= parts.len(),
        total <= limits.allowance(Resource::TaskStateBytes),
    ensures
        summed(parts, i, total, limits) is Ok <==> total + parts_total(parts, i)
            <= limits.allowance(Resource::TaskStateBytes),
        summed(parts, i, total, limits) matches Ok(sum) ==> sum == total + parts_total(parts, i),
    decreases parts.len() - i,
{
    if i < parts.len() && total + parts[i] <= limits.allowance(Resource::TaskStateBytes) {
        sums_are_bounded_by_their_allowance(parts, i + 1, (total + parts[i]) as usize, limits);
    }
}

proof fn texts_are_bounded_by_their_allowance(
    values: Seq<&str>,
    i: int,
    used: usize,
    limits: TaskLimits,
)
    requires
        0 <= i <= values.len(),
        used <= limits.allowance(Resource::TaskStateBytes),
    ensures
        texts_owned(values, i, used, limits) is Ok <==> used + text_total(values, i)
            <= limits.allowance(Resource::TaskStateBytes),
        texts_owned(values, i, used, limits) matches Ok(sum) ==> sum == used + text_total(values, i),
    decreases values.len() - i,
{
    if i < values.len() {
        let next = used + utf8(values[i]@).len();
        if next <= limits.allowance(Resource::TaskStateBytes) {
            texts_are_bounded_by_their_allowance(values, i + 1, next as usize, limits);
        }
    }
}

/// A fixed plan is admitted exactly where its metadata is accepted, its shape is within its limits,
/// and all that it owns fits into the task's storage: a slot and a value for each row, the column, the
/// node, the texts and the metadata.
pub proof fn fixed_plans_are_admitted_within_their_allowances(
    name: Seq<char>,
    entries: Seq<PlanMetadataEntry>,
    values: FixedValues,
    limits: TaskLimits,
)
    ensures
        fixed_admitted(name, entries, values, limits) is Ok <==> {
            &&& metadata_counted(entries, limits) matches Ok(tally)
            &&& announced(name, values, tally.encoded, tally.work, limits) is Ok
            &&& values.count() * (size_of::<Vec<Scalar>>() + size_of::<Scalar>()) + column_owners(
                utf8(name).len(),
            ) + size_of::<PlanNode>() + value_bytes(values) + tally.dynamic <= limits.allowance(
                Resource::TaskStateBytes,
            )
        },
        fixed_admitted(name, entries, values, limits) matches Ok(view) ==> {
            &&& metadata_counted(entries, limits) matches Ok(tally)
            &&& view.metadata == tally.dynamic
        },
{
    if let FixedValues::String(list) = values {
        texts_are_bounded_by_their_allowance(list@, 0, 0, limits);
    }
    let length = utf8(name).len();
    let columns = column_parts(length);
    sums_are_bounded_by_their_allowance(columns, 0, 0, limits);
    reveal_with_fuel(parts_total, 7);
    assert(parts_total(columns, 0) == column_owners(length));
    let slots = values.count() * (size_of::<Vec<Scalar>>() + size_of::<Scalar>());
    assert(slots >= 0) by (nonlinear_arith)
        requires
            slots == values.count() * (size_of::<Vec<Scalar>>() + size_of::<Scalar>()),
    ;
    if let (Ok(tally), Ok(texts), Ok(schema)) = (
        metadata_counted(entries, limits),
        values_owned(values, limits),
        summed(columns, 0, 0, limits),
    ) {
        let whole = Seq::<nat>::empty().push(schema as nat).push(size_of::<PlanNode>()).push(
            texts as nat,
        ).push(tally.dynamic as nat);
        assert(parts_total(whole, 0) == schema + size_of::<PlanNode>() + texts + tally.dynamic);
        if slots <= limits.allowance(Resource::TaskStateBytes) {
            sums_are_bounded_by_their_allowance(whole, 0, slots as usize, limits);
        }
    }
}

/// A value is found by its key exactly where an entry has the key, and it is that of the first one.
pub proof fn values_are_found_by_their_keys(entries: Seq<MetadataEntry>, key: Seq<char>)
    ensures
        match value_of(entries, key) {
            Some(value) => exists|i: int|
                {
                    &&& 0 <= i < entries.len()
                    &&& (#[trigger] entries[i]).key@ == key
                    &&& entries[i].value == value
                    &&& forall|j: int| 0 <= j < i ==> (#[trigger] entries[j]).key@ != key
                },
            None => forall|j: int| 0 <= j < entries.len() ==> (#[trigger] entries[j]).key@ != key,
        },
    decreases entries.len(),
{
    if entries.len() > 0 {
        let rest = entries.drop_first();
        vstd::utf8::encode_utf8_decode_utf8(entries[0].key@);
        vstd::utf8::encode_utf8_decode_utf8(key);
        values_are_found_by_their_keys(rest, key);
        if entries[0].key@ != key {
            match value_of(rest, key) {
                Some(value) => {
                    let i = choose|i: int|
                        {
                            &&& 0 <= i < rest.len()
                            &&& (#[trigger] rest[i]).key@ == key
                            &&& rest[i].value == value
                            &&& forall|j: int| 0 <= j < i ==> (#[trigger] rest[j]).key@ != key
                        };
                    assert forall|j: int| 0 <= j < i + 1 implies (#[trigger] entries[j]).key@
                        != key by {
                        if j > 0 {
                            assert(rest[j - 1] == entries[j]);
                        }
                    }
                    assert(entries[i + 1] == rest[i]);
                },
                None => {
                    assert forall|j: int| 0 <= j < entries.len() implies (#[trigger] entries[j]).key@
                        != key by {
                        if j > 0 {
                            assert(rest[j - 1] == entries[j]);
                        }
                    }
                },
            }
        }
    }
}

} // verus!
