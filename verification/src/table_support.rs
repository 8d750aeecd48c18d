//! The tables that JSON operations support, and the bounds that they hand on.

use crate::accounting::{Resource, TaskLimits};
use crate::evaluation::{EvaluationLimits, EvaluationPageLimits};
use crate::failure::{Error, ErrorSource, FailureKind, OperationFailure, TaskProtocolError};
use crate::refusals::{told, Refusal};
use crate::rows::outside;
use crate::schema::{DataType, PrimitiveType, StructField};
use crate::sizing::{fitted, plus, text_bytes, text_total};
use crate::table::{Metadata, PmCandidate, Protocol};
use vstd::arithmetic::overflow::CheckedUsize;
use vstd::prelude::*;

verus! {

/// The bounds of a task's evaluation, where they permit progress.
pub open spec fn evaluation_bounds(limits: TaskLimits) -> Result<EvaluationLimits, Refusal> {
    let batches = limits.allowance(Resource::EvaluationPageBatches);
    let rows = limits.allowance(Resource::EvaluationPageRows);
    let bytes = limits.allowance(Resource::EvaluationPageBytes);
    if EvaluationPageLimits::progresses(batches, rows, bytes) {
        Ok(
            EvaluationLimits::of(
                EvaluationPageLimits::of(batches, rows, bytes),
                limits.allowance(Resource::EvaluationPages),
                limits.allowance(Resource::EvaluationBatches),
                limits.allowance(Resource::EvaluationRows),
                limits.allowance(Resource::EvaluationBytes),
            ),
        )
    } else {
        Err(
            Refusal::Carried(
                Error::GenericError {
                    source: ErrorSource::Protocol(TaskProtocolError::InvalidLimits),
                },
            ),
        )
    }
}

/// Returns the bounds of a task's evaluation.
pub fn task_evaluation_limits(limits: &TaskLimits) -> (r: Result<EvaluationLimits, OperationFailure>)
    ensures
        told(evaluation_bounds(*limits), r),
{
    match EvaluationPageLimits::new(
        limits.limit(Resource::EvaluationPageBatches),
        limits.limit(Resource::EvaluationPageRows),
        limits.limit(Resource::EvaluationPageBytes),
    ) {
        Ok(page) => Ok(
            EvaluationLimits::new(
                page,
                limits.limit(Resource::EvaluationPages),
                limits.limit(Resource::EvaluationBatches),
                limits.limit(Resource::EvaluationRows),
                limits.limit(Resource::EvaluationBytes),
            ),
        ),
        Err(error) => Err(
            OperationFailure::engine(Error::generic_err(ErrorSource::Protocol(error))),
        ),
    }
}

/// The owners of a canonical root of `bytes` bytes and of the log directory in it. A URL owns one
/// text; a missing slash is appended, and so is the name of the directory.
pub open spec fn root_owners(bytes: nat) -> nat {
    text_bytes(bytes + 1) + text_bytes(bytes + 12)
}

/// Bounds the owners of a root and of the log directory in it.
pub fn root_owner_peak(bytes: usize) -> (r: Option<usize>)
    ensures
        r == fitted(root_owners(bytes as nat) as int),
{
    let canonical = CheckedUsize::new(bytes).add_value(1);
    plus(&text_total(&canonical), &text_total(&canonical.add_value(11))).to_option()
}

/// The protocol is one that JSON operations support: reader version one, writer version two at
/// most, and no features.
pub open spec fn protocol_supported(protocol: Protocol) -> bool {
    &&& protocol.min_reader_version == 1
    &&& protocol.min_writer_version <= 2
    &&& !(protocol.reader_features matches Some(features) && features@.len() > 0)
    &&& !(protocol.writer_features matches Some(features) && features@.len() > 0)
}

/// What replayed actions give for a history of a version.
///
/// Both actions are there, the metadata is the first version's, the protocol's version is one of
/// the history, and the table is neither featured nor partitioned.
pub open spec fn actions_supported(candidate: Option<PmCandidate>, version: Option<u64>) -> Result<
    (Metadata, Protocol),
    Refusal,
> {
    match candidate {
        None => Err(Refusal::Carried(Error::MissingMetadataAndProtocol)),
        Some(candidate) => match candidate.metadata {
            None => Err(Refusal::Carried(Error::MissingMetadata)),
            Some((metadata_version, metadata)) => match candidate.protocol {
                None => Err(Refusal::Carried(Error::MissingProtocol)),
                Some((protocol_version, protocol)) => match version {
                    None => Err(Refusal::Kind(FailureKind::MalformedResponse)),
                    Some(version) => if metadata_version != 0 {
                        Err(
                            Refusal::Unsupported(
                                "metadata evolution is outside JSON operation tasks"@,
                            ),
                        )
                    } else if protocol_version < 0 || protocol_version > version {
                        Err(Refusal::Kind(FailureKind::MalformedResponse))
                    } else if !protocol_supported(protocol) {
                        Err(
                            Refusal::Unsupported(
                                "table protocol/features are outside JSON operation tasks"@,
                            ),
                        )
                    } else if metadata.partition_columns@.len() > 0 {
                        Err(
                            Refusal::Unsupported(
                                "partitioned tables are outside JSON operation tasks"@,
                            ),
                        )
                    } else {
                        Ok((metadata, protocol))
                    },
                },
            },
        },
    }
}

/// Takes the replayed actions of a history, where JSON operations support them.
pub fn take_actions(candidate: Option<PmCandidate>, version: Option<u64>) -> (r: Result<
    (Metadata, Protocol),
    OperationFailure,
>)
    ensures
        told(actions_supported(candidate, version), r),
{
    let candidate = match candidate {
        Some(candidate) => candidate,
        None => return Err(OperationFailure::engine(Error::MissingMetadataAndProtocol)),
    };
    let (metadata_version, metadata) = match candidate.metadata {
        Some(metadata) => metadata,
        None => return Err(OperationFailure::engine(Error::MissingMetadata)),
    };
    let (protocol_version, protocol) = match candidate.protocol {
        Some(protocol) => protocol,
        None => return Err(OperationFailure::engine(Error::MissingProtocol)),
    };
    let version: u64 = match version {
        Some(version) => version,
        None => return Err(OperationFailure::malformed_response()),
    };
    if metadata_version != 0 {
        return Err(outside("metadata evolution is outside JSON operation tasks"));
    }
    if protocol_version < 0 || protocol_version as u64 > version {
        return Err(OperationFailure::malformed_response());
    }
    let reader_features = match &protocol.reader_features {
        Some(features) => features.len() > 0,
        None => false,
    };
    let writer_features = match &protocol.writer_features {
        Some(features) => features.len() > 0,
        None => false,
    };
    if protocol.min_reader_version != 1 || protocol.min_writer_version > 2 || reader_features
        || writer_features {
        return Err(outside("table protocol/features are outside JSON operation tasks"));
    }
    if metadata.partition_columns.len() > 0 {
        return Err(outside("partitioned tables are outside JSON operation tasks"));
    }
    Ok((metadata, protocol))
}

/// What one field of a configured table gives.
pub open spec fn field_supported(field: StructField) -> Result<(), Refusal> {
    if field.metadata@.len() > 0 {
        Err(Refusal::Unsupported("JSON operation tasks require plain primitive fields"@))
    } else {
        match field.data_type {
            DataType::Primitive(ty) => if ty is Void || ty is IntervalYearMonth
                || ty is IntervalDayTime {
                Err(Refusal::Unsupported("primitive type is outside JSON operation tasks"@))
            } else {
                Ok(())
            },
            _ => Err(Refusal::Unsupported("JSON operation tasks require plain primitive fields"@)),
        }
    }
}

/// What the fields from `i` on give: the first that is refused decides.
pub open spec fn fields_supported(fields: Seq<StructField>, i: int) -> Result<(), Refusal>
    decreases fields.len() - i,
{
    if i >= fields.len() {
        Ok(())
    } else {
        match field_supported(fields[i]) {
            Err(refusal) => Err(refusal),
            Ok(()) => fields_supported(fields, i + 1),
        }
    }
}

/// Checks the fields of a configured table.
pub fn check_fields(fields: &Vec<StructField>) -> (r: Result<(), OperationFailure>)
    ensures
        told(fields_supported(fields@, 0), r),
{
    let mut i: usize = 0;
    while i < fields.len()
        invariant
            i <= fields@.len(),
            fields_supported(fields@, 0) == fields_supported(fields@, i as int),
        decreases fields@.len() - i,
    {
        if fields[i].metadata.len() > 0 {
            return Err(outside("JSON operation tasks require plain primitive fields"));
        }
        match &fields[i].data_type {
            DataType::Primitive(ty) => {
                if matches!(
                    ty,
                    PrimitiveType::Void | PrimitiveType::IntervalYearMonth
                        | PrimitiveType::IntervalDayTime
                ) {
                    return Err(outside("primitive type is outside JSON operation tasks"));
                }
            },
            _ => {
                return Err(outside("JSON operation tasks require plain primitive fields"));
            },
        }
        i += 1;
    }
    Ok(())
}

proof fn later_fields_are_supported(fields: Seq<StructField>, i: int)
    requires
        0 <= i,
        fields_supported(fields, i) is Ok,
    ensures
        forall|j: int| i <= j < fields.len() ==> field_supported(#[trigger] fields[j]) is Ok,
    decreases fields.len() - i,
{
    if i < fields.len() {
        later_fields_are_supported(fields, i + 1);
    }
}

/// In a supported table every field is plain, and none has a type that is outside the subset.
pub proof fn supported_fields_are_plain(fields: Seq<StructField>)
    requires
        fields_supported(fields, 0) is Ok,
    ensures
        crate::json_plans::plain_fields(fields),
        forall|j: int|
            0 <= j < fields.len() ==> !((#[trigger] fields[j]).data_type == DataType::Primitive(
                PrimitiveType::Void,
            )),
{
    later_fields_are_supported(fields, 0);
    assert forall|j: int| 0 <= j < fields.len() implies (#[trigger] fields[j]).data_type is Primitive
        && fields[j].metadata@.len() == 0 by {
        assert(field_supported(fields[j]) is Ok);
    }
}

/// A task's evaluation is bounded by the task's own allowances, and is possible exactly where a page of
/// them can make progress.
pub proof fn evaluations_are_bounded_by_the_allowances(limits: TaskLimits)
    ensures
        evaluation_bounds(limits) is Ok <==> {
            let container = limits.allowance(Resource::EvaluationPageBatches)
                * vstd::layout::size_of::<crate::evaluation::Batch>();
            &&& limits.allowance(Resource::EvaluationPageBatches) > 0
            &&& limits.allowance(Resource::EvaluationPageRows) > 0
            &&& container <= limits.allowance(Resource::EvaluationPageBytes)
            &&& container <= isize::MAX
        },
        evaluation_bounds(limits) matches Ok(bounds) ==> {
            &&& bounds.each().batch_cap() == limits.allowance(Resource::EvaluationPageBatches)
            &&& bounds.each().row_cap() == limits.allowance(Resource::EvaluationPageRows)
            &&& bounds.each().byte_cap() == limits.allowance(Resource::EvaluationPageBytes)
            &&& bounds.page_cap() == limits.allowance(Resource::EvaluationPages)
            &&& bounds.batch_cap() == limits.allowance(Resource::EvaluationBatches)
            &&& bounds.row_cap() == limits.allowance(Resource::EvaluationRows)
            &&& bounds.byte_cap() == limits.allowance(Resource::EvaluationBytes)
        },
{
    let batches = limits.allowance(Resource::EvaluationPageBatches);
    let rows = limits.allowance(Resource::EvaluationPageRows);
    let bytes = limits.allowance(Resource::EvaluationPageBytes);
    crate::evaluation::page_limits_make_progress(batches, rows, bytes);
    crate::evaluation::page_limit_parts(batches, rows, bytes);
    crate::evaluation::limit_parts(
        EvaluationPageLimits::of(batches, rows, bytes),
        limits.allowance(Resource::EvaluationPages),
        limits.allowance(Resource::EvaluationBatches),
        limits.allowance(Resource::EvaluationRows),
        limits.allowance(Resource::EvaluationBytes),
    );
}

/// Replayed actions are taken exactly where both are there, the metadata is the first version's and
/// has no partitions, the protocol's version is one of the history, and it asks for reader version
/// one, for writer version two at most and for no feature. They are taken as they were replayed.
pub proof fn plain_actions_are_taken(candidate: Option<PmCandidate>, version: Option<u64>)
    ensures
        actions_supported(candidate, version) is Ok <==> {
            &&& candidate matches Some(found)
            &&& version matches Some(last)
            &&& found.metadata matches Some((metadata_version, metadata))
            &&& found.protocol matches Some((protocol_version, protocol))
            &&& metadata_version == 0
            &&& metadata.partition_columns@.len() == 0
            &&& 0 <= protocol_version <= last
            &&& protocol.min_reader_version == 1
            &&& protocol.min_writer_version <= 2
            &&& protocol.reader_features is None || protocol.reader_features->0@.len() == 0
            &&& protocol.writer_features is None || protocol.writer_features->0@.len() == 0
        },
        actions_supported(candidate, version) matches Ok((metadata, protocol)) ==> {
            &&& candidate matches Some(found)
            &&& found.metadata matches Some((_, replayed)) && replayed == metadata
            &&& found.protocol matches Some((_, replayed)) && replayed == protocol
        },
        candidate is None ==> actions_supported(candidate, version) == Err::<
            (Metadata, Protocol),
            Refusal,
        >(Refusal::Carried(Error::MissingMetadataAndProtocol)),
        candidate is Some && candidate->0.metadata is None ==> actions_supported(candidate, version)
            == Err::<(Metadata, Protocol), Refusal>(Refusal::Carried(Error::MissingMetadata)),
        candidate is Some && candidate->0.metadata is Some && candidate->0.protocol is None
            ==> actions_supported(candidate, version) == Err::<(Metadata, Protocol), Refusal>(
            Refusal::Carried(Error::MissingProtocol),
        ),
{
}

/// The fields of a table are supported exactly where each has a primitive type other than void and the
/// intervals, and no metadata.
pub proof fn plain_fields_are_supported(fields: Seq<StructField>, i: int)
    requires
        0 <= i,
    ensures
        fields_supported(fields, i) is Ok <==> forall|j: int|
            i <= j < fields.len() ==> {
                &&& (#[trigger] fields[j]).metadata@.len() == 0
                &&& fields[j].data_type matches DataType::Primitive(ty)
                &&& !(ty is Void)
                &&& !(ty is IntervalYearMonth)
                &&& !(ty is IntervalDayTime)
            },
    decreases fields.len() - i,
{
    if i < fields.len() {
        plain_fields_are_supported(fields, i + 1);
        assert(fields[i] == fields[i]);
    }
}

} // verus!
