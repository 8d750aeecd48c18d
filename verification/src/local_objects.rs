//! What is observed of local objects: their times, identities and ranges, and the bounds of their
//! footers.

use crate::accounting::{refusal, FooterLimits, Resource};
use crate::bytes::{same_text, utf8};
use crate::checks::outcome;
use crate::failure::{FailureKind, OperationFailure, ResourceExhausted};
use crate::local_paths::{described, described_by, generic};
use crate::protocol::ObjectIdentity;
use crate::schema::{DataType, StructField};
use crate::sizing::{plus, size};
use vstd::arithmetic::overflow::CheckedUsize;
use vstd::bytes::{spec_u64_from_le_bytes, spec_u64_to_le_bytes, u64_to_le_bytes};
use vstd::layout::size_of;
use vstd::prelude::*;

verus! {

/// A time before or after the epoch, in whole milliseconds.
pub open spec fn signed_millis(millis: u128, before_epoch: bool) -> int {
    if before_epoch {
        -(millis as int)
    } else {
        millis as int
    }
}

/// Calls `i64::try_from`, which gives the same number where it fits. How a number that does not fit
/// is described is not stated.
#[verifier::external_body]
fn fitting_millis(millis: u128) -> (r: Result<i64, String>)
    ensures
        match r {
            Ok(fitting) => fitting == millis,
            Err(_) => millis > i64::MAX,
        },
{
    i64::try_from(millis).map_err(|error| error.to_string())
}

/// Reads a modification time of `millis` milliseconds before or after the epoch. One that overflows
/// after the epoch carries the reason of the conversion.
pub fn modification_time_millis(millis: u128, before_epoch: bool) -> (r: Result<
    i64,
    OperationFailure,
>)
    ensures
        if millis <= i64::MAX {
            r == Ok::<i64, OperationFailure>(signed_millis(millis, before_epoch) as i64)
        } else if before_epoch {
            r matches Err(failure) && generic(failure, "modification time overflow"@)
        } else {
            r matches Err(failure) && exists|reason: Seq<char>|
                generic(failure, #[trigger] ("modification time overflow: "@ + reason))
        },
{
    match fitting_millis(millis) {
        Ok(elapsed) => if before_epoch {
            Ok(-elapsed)
        } else {
            Ok(elapsed)
        },
        Err(reason) => if before_epoch {
            Err(described("modification time overflow"))
        } else {
            let failure = described_by("modification time overflow: ", reason.as_str());
            assert(generic(failure, "modification time overflow: "@ + reason@));
            Err(failure)
        },
    }
}

/// What the file system says of an object's version.
#[derive(Debug, Clone, Copy, PartialEq, Eq, Structural)]
pub struct ObjectFacts {
    /// The device.
    pub device: u64,
    /// The file's number on the device.
    pub inode: u64,
    /// The seconds of its last change.
    pub changed_seconds: u64,
    /// The nanoseconds of its last change.
    pub changed_nanos: u64,
}

/// The bytes of an identity: four little-endian numbers.
pub open spec fn identity_bytes(facts: ObjectFacts) -> Seq<u8> {
    spec_u64_to_le_bytes(facts.device) + spec_u64_to_le_bytes(facts.inode) + spec_u64_to_le_bytes(
        facts.changed_seconds,
    ) + spec_u64_to_le_bytes(facts.changed_nanos)
}

fn put_number(bytes: &mut [u8; 32], at: usize, number: u64)
    requires
        at + 8 <= 32,
    ensures
        final(bytes)@ == old(bytes)@.subrange(0, at as int) + spec_u64_to_le_bytes(number)
            + old(bytes)@.subrange(at + 8, 32),
{
    proof {
        vstd::bytes::lemma_auto_spec_u64_to_from_le_bytes();
    }
    let encoded = u64_to_le_bytes(number);
    let ghost before = bytes@;
    let mut i: usize = 0;
    while i < 8
        invariant
            i <= 8,
            at + 8 <= 32,
            encoded@ == spec_u64_to_le_bytes(number),
            encoded@.len() == 8,
            before.len() == 32,
            bytes@.len() == 32,
            forall|j: int|
                0 <= j < 32 ==> #[trigger] bytes@[j] == if at <= j < at + i {
                    encoded@[j - at]
                } else {
                    before[j]
                },
        decreases 8 - i,
    {
        bytes[at + i] = encoded[i];
        i += 1;
    }
    assert(bytes@ =~= before.subrange(0, at as int) + encoded@ + before.subrange(at + 8, 32));
}

/// Makes the identity of an object's version.
pub fn identity(facts: ObjectFacts) -> (identity: ObjectIdentity)
    ensures
        identity.value() == identity_bytes(facts),
{
    proof {
        vstd::bytes::lemma_auto_spec_u64_to_from_le_bytes();
    }
    let mut bytes: [u8; 32] = [0;32];
    put_number(&mut bytes, 0, facts.device);
    put_number(&mut bytes, 8, facts.inode);
    put_number(&mut bytes, 16, facts.changed_seconds);
    put_number(&mut bytes, 24, facts.changed_nanos);
    assert(bytes@ =~= identity_bytes(facts));
    ObjectIdentity::new(bytes)
}

/// Different facts give different identities.
pub proof fn identities_tell_versions_apart(a: ObjectFacts, b: ObjectFacts)
    requires
        identity_bytes(a) == identity_bytes(b),
    ensures
        a == b,
{
    vstd::bytes::lemma_auto_spec_u64_to_from_le_bytes();
    let x = identity_bytes(a);
    let y = identity_bytes(b);
    assert(x.subrange(0, 8) =~= spec_u64_to_le_bytes(a.device));
    assert(y.subrange(0, 8) =~= spec_u64_to_le_bytes(b.device));
    assert(x.subrange(8, 16) =~= spec_u64_to_le_bytes(a.inode));
    assert(y.subrange(8, 16) =~= spec_u64_to_le_bytes(b.inode));
    assert(x.subrange(16, 24) =~= spec_u64_to_le_bytes(a.changed_seconds));
    assert(y.subrange(16, 24) =~= spec_u64_to_le_bytes(b.changed_seconds));
    assert(x.subrange(24, 32) =~= spec_u64_to_le_bytes(a.changed_nanos));
    assert(y.subrange(24, 32) =~= spec_u64_to_le_bytes(b.changed_nanos));
    assert(spec_u64_from_le_bytes(x.subrange(0, 8)) == a.device);
    assert(spec_u64_from_le_bytes(x.subrange(8, 16)) == a.inode);
    assert(spec_u64_from_le_bytes(x.subrange(16, 24)) == a.changed_seconds);
    assert(spec_u64_from_le_bytes(x.subrange(24, 32)) == a.changed_nanos);
}

/// An object as it was observed once.
#[derive(Debug, Clone, Copy, PartialEq, Eq, Structural)]
pub struct ObservedObject {
    /// Its identity.
    pub facts: ObjectFacts,
    /// Its size.
    pub size: u64,
}

/// What a range of an object gives: whether it ends at the object's end.
pub open spec fn range_read(offset: u64, length: usize, size: u64) -> Result<bool, Seq<char>> {
    if offset + length > u64::MAX {
        Err("local read range overflow"@)
    } else if offset + length > size {
        Err("local read range exceeds object size"@)
    } else {
        Ok(offset + length == size)
    }
}

/// Checks a range of an object, before its destination is reserved.
pub fn check_range(offset: u64, length: usize, size: u64) -> (r: Result<bool, OperationFailure>)
    ensures
        match range_read(offset, length, size) {
            Ok(eof) => r == Ok::<bool, OperationFailure>(eof),
            Err(text) => r matches Err(failure) && generic(failure, text),
        },
{
    let end: u64 = match offset.checked_add(length as u64) {
        Some(end) => end,
        None => return Err(described("local read range overflow")),
    };
    if end > size {
        return Err(described("local read range exceeds object size"));
    }
    Ok(end == size)
}

/// Checks that an object is the one that was expected.
pub fn check_expected(observed: ObjectIdentity, expected: Option<ObjectIdentity>) -> (r: Result<
    (),
    OperationFailure,
>)
    ensures
        if expected matches Some(identity) && identity.value() != observed.value() {
            r matches Err(failure) && generic(failure, "local object identity changed"@)
        } else {
            r is Ok
        },
{
    if let Some(identity) = expected {
        if !identity.same(&observed) {
            return Err(described("local object identity changed"));
        }
    }
    Ok(())
}

/// Checks that an object did not change between two observations.
pub fn check_unchanged(before: ObservedObject, after: ObservedObject, footer: bool) -> (r: Result<
    (),
    OperationFailure,
>)
    ensures
        if before == after {
            r is Ok
        } else if footer {
            r matches Err(failure) && generic(
                failure,
                "local object changed during footer decoding"@,
            )
        } else {
            r matches Err(failure) && generic(failure, "local object changed during exact read"@)
        },
{
    if before == after {
        Ok(())
    } else if footer {
        Err(described("local object changed during footer decoding"))
    } else {
        Err(described("local object changed during exact read"))
    }
}

/// The domain of a resource that a footer decoder names.
pub open spec fn decoder_domain(name: Seq<u8>) -> Resource {
    if name == utf8("footer bytes"@) {
        Resource::FooterBytes
    } else if name == utf8("schema elements"@) {
        Resource::SchemaNodes
    } else if name == utf8("schema depth"@) {
        Resource::SchemaDepth
    } else if name == utf8("row groups"@) {
        Resource::RowGroups
    } else if name == utf8("column chunks"@) || name == utf8("column chunks per row group"@) {
        Resource::ColumnChunks
    } else if name == utf8("page index bytes"@) {
        Resource::PageIndexBytes
    } else if name == utf8("page index entries"@) {
        Resource::PageIndexEntries
    } else {
        Resource::MetadataAllocatedBytes
    }
}

/// The failure of a footer decoder that exhausted a resource it names.
pub fn decoder_exhausted(name: &str, limit: usize, observed: usize) -> (failure: OperationFailure)
    ensures
        failure.is_terminal(
            FailureKind::ResourceExhausted(
                ResourceExhausted { resource: decoder_domain(utf8(name@)), limit, observed },
            ),
        ),
{
    let resource = if same_text(name, "footer bytes") {
        Resource::FooterBytes
    } else if same_text(name, "schema elements") {
        Resource::SchemaNodes
    } else if same_text(name, "schema depth") {
        Resource::SchemaDepth
    } else if same_text(name, "row groups") {
        Resource::RowGroups
    } else if same_text(name, "column chunks") || same_text(name, "column chunks per row group") {
        Resource::ColumnChunks
    } else if same_text(name, "page index bytes") {
        Resource::PageIndexBytes
    } else if same_text(name, "page index entries") {
        Resource::PageIndexEntries
    } else {
        Resource::MetadataAllocatedBytes
    };
    OperationFailure::exhausted(ResourceExhausted { resource, limit, observed })
}

/// A decoded field, as far as its conversion is bounded.
#[derive(Debug)]
pub struct DecodedField {
    /// The bytes of its name.
    pub name_bytes: usize,
    /// The bytes of each metadata key and value.
    pub metadata_bytes: Vec<usize>,
    /// Its type.
    pub data_type: DecodedType,
}

/// A decoded type, as far as its conversion is bounded.
#[derive(Debug)]
pub enum DecodedType {
    /// A structure.
    Struct(Vec<DecodedField>),
    /// A list of any width, or a map with its entries.
    Nested(Box<DecodedField>),
    /// A dictionary of values.
    Dictionary(Box<DecodedType>),
    /// A type without parts.
    Leaf,
}

/// The bytes of the first `n` metadata texts.
pub open spec fn metadata_total(bytes: Seq<usize>, n: nat) -> nat
    decreases n,
{
    if n == 0 {
        0
    } else {
        metadata_total(bytes, (n - 1) as nat) + bytes[n - 1] as nat
    }
}

/// What a field itself takes, at a depth, where a decoded field has `width` bytes: both fields,
/// shared owners, two copies of the name and of the metadata, and the name once for each level.
pub open spec fn own_bytes(field: DecodedField, depth: nat, width: nat) -> nat {
    width + size_of::<StructField>() + 8 * size_of::<usize>() + 2 * field.name_bytes as nat + 2
        * metadata_total(field.metadata_bytes@, field.metadata_bytes@.len())
        + field.name_bytes as nat * depth
}

/// What a field takes with everything in it.
pub open spec fn field_bytes(field: DecodedField, depth: nat, width: nat) -> nat
    decreases field,
{
    own_bytes(field, depth, width) + match field.data_type {
        DecodedType::Struct(fields) => fields_bytes(fields@, depth + 1, width, fields@.len()),
        DecodedType::Nested(child) => field_bytes(*child, depth + 1, width),
        DecodedType::Dictionary(value) => type_bytes(*value, depth + 1, width),
        DecodedType::Leaf => 0,
    }
}

/// What a type takes that no field carries.
pub open spec fn type_bytes(ty: DecodedType, depth: nat, width: nat) -> nat
    decreases ty,
{
    match ty {
        DecodedType::Struct(fields) => fields_bytes(fields@, depth, width, fields@.len()),
        DecodedType::Nested(child) => field_bytes(*child, depth, width),
        DecodedType::Dictionary(value) => type_bytes(*value, depth, width),
        DecodedType::Leaf => size_of::<DataType>(),
    }
}

/// What the first `n` fields take.
pub open spec fn fields_bytes(fields: Seq<DecodedField>, depth: nat, width: nat, n: nat) -> nat
    decreases fields, n,
{
    if n == 0 || n > fields.len() {
        0
    } else {
        fields_bytes(fields, depth, width, (n - 1) as nat) + field_bytes(
            fields[n - 1],
            depth,
            width,
        )
    }
}

fn own_total(field: &DecodedField, depth: &CheckedUsize, width: usize) -> (total: CheckedUsize)
    ensures
        total@ == own_bytes(*field, depth@, width as nat),
{
    let mut metadata = CheckedUsize::new(0);
    let mut i: usize = 0;
    while i < field.metadata_bytes.len()
        invariant
            i <= field.metadata_bytes@.len(),
            metadata@ == metadata_total(field.metadata_bytes@, i as nat),
        decreases field.metadata_bytes@.len() - i,
    {
        metadata = metadata.add_value(field.metadata_bytes[i]);
        i += 1;
    }
    let name = CheckedUsize::new(field.name_bytes);
    let fixed = plus(
        &CheckedUsize::new(width),
        &plus(&size::<StructField>(), &size::<usize>().mul_value(8)),
    );
    let path = name.mul_checked(depth);
    plus(&plus(&plus(&fixed, &name.mul_value(2)), &metadata.mul_value(2)), &path)
}

fn field_total(field: &DecodedField, depth: &CheckedUsize, width: usize) -> (total: CheckedUsize)
    ensures
        total@ == field_bytes(*field, depth@, width as nat),
    decreases field,
{
    let own = own_total(field, depth, width);
    let inner = depth.add_value(1);
    match &field.data_type {
        DecodedType::Struct(fields) => {
            let children = fields_total(fields, &inner, width);
            plus(&own, &children)
        },
        DecodedType::Nested(child) => plus(&own, &field_total(child, &inner, width)),
        DecodedType::Dictionary(value) => plus(&own, &type_total(value, &inner, width)),
        DecodedType::Leaf => own,
    }
}

fn type_total(ty: &DecodedType, depth: &CheckedUsize, width: usize) -> (total: CheckedUsize)
    ensures
        total@ == type_bytes(*ty, depth@, width as nat),
    decreases ty,
{
    match ty {
        DecodedType::Struct(fields) => fields_total(fields, depth, width),
        DecodedType::Nested(child) => field_total(child, depth, width),
        DecodedType::Dictionary(value) => type_total(value, depth, width),
        DecodedType::Leaf => size::<DataType>(),
    }
}

fn fields_total(fields: &Vec<DecodedField>, depth: &CheckedUsize, width: usize) -> (total:
    CheckedUsize)
    ensures
        total@ == fields_bytes(fields@, depth@, width as nat, fields@.len()),
    decreases fields,
{
    let mut total = CheckedUsize::new(0);
    let mut i: usize = 0;
    while i < fields.len()
        invariant
            i <= fields@.len(),
            total@ == fields_bytes(fields@, depth@, width as nat, i as nat),
        decreases fields@.len() - i,
    {
        total = plus(&total, &field_total(&fields[i], depth, width));
        i += 1;
    }
    total
}

/// What converting a decoded schema under a limit gives. A bound that the machine cannot hold
/// counts as the largest one that it can.
pub open spec fn schema_bounded(fields: Seq<DecodedField>, width: usize, limit: usize) -> Result<
    (),
    FailureKind,
> {
    let total = fields_bytes(fields, 1, width as nat, fields.len());
    let observed = if total > usize::MAX {
        usize::MAX as nat
    } else {
        total
    };
    if observed > limit {
        Err(
            FailureKind::ResourceExhausted(
                refusal(Resource::MetadataAllocatedBytes, limit, observed),
            ),
        )
    } else {
        Ok(())
    }
}

/// Bounds the conversion of a decoded schema, before any of it is converted.
pub fn check_kernel_schema_bound(fields: &Vec<DecodedField>, width: usize, limit: usize) -> (r: Result<
    (),
    OperationFailure,
>)
    ensures
        outcome(schema_bounded(fields@, width, limit), r),
{
    let observed: usize = match fields_total(fields, &CheckedUsize::new(1), width).to_option() {
        Some(observed) => observed,
        None => usize::MAX,
    };
    if observed > limit {
        return Err(
            OperationFailure::exhausted(
                ResourceExhausted { resource: Resource::MetadataAllocatedBytes, limit, observed },
            ),
        );
    }
    Ok(())
}

/// The limits that a footer decoder is given.
#[derive(Debug, Clone, Copy, PartialEq, Eq, Structural)]
pub struct DecoderLimits {
    /// Bytes of the footer.
    pub footer_bytes: usize,
    /// Elements of the schema.
    pub schema_elements: usize,
    /// Nesting of the schema.
    pub schema_depth: usize,
    /// Row groups.
    pub row_groups: usize,
    /// Column chunks of one row group.
    pub column_chunks_per_row_group: usize,
    /// Column chunks of all row groups.
    pub column_chunks: usize,
    /// Elements of one collection.
    pub collection_elements: usize,
    /// Bytes of one text.
    pub variable_width_bytes: usize,
    /// Bytes of all texts.
    pub total_variable_width_bytes: usize,
    /// Bytes of everything that is decoded.
    pub decoded_bytes: usize,
    /// Bytes of the page index.
    pub page_index_bytes: usize,
    /// Entries of the page index.
    pub page_index_entries: usize,
}

/// What the limits of a footer give a decoder. A schema without any nesting cannot be decoded.
pub open spec fn decoder_bounds(limits: FooterLimits) -> Result<DecoderLimits, FailureKind> {
    if limits.schema_depth == 0 {
        Err(
            FailureKind::ResourceExhausted(
                ResourceExhausted { resource: Resource::SchemaDepth, limit: 0, observed: 1 },
            ),
        )
    } else {
        Ok(
            DecoderLimits {
                footer_bytes: limits.footer_bytes,
                schema_elements: limits.schema_nodes,
                schema_depth: limits.schema_depth,
                row_groups: limits.row_groups,
                column_chunks_per_row_group: limits.column_chunks,
                column_chunks: limits.column_chunks,
                collection_elements: limits.metadata_allocated_bytes,
                variable_width_bytes: limits.metadata_allocated_bytes,
                total_variable_width_bytes: limits.metadata_allocated_bytes,
                decoded_bytes: limits.metadata_allocated_bytes,
                page_index_bytes: limits.page_index_bytes,
                page_index_entries: limits.page_index_entries,
            },
        )
    }
}

/// Returns the limits that a footer decoder is given.
pub fn decoder_limits(limits: FooterLimits) -> (r: Result<DecoderLimits, OperationFailure>)
    ensures
        outcome(decoder_bounds(limits), r),
{
    if limits.schema_depth == 0 {
        return Err(
            OperationFailure::exhausted(
                ResourceExhausted { resource: Resource::SchemaDepth, limit: 0, observed: 1 },
            ),
        );
    }
    Ok(
        DecoderLimits {
            footer_bytes: limits.footer_bytes,
            schema_elements: limits.schema_nodes,
            schema_depth: limits.schema_depth,
            row_groups: limits.row_groups,
            column_chunks_per_row_group: limits.column_chunks,
            column_chunks: limits.column_chunks,
            collection_elements: limits.metadata_allocated_bytes,
            variable_width_bytes: limits.metadata_allocated_bytes,
            total_variable_width_bytes: limits.metadata_allocated_bytes,
            decoded_bytes: limits.metadata_allocated_bytes,
            page_index_bytes: limits.page_index_bytes,
            page_index_entries: limits.page_index_entries,
        },
    )
}

/// A range is read exactly where it lies inside its object, and it reaches the end of the file exactly
/// where it ends with the object.
pub proof fn ranges_are_read_inside_their_objects(offset: u64, length: usize, size: u64)
    ensures
        range_read(offset, length, size) is Ok <==> offset + length <= size,
        range_read(offset, length, size) matches Ok(eof) ==> eof == (offset + length == size),
{
}

/// A converted schema is bounded by all its parts: each name and each text of metadata counts at
/// least twice, every part that is nested counts, and the parts of a list count together.
pub proof fn schema_bounds_count_every_part(
    field: DecodedField,
    fields: Seq<DecodedField>,
    depth: nat,
    width: nat,
    n: nat,
)
    ensures
        field_bytes(field, depth, width) >= width + size_of::<StructField>() + 2 * field.name_bytes
            + 2 * metadata_total(field.metadata_bytes@, field.metadata_bytes@.len()),
        field.data_type matches DecodedType::Nested(child) ==> field_bytes(field, depth, width)
            >= field_bytes(*child, depth + 1, width),
        field.data_type matches DecodedType::Struct(inner) ==> field_bytes(field, depth, width)
            >= fields_bytes(inner@, depth + 1, width, inner@.len()),
        n < fields.len() ==> fields_bytes(fields, depth, width, n + 1) == fields_bytes(
            fields,
            depth,
            width,
            n,
        ) + field_bytes(fields[n as int], depth, width),
        fields_bytes(fields, depth, width, 0) == 0,
{
    assert(field.name_bytes as nat * depth >= 0) by (nonlinear_arith);
}

/// A footer decoder gets exactly the limits of its request, and none where no nesting is allowed.
pub proof fn decoders_get_the_limits_of_their_request(limits: FooterLimits)
    ensures
        decoder_bounds(limits) is Ok <==> limits.schema_depth > 0,
        decoder_bounds(limits) matches Ok(bounds) ==> {
            &&& bounds.footer_bytes == limits.footer_bytes
            &&& bounds.schema_elements == limits.schema_nodes
            &&& bounds.schema_depth == limits.schema_depth
            &&& bounds.row_groups == limits.row_groups
            &&& bounds.column_chunks == limits.column_chunks
            &&& bounds.column_chunks_per_row_group == limits.column_chunks
            &&& bounds.decoded_bytes == limits.metadata_allocated_bytes
            &&& bounds.collection_elements == limits.metadata_allocated_bytes
            &&& bounds.variable_width_bytes == limits.metadata_allocated_bytes
            &&& bounds.total_variable_width_bytes == limits.metadata_allocated_bytes
            &&& bounds.page_index_bytes == limits.page_index_bytes
            &&& bounds.page_index_entries == limits.page_index_entries
        },
{
}

/// An identity holds all that the file system says of a version, one number behind the other, the
/// least byte of each first.
pub proof fn identities_hold_every_fact(facts: ObjectFacts)
    ensures
        identity_bytes(facts).len() == 32,
        spec_u64_from_le_bytes(identity_bytes(facts).subrange(0, 8)) == facts.device,
        spec_u64_from_le_bytes(identity_bytes(facts).subrange(8, 16)) == facts.inode,
        spec_u64_from_le_bytes(identity_bytes(facts).subrange(16, 24)) == facts.changed_seconds,
        spec_u64_from_le_bytes(identity_bytes(facts).subrange(24, 32)) == facts.changed_nanos,
{
    vstd::bytes::lemma_auto_spec_u64_to_from_le_bytes();
    let bytes = identity_bytes(facts);
    assert(bytes.subrange(0, 8) =~= spec_u64_to_le_bytes(facts.device));
    assert(bytes.subrange(8, 16) =~= spec_u64_to_le_bytes(facts.inode));
    assert(bytes.subrange(16, 24) =~= spec_u64_to_le_bytes(facts.changed_seconds));
    assert(bytes.subrange(24, 32) =~= spec_u64_to_le_bytes(facts.changed_nanos));
}

/// A schema is converted exactly where the bound of its parts is within the limit.
pub proof fn schemas_are_converted_within_their_bound(
    fields: Seq<DecodedField>,
    width: usize,
    limit: usize,
)
    ensures
        limit < usize::MAX ==> (schema_bounded(fields, width, limit) is Ok <==> fields_bytes(
            fields,
            1,
            width as nat,
            fields.len(),
        ) <= limit),
{
}

} // verus!
