//! Shape of a primitive schema text, before the schema decoder owns any of it.
//!
//! The inspection retains no strings, fields or metadata. It rejects field types with parts and
//! field metadata before a materializer can enter their recursive allocation paths. Unknown
//! properties are ignored. The decoder still owns required fields and schema semantics.

use crate::accounting::{Resource, TaskAccounting, TaskLimits};
use crate::bytes::{byte_len, same_text, utf8};
use crate::checks::{allowed, check, counted, exhausted, uncountable};
use crate::failure::{Error, FailureKind, OperationFailure};
use crate::headroom::Headroom;
use crate::json_materialization::{preflight_schema_json, schema_text};
use crate::rows::{outside, unsupported};
use crate::schema::{ColumnName, StructField, StructType};
use crate::sizing::{
    fitted, hash_bytes, hash_of, plus, size, text_bytes, text_total, vector_bytes, vector_of,
};
use crate::table::{KernelLayout, Metadata, Property, Snapshot, TableKernel};
use vstd::arithmetic::overflow::CheckedUsize;
use vstd::layout::size_of;
use vstd::prelude::*;

verus! {

/// The fixed bytes of a decoder's diagnostic.
pub const DECODER_DIAGNOSTIC_BYTES: usize = 105;

/// The fixed bytes of a schema's diagnostics.
pub const SCHEMA_DIAGNOSTIC_BYTES: usize = 131;

/// The fixed bytes of a property's diagnostics.
pub const PROPERTY_DIAGNOSTIC_BYTES: usize = 188;

/// The bytes of the two timestamp feature diagnostics.
pub const FEATURE_DIAGNOSTIC_BYTES: usize = 244;

/// A field that a transformation leaves as it is, or replaces.
pub enum BorrowedOrOwned<'a> {
    /// The field as it is.
    Borrowed(&'a StructField),
    /// Its replacement.
    Owned(StructField),
}

/// The decoder has to stop.
#[derive(Debug, Clone, Copy, PartialEq, Eq, Structural)]
pub struct ShapeStop;

/// What was found of a schema text so far.
pub struct PrimitiveSchemaShape {
    /// The fields.
    pub fields: usize,
    /// The bytes of their names.
    pub name_bytes: usize,
    /// The bytes of their types, and of the root's.
    pub type_bytes: usize,
    /// Whether a type with parts or field metadata was found.
    pub unsupported: bool,
    /// The allowance that was exceeded.
    pub failure: Option<OperationFailure>,
}

/// A buffer that grew to hold `bytes` bytes, at least the smallest one, with its old backing.
pub open spec fn buffer_bytes(bytes: nat) -> nat {
    (if 2 * bytes >= 8 {
        2 * bytes
    } else {
        8
    }) * 2
}

/// The owners of inspecting a text of `bytes` bytes: the decoder's scratch, its largest diagnostic
/// and the errors that may carry it.
pub open spec fn inspection_owners(bytes: nat, layout: KernelLayout) -> nat {
    buffer_bytes(bytes) + buffer_bytes(10 * bytes + 344 + DECODER_DIAGNOSTIC_BYTES as nat + 40) + (
    size_of::<String>() + 4 * size_of::<usize>() + size_of::<Error>() + size_of::<
        OperationFailure,
    >()) + layout.json_decoder as nat + size_of::<PrimitiveSchemaShape>()
}

/// The owners of the first `n` configuration properties.
///
/// Every value may be kept next to its parsed form. A list of columns may have one column and one
/// name for each of its bytes. A rejected value is reported with its bytes escaped.
pub open spec fn property_owners(properties: Seq<Property>, n: nat) -> nat
    decreases n,
{
    if n == 0 {
        0
    } else {
        let value = utf8(properties[n - 1].value@).len();
        property_owners(properties, (n - 1) as nat) + utf8(properties[n - 1].key@).len() + 2 * value
            + (if utf8(properties[n - 1].key@) == utf8("delta.dataSkippingStatsColumns"@) {
            vector_bytes(size_of::<ColumnName>(), value + 1) + vector_bytes(size_of::<String>(), 1)
                * (value + 1) * 2 + 4 * value + 16 * (value + 1)
        } else {
            0
        }) + text_bytes(10 * value + PROPERTY_DIAGNOSTIC_BYTES as nat) + size_of::<String>()
            + size_of::<usize>()
    }
}

/// The text of an unsupported schema.
pub open spec fn plain_fields_only() -> Seq<char> {
    "JSON operation tasks require primitive fields with empty metadata"@
}

impl PrimitiveSchemaShape {
    /// Nothing was found yet.
    pub open spec fn fresh(self) -> bool {
        &&& self.fields == 0
        &&& self.name_bytes == 0
        &&& self.type_bytes == 0
        &&& !self.unsupported
        &&& self.failure is None
    }

    /// Starts an inspection.
    pub fn new() -> (shape: PrimitiveSchemaShape)
        ensures
            shape.fresh(),
    {
        PrimitiveSchemaShape {
            fields: 0,
            name_bytes: 0,
            type_bytes: 0,
            unsupported: false,
            failure: None,
        }
    }

    /// A field begins.
    pub fn begin_field(&mut self, limits: &TaskLimits) -> (r: Result<(), ShapeStop>)
        ensures
            final(self).name_bytes == old(self).name_bytes,
            final(self).type_bytes == old(self).type_bytes,
            final(self).unsupported == old(self).unsupported,
            old(self).fields == usize::MAX ==> r is Err && *final(self) == *old(self),
            old(self).fields < usize::MAX ==> final(self).fields == old(self).fields + 1,
            old(self).fields < usize::MAX ==> match allowed(
                *limits,
                Resource::SchemaNodes,
                old(self).fields + 1,
            ) {
                Ok(()) => r is Ok && final(self).failure == old(self).failure,
                Err(kind) => r is Err && (final(self).failure matches Some(failure)
                    && failure.is_terminal(kind)),
            },
    {
        self.fields = match self.fields.checked_add(1) {
            Some(fields) => fields,
            None => return Err(ShapeStop),
        };
        match check(Resource::SchemaNodes, self.fields, limits) {
            Ok(()) => Ok(()),
            Err(failure) => {
                self.failure = Some(failure);
                Err(ShapeStop)
            },
        }
    }

    /// A field's name is read.
    pub fn field_name(&mut self, name: &str, limits: &TaskLimits) -> (r: Result<(), ShapeStop>)
        ensures
            final(self).fields == old(self).fields,
            final(self).type_bytes == old(self).type_bytes,
            final(self).unsupported == old(self).unsupported,
            match fitted(old(self).name_bytes + utf8(name@).len()) {
                Some(bytes) => r is Ok && final(self).name_bytes == bytes && final(self).failure
                    == old(self).failure,
                None => r is Err && final(self).name_bytes == old(self).name_bytes && (
                final(self).failure matches Some(failure) && failure.is_terminal(
                    uncountable(*limits, Resource::MetadataAllocatedBytes),
                )),
            },
    {
        match self.name_bytes.checked_add(byte_len(name)) {
            Some(bytes) => {
                self.name_bytes = bytes;
                Ok(())
            },
            None => {
                self.failure = Some(exhausted(Resource::MetadataAllocatedBytes, limits));
                Err(ShapeStop)
            },
        }
    }

    /// The root's type is read.
    pub fn root_type(&mut self, name: &str, limits: &TaskLimits) -> (r: Result<(), ShapeStop>)
        ensures
            final(self).fields == old(self).fields,
            final(self).name_bytes == old(self).name_bytes,
            final(self).unsupported == old(self).unsupported,
            match fitted(old(self).type_bytes + utf8(name@).len()) {
                Some(bytes) => r is Ok && final(self).type_bytes == bytes && final(self).failure
                    == old(self).failure,
                None => r is Err && final(self).type_bytes == old(self).type_bytes && (
                final(self).failure matches Some(failure) && failure.is_terminal(
                    uncountable(*limits, Resource::MetadataAllocatedBytes),
                )),
            },
    {
        match self.type_bytes.checked_add(byte_len(name)) {
            Some(bytes) => {
                self.type_bytes = bytes;
                Ok(())
            },
            None => {
                self.failure = Some(exhausted(Resource::MetadataAllocatedBytes, limits));
                Err(ShapeStop)
            },
        }
    }

    /// A field's type is read. A semi-structured type is refused.
    pub fn field_type(&mut self, name: &str, limits: &TaskLimits) -> (r: Result<(), ShapeStop>)
        ensures
            final(self).fields == old(self).fields,
            final(self).name_bytes == old(self).name_bytes,
            utf8(name@) == utf8("variant"@) ==> r is Err && final(self).unsupported
                && final(self).type_bytes == old(self).type_bytes && final(self).failure
                == old(self).failure,
            utf8(name@) != utf8("variant"@) ==> final(self).unsupported == old(self).unsupported
                && match fitted(old(self).type_bytes + utf8(name@).len()) {
                Some(bytes) => r is Ok && final(self).type_bytes == bytes && final(self).failure
                    == old(self).failure,
                None => r is Err && final(self).type_bytes == old(self).type_bytes && (
                final(self).failure matches Some(failure) && failure.is_terminal(
                    uncountable(*limits, Resource::MetadataAllocatedBytes),
                )),
            },
    {
        if same_text(name, "variant") {
            self.unsupported = true;
            return Err(ShapeStop);
        }
        self.root_type(name, limits)
    }

    /// A type with parts, or an entry of field metadata, is found.
    pub fn refuse(&mut self) -> (stop: ShapeStop)
        ensures
            *final(self) == (PrimitiveSchemaShape { unsupported: true, ..*old(self) }),
    {
        self.unsupported = true;
        ShapeStop
    }

    /// `r` is what an inspection concludes: an exceeded allowance comes before a refused schema,
    /// and a refused schema before a text that could not be decoded.
    pub open spec fn concluded(
        self,
        decoded: Result<(), String>,
        r: Result<PrimitiveSchemaShape, OperationFailure>,
    ) -> bool {
        if self.failure is Some {
            r == Err::<PrimitiveSchemaShape, OperationFailure>(self.failure->0)
        } else if self.unsupported {
            r matches Err(failure) && unsupported(failure, plain_fields_only())
        } else {
            match decoded {
                Ok(()) => r == Ok::<PrimitiveSchemaShape, OperationFailure>(self),
                Err(text) => r matches Err(failure) && failure.category() == FailureKind::Engine
                    && failure.origin() == Some(Error::MalformedJson(text)),
            }
        }
    }

    /// Concludes an inspection with what the decoder said.
    pub fn conclude(self, decoded: Result<(), String>) -> (r: Result<
        PrimitiveSchemaShape,
        OperationFailure,
    >)
        ensures
            self.concluded(decoded, r),
    {
        if self.failure.is_some() {
            match self.failure {
                Some(failure) => return Err(failure),
                None => {},
            }
            return Err(OperationFailure::malformed_response());
        }
        if self.unsupported {
            return Err(
                outside("JSON operation tasks require primitive fields with empty metadata"),
            );
        }
        match decoded {
            Ok(()) => Ok(self),
            Err(text) => Err(OperationFailure::engine(Error::MalformedJson(text))),
        }
    }

    /// What admitting an inspection gives: the text is bounded, and its scratch fits beside what
    /// the task holds.
    pub open spec fn admitted(
        json: Seq<u8>,
        limits: TaskLimits,
        ledger: TaskLimits,
        headroom: Headroom,
        layout: KernelLayout,
    ) -> Result<(), FailureKind> {
        match schema_text(limits, json) {
            Err(kind) => Err(kind),
            Ok(()) => match fitted(inspection_owners(json.len(), layout) as int) {
                None => Err(uncountable(limits, Resource::MetadataAllocatedBytes)),
                Some(scratch) => match allowed(
                    limits,
                    Resource::MetadataAllocatedBytes,
                    scratch as int,
                ) {
                    Err(kind) => Err(kind),
                    Ok(()) => headroom.considered(ledger, limits, scratch),
                },
            },
        }
    }

    /// `r` follows from what the decoder told an empty shape.
    pub open spec fn told<K: TableKernel>(
        kernel: K,
        json: Seq<char>,
        limits: TaskLimits,
        before: PrimitiveSchemaShape,
        shape: PrimitiveSchemaShape,
        decoded: Result<(), String>,
        r: Result<PrimitiveSchemaShape, OperationFailure>,
    ) -> bool {
        &&& before.fresh()
        &&& exists|text: &str|
            text@ == json && #[trigger] call_ensures(
                K::inspect_schema,
                (&kernel, text, &limits, before),
                (shape, decoded),
            )
        &&& shape.concluded(decoded, r)
    }

    /// `r` is what an inspection gives.
    pub open spec fn inspected<K: TableKernel>(
        kernel: K,
        json: Seq<char>,
        limits: TaskLimits,
        ledger: TaskLimits,
        headroom: Headroom,
        layout: KernelLayout,
        r: Result<PrimitiveSchemaShape, OperationFailure>,
    ) -> bool {
        match PrimitiveSchemaShape::admitted(utf8(json), limits, ledger, headroom, layout) {
            Err(kind) => r matches Err(failure) && failure.is_terminal(kind),
            Ok(()) => exists|
                before: PrimitiveSchemaShape,
                shape: PrimitiveSchemaShape,
                decoded: Result<(), String>,
            | #[trigger]
                PrimitiveSchemaShape::told(kernel, json, limits, before, shape, decoded, r),
        }
    }

    /// Inspects a schema text. Nothing is decoded before its scratch is admitted.
    pub fn inspect<K: TableKernel>(
        kernel: &K,
        json: &str,
        limits: &TaskLimits,
        accounting: &TaskAccounting,
        headroom: Headroom,
        layout: &KernelLayout,
    ) -> (r: Result<PrimitiveSchemaShape, OperationFailure>)
        ensures
            PrimitiveSchemaShape::inspected(
                *kernel,
                json@,
                *limits,
                accounting.allowances(),
                headroom,
                *layout,
                r,
            ),
    {
        match preflight_schema_json(json, limits) {
            Ok(()) => {},
            Err(failure) => return Err(failure),
        }
        let scratch: usize = counted(
            PrimitiveSchemaShape::inspection_bytes(byte_len(json), layout),
            Resource::MetadataAllocatedBytes,
            limits,
        )?;
        match check(Resource::MetadataAllocatedBytes, scratch, limits) {
            Ok(()) => {},
            Err(failure) => return Err(failure),
        }
        match headroom.consider(accounting, limits, scratch) {
            Ok(()) => {},
            Err(failure) => return Err(failure),
        }
        let empty = PrimitiveSchemaShape::new();
        let ghost before = empty;
        let (shape, decoded) = kernel.inspect_schema(json, limits, empty);
        let ghost found = shape;
        let ghost said = decoded;
        let r = shape.conclude(decoded);
        assert(PrimitiveSchemaShape::told(*kernel, json@, *limits, before, found, said, r));
        r
    }

    /// Bounds the owners of inspecting a text of `bytes` bytes.
    pub fn inspection_bytes(bytes: usize, layout: &KernelLayout) -> (r: Option<usize>)
        ensures
            r == fitted(inspection_owners(bytes as nat, *layout) as int),
    {
        inspection_total(bytes, layout).to_option()
    }

    /// The owners of materializing the inspected schema: the input fields, the index that they move
    /// into, the folded names of the duplicate check, the decoded values and four simultaneous
    /// diagnostics.
    pub open spec fn materialization_owners(self, json_bytes: nat, layout: KernelLayout) -> nat {
        let n = self.fields as nat;
        vector_bytes(size_of::<StructField>(), n) + vector_bytes(
            size_of::<(usize, String, StructField)>(),
            n,
        ) + hash_bytes(size_of::<usize>(), n) + 2 * self.name_bytes as nat + (48
            * self.name_bytes as nat + 16 * n) + hash_bytes(size_of::<String>(), n) + 2
            * self.type_bytes as nat + (json_bytes + 6) + (text_bytes(
            10 * json_bytes + SCHEMA_DIAGNOSTIC_BYTES as nat + 40,
        ) + size_of::<String>() + 4 * size_of::<usize>()) * 4 + inspection_owners(
            json_bytes,
            layout,
        ) + size_of::<StructType>() + 2 * layout.json_value as nat + size_of::<Error>() + size_of::<
            OperationFailure,
        >()
    }

    /// Bounds the owners of materializing the inspected schema.
    ///
    /// This is not the later configuration or visitor envelope: their own owners remain live.
    pub fn materialization_bytes(&self, json_bytes: usize, layout: &KernelLayout) -> (r: Option<usize>)
        ensures
            r == fitted(self.materialization_owners(json_bytes as nat, *layout) as int),
    {
        self.materialization_total(json_bytes, layout).to_option()
    }

    fn materialization_total(&self, json_bytes: usize, layout: &KernelLayout) -> (total: CheckedUsize)
        ensures
            total@ == self.materialization_owners(json_bytes as nat, *layout),
    {
        let names = CheckedUsize::new(self.name_bytes);
        let index = plus(
            &plus(
                &vector_of::<StructField>(self.fields),
                &vector_of::<(usize, String, StructField)>(self.fields),
            ),
            &hash_of::<usize>(self.fields),
        );
        let folded = plus(
            &plus(&names.mul_value(48), &CheckedUsize::new(self.fields).mul_value(16)),
            &hash_of::<String>(self.fields),
        );
        let texts = plus(
            &CheckedUsize::new(self.type_bytes).mul_value(2),
            &CheckedUsize::new(json_bytes).add_value(6),
        );
        let diagnostic = CheckedUsize::new(json_bytes).mul_value(10).add_value(
            SCHEMA_DIAGNOSTIC_BYTES,
        ).add_value(40);
        let errors = plus(
            &plus(&text_total(&diagnostic), &size::<String>()),
            &size::<usize>().mul_value(4),
        ).mul_value(4);
        let fixed = plus(
            &plus(
                &plus(
                    &size::<StructType>(),
                    &CheckedUsize::new(layout.json_value).mul_value(2),
                ),
                &size::<Error>(),
            ),
            &size::<OperationFailure>(),
        );
        let decoded = plus(&plus(&index, &names.mul_value(2)), &folded);
        plus(
            &plus(&plus(&plus(&decoded, &texts), &errors), &inspection_total(json_bytes, layout)),
            &fixed,
        )
    }

    /// The owners of configuring a table: the initial schema, its three further copies, the
    /// transformation of its fields, the defaults, the properties and the snapshot.
    pub open spec fn configuration_owners(
        self,
        metadata: Metadata,
        root_bytes: nat,
        layout: KernelLayout,
    ) -> nat {
        let n = self.fields as nat;
        let names = self.name_bytes as nat;
        let copy = vector_bytes(size_of::<(usize, String, StructField)>(), n) + hash_bytes(
            size_of::<usize>(),
            n,
        ) + 2 * names + size_of::<StructType>() + 6 + 2 * size_of::<usize>();
        let initial = self.materialization_owners(utf8(metadata.schema_string@).len(), layout) + 2
            * size_of::<usize>();
        let transform = vector_bytes(size_of::<BorrowedOrOwned<'static>>(), n)
            + vector_bytes(size_of::<StructField>(), n) + vector_bytes(
            size_of::<std::collections::HashMap<usize, usize>>(),
            1,
        ) + vector_bytes(size_of::<&str>(), 1) + names;
        let defaults = vector_bytes(size_of::<String>(), 1) + names;
        let properties = hash_bytes(
            size_of::<(String, String)>(),
            metadata.configuration@.len(),
        ) + property_owners(metadata.configuration@, metadata.configuration@.len());
        initial + 3 * copy + transform + defaults + properties + text_bytes(
            FEATURE_DIAGNOSTIC_BYTES as nat,
        ) + root_bytes + size_of::<Snapshot>() + 2 * size_of::<usize>()
    }

    /// Bounds the owners of configuring a table, the initial schema decoder included.
    pub fn configuration_bytes(
        &self,
        metadata: &Metadata,
        root_bytes: usize,
        layout: &KernelLayout,
    ) -> (r: Option<usize>)
        ensures
            r == fitted(
                self.configuration_owners(*metadata, root_bytes as nat, *layout) as int,
            ),
    {
        let names = CheckedUsize::new(self.name_bytes);
        let header = plus(&size::<StructType>().add_value(6), &size::<usize>().mul_value(2));
        let copy = plus(
            &plus(
                &plus(
                    &vector_of::<(usize, String, StructField)>(self.fields),
                    &hash_of::<usize>(self.fields),
                ),
                &names.mul_value(2),
            ),
            &header,
        );
        let initial = plus(
            &self.materialization_total(byte_len(metadata.schema_string.as_str()), layout),
            &size::<usize>().mul_value(2),
        );
        let transform = plus(
            &plus(
                &plus(
                    &vector_of::<BorrowedOrOwned<'static>>(self.fields),
                    &vector_of::<StructField>(self.fields),
                ),
                &vector_of::<std::collections::HashMap<usize, usize>>(1),
            ),
            &plus(&vector_of::<&str>(1), &names),
        );
        let defaults = plus(&vector_of::<String>(1), &names);
        let properties = plus(
            &hash_of::<(String, String)>(metadata.configuration.len()),
            &property_total(&metadata.configuration),
        );
        let features = text_total(&CheckedUsize::new(FEATURE_DIAGNOSTIC_BYTES));
        let owner = plus(
            &plus(&CheckedUsize::new(root_bytes), &size::<Snapshot>()),
            &size::<usize>().mul_value(2),
        );
        let schemas = plus(&plus(&initial, &copy.mul_value(3)), &transform);
        plus(
            &plus(&plus(&plus(&schemas, &defaults), &properties), &features),
            &owner,
        ).to_option()
    }
}

fn buffer_total(bytes: &CheckedUsize) -> (total: CheckedUsize)
    ensures
        total@ == buffer_bytes(bytes@),
{
    let doubled = bytes.mul_value(2);
    match doubled.to_option() {
        Some(slots) => if slots < 8 {
            CheckedUsize::new(16)
        } else {
            doubled.mul_value(2)
        },
        None => doubled.mul_value(2),
    }
}

fn inspection_total(bytes: usize, layout: &KernelLayout) -> (total: CheckedUsize)
    ensures
        total@ == inspection_owners(bytes as nat, *layout),
{
    let length = CheckedUsize::new(bytes);
    let diagnostic = length.mul_value(10).add_value(344).add_value(
        DECODER_DIAGNOSTIC_BYTES,
    ).add_value(40);
    let errors = plus(
        &plus(&plus(&size::<String>(), &size::<usize>().mul_value(4)), &size::<Error>()),
        &size::<OperationFailure>(),
    );
    plus(
        &plus(&plus(&buffer_total(&length), &buffer_total(&diagnostic)), &errors).add_value(
            layout.json_decoder,
        ),
        &size::<PrimitiveSchemaShape>(),
    )
}

fn property_total(properties: &Vec<Property>) -> (total: CheckedUsize)
    ensures
        total@ == property_owners(properties@, properties@.len()),
{
    let mut total = CheckedUsize::new(0);
    let mut i: usize = 0;
    while i < properties.len()
        invariant
            i <= properties@.len(),
            total@ == property_owners(properties@, i as nat),
        decreases properties@.len() - i,
    {
        let key = properties[i].key.as_str();
        let length = CheckedUsize::new(byte_len(properties[i].value.as_str()));
        let kept = length.mul_value(2).add_value(byte_len(key));
        let columns = if same_text(key, "delta.dataSkippingStatsColumns") {
            let parts = length.add_value(1);
            let paths = vector_of::<String>(1).mul_checked(&parts).mul_value(2);
            plus(
                &plus(
                    &crate::sizing::vector_total(core::mem::size_of::<ColumnName>(), &parts),
                    &paths,
                ),
                &plus(&length.mul_value(4), &parts.mul_value(16)),
            )
        } else {
            CheckedUsize::new(0)
        };
        let diagnostic = text_total(
            &length.mul_value(10).add_value(PROPERTY_DIAGNOSTIC_BYTES),
        );
        let owners = plus(&size::<String>(), &size::<usize>());
        total = plus(
            &plus(&plus(&plus(&total, &kept), &columns), &diagnostic),
            &owners,
        );
        i += 1;
    }
    total
}

/// Whatever the decoder said, an inspection that counted too much or met an unsupported field does
/// not succeed.
pub proof fn refused_shapes_do_not_pass(
    shape: PrimitiveSchemaShape,
    decoded: Result<(), String>,
    r: Result<PrimitiveSchemaShape, OperationFailure>,
)
    requires
        shape.failure is Some || shape.unsupported,
        shape.concluded(decoded, r),
    ensures
        r is Err,
{
}

/// A schema text is decoded exactly where the text is taken and the decoder's owners are within the
/// allowance of metadata and have room.
pub proof fn schema_texts_are_admitted_where_there_is_room(
    json: Seq<u8>,
    limits: TaskLimits,
    ledger: TaskLimits,
    headroom: Headroom,
    layout: KernelLayout,
)
    ensures
        PrimitiveSchemaShape::admitted(json, limits, ledger, headroom, layout) is Ok <==> {
            let owners = inspection_owners(json.len(), layout);
            &&& schema_text(limits, json) is Ok
            &&& owners <= limits.allowance(Resource::MetadataAllocatedBytes)
            &&& headroom.considered(ledger, limits, owners as usize) is Ok
        },
{
}

/// An inspected schema gives its shape exactly where nothing failed, every field is plain and the text
/// was decoded.
pub proof fn inspections_give_plain_shapes(
    shape: PrimitiveSchemaShape,
    decoded: Result<(), String>,
    r: Result<PrimitiveSchemaShape, OperationFailure>,
)
    requires
        shape.concluded(decoded, r),
    ensures
        r is Ok <==> shape.failure is None && !shape.unsupported && decoded is Ok,
        r matches Ok(given) ==> given == shape,
{
}

/// Each further byte of a schema text costs its decoder four bytes of buffer and forty of diagnostics.
pub proof fn decoders_own_more_for_more(bytes: nat, layout: KernelLayout)
    requires
        bytes >= 4,
    ensures
        inspection_owners(bytes + 1, layout) == inspection_owners(bytes, layout) + 44,
        buffer_bytes(bytes) == 4 * bytes,
{
}

/// Each property owns its key, two copies of its value and a diagnostic, and where it lists columns,
/// the columns.
pub proof fn properties_add_their_owners(properties: Seq<Property>, n: nat)
    requires
        n < properties.len(),
    ensures
        ({
            let property = properties[n as int];
            let value = utf8(property.value@).len();
            let columns = if property.key@ == "delta.dataSkippingStatsColumns"@ {
                vector_bytes(size_of::<ColumnName>(), value + 1) + vector_bytes(
                    size_of::<String>(),
                    1,
                ) * (value + 1) * 2 + 20 * value + 16
            } else {
                0
            };
            property_owners(properties, n + 1) == property_owners(properties, n) + utf8(
                property.key@,
            ).len() + 2 * value + columns + text_bytes(10 * value + 188) + size_of::<String>()
                + size_of::<usize>()
        }),
        property_owners(properties, 0) == 0,
{
    vstd::utf8::encode_utf8_decode_utf8(properties[n as int].key@);
    vstd::utf8::encode_utf8_decode_utf8("delta.dataSkippingStatsColumns"@);
}

} // verus!
