//! Scratch of building a scan over plain primitive fields.
//!
//! The fields have no metadata, no column is mapped or partitioned, and there is no predicate. The
//! builder's membership set of statistics columns is still built.

use crate::bytes::{byte_len, utf8};
use crate::failure::Error;
use crate::schema::{ColumnName, StructField, StructType};
use crate::sizing::{
    fitted, hash_bytes, hash_of, hash_total, plus, size, text_bytes, text_total, vector_bytes,
    vector_of, vector_total,
};
use crate::table::KernelLayout;
use vstd::arithmetic::overflow::CheckedUsize;
use vstd::layout::size_of;
use vstd::prelude::*;

verus! {

/// The fixed bytes of the diagnostics of a column that cannot be resolved.
pub const COLUMN_DIAGNOSTIC_BYTES: usize = 154;

/// The fixed bytes of the diagnostics of an empty schema and of a duplicate field.
pub const SCHEMA_DIAGNOSTIC_BYTES: usize = 154;

/// The bytes of the first `n` field names.
pub open spec fn field_name_bytes(fields: Seq<StructField>, n: nat) -> nat
    decreases n,
{
    if n == 0 {
        0
    } else {
        field_name_bytes(fields, (n - 1) as nat) + utf8(fields[n - 1].name@).len()
    }
}

/// The bytes of the first `n` components of a column.
pub open spec fn component_bytes(path: Seq<String>, n: nat) -> nat
    decreases n,
{
    if n == 0 {
        0
    } else {
        component_bytes(path, (n - 1) as nat) + utf8(path[n - 1]@).len()
    }
}

/// The owners of the first `n` configured statistics columns, repeated and unknown ones included.
///
/// Each keeps what it resolves to; one that cannot be resolved is reported twice, with its
/// components quoted.
pub open spec fn property_bytes(columns: Seq<ColumnName>, n: nat) -> nat
    decreases n,
{
    if n == 0 {
        0
    } else {
        let path = columns[n - 1].path@;
        let bytes = component_bytes(path, path.len());
        property_bytes(columns, (n - 1) as nat) + vector_bytes(size_of::<&StructField>(), path.len())
            + vector_bytes(size_of::<String>(), 1) + bytes + text_bytes(
            3 * bytes + 3 * path.len() + COLUMN_DIAGNOSTIC_BYTES as nat,
        ) * 2
    }
}

/// The owners of the configured statistics columns.
pub open spec fn properties(columns: Option<Vec<ColumnName>>, layout: KernelLayout) -> nat {
    match columns {
        None => 0,
        Some(columns) => vector_bytes(size_of::<ColumnName>(), columns@.len()) + hash_bytes(
            layout.column_trie_entry as nat,
            columns@.len(),
        ) + property_bytes(columns@, columns@.len()),
    }
}

/// The owners of building a scan.
pub open spec fn builder_owners(
    schema: StructType,
    columns: Option<Vec<ColumnName>>,
    layout: KernelLayout,
) -> nat {
    let n = schema.fields@.len();
    let names = field_name_bytes(schema.fields@, n);
    let physical = vector_bytes(size_of::<StructField>(), n) + vector_bytes(
        size_of::<(usize, String, StructField)>(),
        n,
    ) + hash_bytes(size_of::<usize>(), n) + 2 * names + hash_bytes(size_of::<String>(), n) + 48
        * names + 16 * n + size_of::<StructType>() + 6 + 2 * size_of::<usize>();
    let mapping = vector_bytes(size_of::<&str>(), 1) + 2 * names + vector_bytes(
        layout.field_transform as nat,
        n,
    );
    let stats = vector_bytes(size_of::<ColumnName>(), n) + hash_bytes(size_of::<ColumnName>(), n)
        + vector_bytes(size_of::<String>(), 1) * n + vector_bytes(size_of::<String>(), 1) + 2 * names;
    let diagnostics = text_bytes(2 * names + SCHEMA_DIAGNOSTIC_BYTES as nat) * 2;
    physical + mapping + stats + properties(columns, layout) + diagnostics + (
    layout.scan_state as nat + 2 * size_of::<usize>()) + layout.scan as nat
        + layout.scan_builder as nat + size_of::<Error>()
}

fn name_total(fields: &Vec<StructField>) -> (total: CheckedUsize)
    ensures
        total@ == field_name_bytes(fields@, fields@.len()),
{
    let mut total = CheckedUsize::new(0);
    let mut i: usize = 0;
    while i < fields.len()
        invariant
            i <= fields@.len(),
            total@ == field_name_bytes(fields@, i as nat),
        decreases fields@.len() - i,
    {
        total = total.add_value(byte_len(fields[i].name.as_str()));
        i += 1;
    }
    total
}

fn component_total(path: &Vec<String>) -> (total: CheckedUsize)
    ensures
        total@ == component_bytes(path@, path@.len()),
{
    let mut total = CheckedUsize::new(0);
    let mut i: usize = 0;
    while i < path.len()
        invariant
            i <= path@.len(),
            total@ == component_bytes(path@, i as nat),
        decreases path@.len() - i,
    {
        total = total.add_value(byte_len(path[i].as_str()));
        i += 1;
    }
    total
}

fn property_total(columns: &Vec<ColumnName>) -> (total: CheckedUsize)
    ensures
        total@ == property_bytes(columns@, columns@.len()),
{
    let mut total = CheckedUsize::new(0);
    let mut i: usize = 0;
    while i < columns.len()
        invariant
            i <= columns@.len(),
            total@ == property_bytes(columns@, i as nat),
        decreases columns@.len() - i,
    {
        let path = &columns[i].path;
        let bytes = component_total(path);
        let diagnostic = plus(
            &bytes.mul_value(3),
            &CheckedUsize::new(path.len()).mul_value(3),
        ).add_value(COLUMN_DIAGNOSTIC_BYTES);
        let owned = plus(
            &plus(&vector_of::<&StructField>(path.len()), &vector_of::<String>(1)),
            &bytes,
        );
        total = plus(&plus(&total, &owned), &text_total(&diagnostic).mul_value(2));
        i += 1;
    }
    total
}

fn properties_total(columns: &Option<Vec<ColumnName>>, layout: &KernelLayout) -> (total: CheckedUsize)
    ensures
        total@ == properties(*columns, *layout),
{
    match columns {
        None => CheckedUsize::new(0),
        Some(columns) => plus(
            &plus(
                &vector_of::<ColumnName>(columns.len()),
                &hash_total(layout.column_trie_entry, columns.len()),
            ),
            &property_total(columns),
        ),
    }
}

/// Bounds the owners of building a scan over a schema.
///
/// `columns` are the columns that statistics are configured for.
pub fn scan_builder_peak(
    schema: &StructType,
    columns: &Option<Vec<ColumnName>>,
    layout: &KernelLayout,
) -> (r: Option<usize>)
    ensures
        r == fitted(builder_owners(*schema, *columns, *layout) as int),
{
    let count: usize = schema.fields.len();
    let names = name_total(&schema.fields);
    let twice = names.mul_value(2);
    let header = plus(&size::<StructType>().add_value(6), &size::<usize>().mul_value(2));
    let index = plus(
        &plus(
            &vector_of::<StructField>(count),
            &vector_of::<(usize, String, StructField)>(count),
        ),
        &hash_of::<usize>(count),
    );
    let folded = plus(&names.mul_value(48), &CheckedUsize::new(count).mul_value(16));
    let physical = plus(
        &plus(&plus(&plus(&index, &twice), &hash_of::<String>(count)), &folded),
        &header,
    );
    let mapping = plus(
        &plus(&vector_of::<&str>(1), &twice),
        &vector_total(layout.field_transform, &CheckedUsize::new(count)),
    );
    let stats = plus(
        &plus(
            &plus(&vector_of::<ColumnName>(count), &hash_of::<ColumnName>(count)),
            &vector_of::<String>(1).mul_value(count),
        ),
        &plus(&vector_of::<String>(1), &twice),
    );
    let diagnostics = text_total(&twice.add_value(SCHEMA_DIAGNOSTIC_BYTES)).mul_value(2);
    let state = plus(&CheckedUsize::new(layout.scan_state), &size::<usize>().mul_value(2));
    let scratch = plus(
        &plus(&plus(&plus(&physical, &mapping), &stats), &properties_total(columns, layout)),
        &diagnostics,
    );
    let owners = plus(
        &plus(&plus(&state, &CheckedUsize::new(layout.scan)), &CheckedUsize::new(layout.scan_builder)),
        &size::<Error>(),
    );
    plus(&scratch, &owners).to_option()
}

/// Configured statistics columns only add to what building a scan owns.
pub proof fn configured_columns_are_counted(
    schema: StructType,
    columns: Vec<ColumnName>,
    layout: KernelLayout,
)
    ensures
        builder_owners(schema, None, layout) + properties(Some(columns), layout)
            == builder_owners(schema, Some(columns), layout),
{
}

/// Among schemas of as many fields, each further byte of a name costs a builder seventy bytes.
pub proof fn builders_own_more_for_longer_names(
    shorter: StructType,
    longer: StructType,
    columns: Option<Vec<ColumnName>>,
    layout: KernelLayout,
)
    requires
        shorter.fields@.len() == longer.fields@.len(),
        field_name_bytes(shorter.fields@, shorter.fields@.len()) <= field_name_bytes(
            longer.fields@,
            longer.fields@.len(),
        ),
    ensures
        builder_owners(longer, columns, layout) - builder_owners(shorter, columns, layout) == 70 * (
        field_name_bytes(longer.fields@, longer.fields@.len()) - field_name_bytes(
            shorter.fields@,
            shorter.fields@.len(),
        )),
{
}

/// The bytes of names and of path components add up one by one.
pub proof fn names_add_their_bytes(fields: Seq<StructField>, path: Seq<String>, n: nat)
    ensures
        n < fields.len() ==> field_name_bytes(fields, n + 1) == field_name_bytes(fields, n) + utf8(
            fields[n as int].name@,
        ).len(),
        n < path.len() ==> component_bytes(path, n + 1) == component_bytes(path, n) + utf8(
            path[n as int]@,
        ).len(),
        field_name_bytes(fields, 0) == 0,
        component_bytes(path, 0) == 0,
{
}

} // verus!
