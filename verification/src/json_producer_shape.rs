//! Fixed descriptors of the two JSON producers without checkpoints.
//!
//! The counts are those of the producers' own schemas and expressions, before either producer
//! runs. They bound its encoding, its owners and its work.

use crate::failure::Error;
use crate::inspection::FIELD_BOUND;
use crate::plan::{Agg, Expression, FieldPatch, PlanNode, Predicate};
use crate::schema::{ArrayType, ColumnName, MapType, StructField, StructType};
use crate::sizing::{
    fitted, hash_bytes, hash_of, plus, size, text_bytes, text_total, vector_bytes, vector_of,
    vector_total,
};
use crate::table::KernelLayout;
use std::sync::Arc;
use vstd::arithmetic::overflow::CheckedUsize;
use vstd::layout::size_of;
use vstd::prelude::*;

verus! {

/// The fields of an add action: eleven, with five of its deletion vector.
pub const ADD: usize = 11 + 5;

/// The fields of a remove action: eleven, with five of its deletion vector.
pub const REMOVE: usize = 11 + 5;

/// The fields of a file action's key: its path and its deletion vector of three fields.
pub const KEY: usize = 2 + 3;

/// The fields that a commit is read with.
pub const READ: usize = 3 + ADD + REMOVE;

/// The fields behind the commit patch.
pub const PATCH: usize = READ + 1 + 1 + KEY;

/// The fields of the aggregation.
pub const AGGREGATE: usize = 1 + KEY + 1 + ADD;

/// The fields of the metadata output, which drops the statistics.
pub const OUTPUT: usize = 1 + ADD - 1;

/// The fields of a scan row.
pub const SCAN_ROW: usize = 6 + 5 + 5;

/// The fields of the five serialized schemas of the larger producer.
pub const SCHEMA_FIELDS: usize = READ + PATCH + AGGREGATE + OUTPUT + SCAN_ROW;

/// The types of those fields, with the key and value types of their maps and one null literal.
pub const DATA_TYPES: usize = SCHEMA_FIELDS + 2 * (4 + 4 + 2 + 2 + 2) + 1;

/// The expression and predicate nodes: the commit filter, the commit patch with its key, the
/// filter of winning adds, the metadata output and the scan row.
pub const EXPRESSIONS: usize = 7 + (1 + 4 + (2 + 5 * 3 + 3)) + 3 + 2 + 12;

/// The components of all column names.
pub const PATH_COMPONENTS: usize = 4 + 2 + 28 + 4 + 1 + 1 + 9 * 2;

/// The nodes of the larger producer.
pub const NODES: usize = 7;

/// The bytes of the longest fixed field name, `defaultRowCommitVersion`.
pub const NAME_BYTES: usize = 23;

/// The bytes of the longest name that is looked up in vain, `partitionValues_parsed`.
pub const PROBE_BYTES: usize = 22;

/// The fixed bytes of the two diagnostics of a column that cannot be resolved.
pub const DIAGNOSTIC_BYTES: usize = 126;

/// The sites that build or clone a schema of the producers.
pub const SCHEMA_SITES: usize = 17;

/// Bounds the encoding of a producer, without its file entries and their URLs.
///
/// Fields and types take four wire fields each, expression nodes at most four, and every name its
/// bytes; the nodes have their wrappers and edges.
pub const FIXED_ENCODING: usize = (4 * SCHEMA_FIELDS + 4 * DATA_TYPES + 4 * EXPRESSIONS
    + PATH_COMPONENTS + 2 * 6 + 5 * NODES + (NODES - 1) + 4 * 5 + 2) * FIELD_BOUND + (SCHEMA_FIELDS
    + PATH_COMPONENTS + 2 + 1) * NAME_BYTES;

/// The work of validating one field: its visits, its copies, its hashes and the names that it may
/// be compared with.
pub const FIELD_WORK: usize = 4 + 3 * NAME_BYTES + 2 * NAME_BYTES + 2 * 11 * NAME_BYTES;

/// The work of a producer that does not depend on its files: schemas, column references, their
/// resolution and the graph.
#[verifier::nonlinear]
pub const FIXED_WORK: usize = SCHEMA_SITES * PATCH * FIELD_WORK + (PATH_COMPONENTS * (1 + 3
    * NAME_BYTES + 9 * NAME_BYTES) + EXPRESSIONS) * (2 + 3) + PATH_COMPONENTS * (1 + 11 * NAME_BYTES)
    + EXPRESSIONS * 2 + 2 * 2 + NODES * 3 + (NODES - 1) * 3;

/// The visits of each file, with the copies of its name and extension.
pub const FILE_WORK: usize = 2 + 1 + 1 + 1 + 1 + 1 + 1 + 25 + 4;

/// A value behind a shared owner's two counters.
pub struct SharedOwner<T> {
    /// The owners.
    pub strong: usize,
    /// The observers.
    pub weak: usize,
    /// The value.
    pub value: T,
}

/// The owners of one schema: seven indexes, the names and keys, and the headers of its types.
pub open spec fn schema_owners() -> nat {
    let index = vector_bytes(size_of::<(usize, String, StructField)>(), PATCH as nat) + hash_bytes(
        size_of::<usize>(),
        PATCH as nat,
    ) + hash_bytes(size_of::<String>(), PATCH as nat) + vector_bytes(
        size_of::<StructField>(),
        PATCH as nat,
    );
    7 * index + 2 * (PATCH * NAME_BYTES) as nat + text_bytes(NAME_BYTES as nat) * PATCH as nat + 7 * (
    size_of::<SharedOwner<StructType>>() + 6) + 4 * (size_of::<MapType>() + 3) + 3 * (size_of::<
        ArrayType,
    >() + 5)
}

/// The owners of the expression trees: a shared owner for each node and a slot for each edge.
pub open spec fn expression_owners() -> nat {
    let header = if size_of::<SharedOwner<Expression>>() >= size_of::<SharedOwner<Predicate>>() {
        size_of::<SharedOwner<Expression>>()
    } else {
        size_of::<SharedOwner<Predicate>>()
    };
    EXPRESSIONS as nat * header + vector_bytes(size_of::<Arc<Expression>>(), EXPRESSIONS as nat)
}

/// The owners of the column names, of the names that are looked up in vain and of their
/// diagnostics.
pub open spec fn name_owners() -> nat {
    let paths = (vector_bytes(size_of::<String>(), 3) + 3 * NAME_BYTES as nat)
        * PATH_COMPONENTS as nat * 5;
    let probes = (vector_bytes(size_of::<String>(), 2) + 2 * PROBE_BYTES as nat) * 5;
    let diagnostics = text_bytes(
        DIAGNOSTIC_BYTES as nat + 3 * (3 * NAME_BYTES as nat + 3),
    ) * 2 * 5;
    paths + probes + diagnostics
}

/// The owners of the sparse patches.
pub open spec fn patch_owners(layout: KernelLayout) -> nat {
    let item = size_of::<(StructField, Arc<Expression>)>();
    let width = item + size_of::<usize>() + size_of::<Vec<(StructField, Arc<Expression>)>>();
    let map = (4 * (size_of::<String>() + width + 1) + 31) * 2;
    map + hash_bytes(size_of::<(String, FieldPatch)>(), 1) + 10 + vector_bytes(item, 2)
        + vector_bytes(size_of::<Arc<Expression>>(), 2) + 3 * layout.projection_builder as nat
}

/// The owners of the graph: the nodes under construction and emitted, their positions and inputs,
/// the aggregations and the constant column names.
pub open spec fn graph_owners() -> nat {
    let nodes = NODES as nat * size_of::<SharedOwner<(PlanNode, Arc<StructType>)>>() + vector_bytes(
        size_of::<PlanNode>(),
        NODES as nat,
    ) + hash_bytes(size_of::<(usize, usize)>(), NODES as nat) + vector_bytes(size_of::<usize>(), 1)
        * 12;
    let aggregate = vector_bytes(size_of::<(Agg, Option<String>)>(), 4) + 2 * vector_bytes(
        size_of::<Agg>(),
        4,
    ) + 2 * vector_bytes(size_of::<ColumnName>(), 1) + 2 * NAME_BYTES as nat;
    let constants = (vector_bytes(size_of::<String>(), 1) + 7) * 2;
    nodes + aggregate + constants
}

/// The owners of validating a plan: the inputs of a union and the column sets of filters and
/// projections.
pub open spec fn validation_owners(layout: KernelLayout) -> nat {
    vector_bytes(layout.plan_builder as nat, 1) + vector_bytes(size_of::<Arc<()>>(), 1) + hash_bytes(
        size_of::<&ColumnName>(),
        EXPRESSIONS as nat,
    ) * 5
}

/// The owners of a producer, without its manifest and its files.
pub open spec fn fixed_owners(layout: KernelLayout) -> nat {
    SCHEMA_SITES as nat * schema_owners() + expression_owners() + name_owners() + patch_owners(layout)
        + graph_owners() + validation_owners(layout) + size_of::<Error>()
}

/// The work of a producer over `files` files whose paths have `path_bytes` bytes.
pub open spec fn producer_steps(files: nat, path_bytes: nat) -> nat {
    FIXED_WORK as nat + FILE_WORK as nat * files + 3 * path_bytes
}

/// The work of validating and converting a manifest of `files` files under a root of `root` bytes.
///
/// Every path is walked six times, every file visited four times and its name parsed; the root is
/// joined and validated once, and the last commit cloned.
pub open spec fn manifest_steps(files: nat, root: nat) -> nat {
    6 * ((root + 25) * files) + 138 * files + 3 * root + (root + 54)
}

fn schema_total() -> (total: CheckedUsize)
    ensures
        total@ == schema_owners(),
{
    let index = plus(
        &plus(
            &plus(&vector_of::<(usize, String, StructField)>(PATCH), &hash_of::<usize>(PATCH)),
            &hash_of::<String>(PATCH),
        ),
        &vector_of::<StructField>(PATCH),
    );
    let names = CheckedUsize::new(PATCH * NAME_BYTES);
    let lowercase = text_total(&CheckedUsize::new(NAME_BYTES)).mul_value(PATCH);
    let structs = size::<SharedOwner<StructType>>().add_value(6).mul_value(7);
    let maps = size::<MapType>().add_value(3).mul_value(4);
    let arrays = size::<ArrayType>().add_value(5).mul_value(3);
    plus(
        &plus(
            &plus(&plus(&plus(&index.mul_value(7), &names.mul_value(2)), &lowercase), &structs),
            &maps,
        ),
        &arrays,
    )
}

fn expression_total() -> (total: CheckedUsize)
    ensures
        total@ == expression_owners(),
{
    let expression: usize = core::mem::size_of::<SharedOwner<Expression>>();
    let predicate: usize = core::mem::size_of::<SharedOwner<Predicate>>();
    let header: usize = if expression >= predicate {
        expression
    } else {
        predicate
    };
    plus(
        &CheckedUsize::new(EXPRESSIONS).mul_value(header),
        &vector_of::<Arc<Expression>>(EXPRESSIONS),
    )
}

fn name_total() -> (total: CheckedUsize)
    ensures
        total@ == name_owners(),
{
    let paths = vector_of::<String>(3).add_value(3 * NAME_BYTES).mul_value(PATH_COMPONENTS).mul_value(
        5,
    );
    let probes = vector_of::<String>(2).add_value(2 * PROBE_BYTES).mul_value(5);
    let diagnostic = CheckedUsize::new(DIAGNOSTIC_BYTES).add_value(3 * (3 * NAME_BYTES + 3));
    let diagnostics = text_total(&diagnostic).mul_value(2).mul_value(5);
    plus(&plus(&paths, &probes), &diagnostics)
}

fn patch_total(layout: &KernelLayout) -> (total: CheckedUsize)
    ensures
        total@ == patch_owners(*layout),
{
    let item: usize = core::mem::size_of::<(StructField, Arc<Expression>)>();
    let width = plus(
        &CheckedUsize::new(item).add_value(core::mem::size_of::<usize>()),
        &size::<Vec<(StructField, Arc<Expression>)>>(),
    );
    let map = plus(&size::<String>(), &width).add_value(1).mul_value(4).add_value(31).mul_value(2);
    plus(
        &plus(
            &plus(
                &plus(&map, &hash_of::<(String, FieldPatch)>(1)).add_value(10),
                &vector_total(item, &CheckedUsize::new(2)),
            ),
            &vector_of::<Arc<Expression>>(2),
        ),
        &CheckedUsize::new(layout.projection_builder).mul_value(3),
    )
}

fn graph_total() -> (total: CheckedUsize)
    ensures
        total@ == graph_owners(),
{
    let nodes = plus(
        &plus(
            &plus(
                &size::<SharedOwner<(PlanNode, Arc<StructType>)>>().mul_value(NODES),
                &vector_of::<PlanNode>(NODES),
            ),
            &hash_of::<(usize, usize)>(NODES),
        ),
        &vector_of::<usize>(1).mul_value(12),
    );
    let aggregate = plus(
        &plus(
            &vector_of::<(Agg, Option<String>)>(4),
            &vector_of::<Agg>(4).mul_value(2),
        ),
        &vector_of::<ColumnName>(1).mul_value(2),
    ).add_value(2 * NAME_BYTES);
    let constants = vector_of::<String>(1).add_value(7).mul_value(2);
    plus(&plus(&nodes, &aggregate), &constants)
}

fn validation_total(layout: &KernelLayout) -> (total: CheckedUsize)
    ensures
        total@ == validation_owners(*layout),
{
    plus(
        &plus(
            &vector_total(layout.plan_builder, &CheckedUsize::new(1)),
            &vector_of::<Arc<()>>(1),
        ),
        &hash_of::<&ColumnName>(EXPRESSIONS).mul_value(5),
    )
}

/// Bounds the fixed owners of a producer, without its manifest and its files.
///
/// This sums the sites that allocate, not measured peaks.
pub fn fixed_owner_peak(layout: &KernelLayout) -> (r: Option<usize>)
    ensures
        r == fitted(fixed_owners(*layout) as int),
{
    let schemas = schema_total().mul_value(SCHEMA_SITES);
    plus(
        &plus(
            &plus(
                &plus(
                    &plus(&plus(&schemas, &expression_total()), &name_total()),
                    &patch_total(layout),
                ),
                &graph_total(),
            ),
            &validation_total(layout),
        ),
        &size::<Error>(),
    ).to_option()
}

/// Bounds the work of a producer over its files, collisions of hash tables included.
pub fn work_units(files: usize, path_bytes: usize) -> (r: Option<usize>)
    ensures
        r == fitted(producer_steps(files as nat, path_bytes as nat) as int),
{
    plus(
        &CheckedUsize::new(files).mul_value(FILE_WORK).add_value(FIXED_WORK),
        &CheckedUsize::new(path_bytes).mul_value(3),
    ).to_option()
}

/// Bounds the work of validating and converting a manifest, before either runs.
pub fn manifest_work(files: usize, root_bytes: usize) -> (r: Option<usize>)
    ensures
        r == fitted(manifest_steps(files as nat, root_bytes as nat) as int),
{
    let root = CheckedUsize::new(root_bytes);
    let paths = root.add_value(25).mul_value(files);
    let roots = plus(&root.mul_value(3), &root.add_value(54));
    plus(
        &plus(&paths.mul_value(6), &CheckedUsize::new(files).mul_value(138)),
        &roots,
    ).to_option()
}

/// More files or longer paths never take less work.
pub proof fn work_grows_with_files(files: nat, more: nat, path_bytes: nat, longer: nat)
    requires
        files <= more,
        path_bytes <= longer,
    ensures
        producer_steps(files, path_bytes) <= producer_steps(more, longer),
{
    assert(FILE_WORK * files <= FILE_WORK * more) by (nonlinear_arith)
        requires
            files <= more,
    ;
}

/// Each file adds the same work, each byte of a path is looked at three times, and a history's work
/// grows with its files and its root alike.
pub proof fn work_adds_file_by_file(files: nat, path_bytes: nat, root: nat)
    ensures
        producer_steps(files + 1, path_bytes) == producer_steps(files, path_bytes) + 37,
        producer_steps(files, path_bytes + 1) == producer_steps(files, path_bytes) + 3,
        manifest_steps(files + 1, root) == manifest_steps(files, root) + 6 * (root + 25) + 138,
        manifest_steps(files, root + 1) == manifest_steps(files, root) + 6 * files + 4,
        manifest_steps(0, 0) == 54,
{
    assert(FILE_WORK * (files + 1) == FILE_WORK * files + FILE_WORK) by (nonlinear_arith);
    assert(FILE_WORK == 37);
    assert((root + 25) * (files + 1) == (root + 25) * files + (root + 25)) by (nonlinear_arith);
    assert((root + 1 + 25) * files == (root + 25) * files + files) by (nonlinear_arith);
}

} // verus!
