//! Owners and work of the fixed visitors over replayed actions and scan rows.
//!
//! The paths are those of the selected columns, in the order in which getters are handed over.

use crate::bytes::{byte_len, utf8};
use crate::failure::{Error, OperationFailure};
use crate::json_url_allocation::larger;
use crate::rows::GetData;
use crate::schema::{ArrayType, ColumnName, DataType, MapType, StructField, StructType};
use crate::sizing::{
    fitted, hash_bytes, hash_of, plus, size, text_bytes, text_total, vector_bytes, vector_of,
};
use crate::table::{KernelLayout, PmCandidate, ScanRow};
use vstd::arithmetic::overflow::CheckedUsize;
use vstd::layout::size_of;
use vstd::prelude::*;

verus! {

/// The bytes of the fourteen field names of the protocol and metadata schemas.
pub const PM_NAME_BYTES: usize = 150;

/// The fields of the protocol and metadata schemas.
pub const PM_FIELDS: usize = 14;

/// The fixed bytes of a diagnostic over replayed actions, with two counts of twenty digits.
pub const PM_DIAGNOSTIC_BYTES: usize = 108 + 2 * 20;

/// The bytes of the sixteen field names of a scan row.
pub const SCAN_NAME_BYTES: usize = 183;

/// The fields of a scan row.
pub const SCAN_FIELDS: usize = 16;

/// The fixed bytes of a diagnostic over scan rows, with two counts of twenty digits.
pub const SCAN_DIAGNOSTIC_BYTES: usize = 95 + 2 * 20;

/// The steps of visiting a scan row's columns twice: the components of every path and one getter
/// for each.
pub const SCAN_VISITOR_STEPS: usize = (24 + 14) * 2;

/// The steps of one scan row: its columns, its selection bit and the six checks of its file.
pub const SCAN_ROW_STEPS: usize = SCAN_VISITOR_STEPS + 1 + 6;

/// The columns of the replayed protocol and metadata: four of the protocol, nine of the metadata
/// and the two versions.
pub open spec fn pm_columns() -> Seq<Seq<Seq<char>>> {
    seq![
        seq!["protocol"@, "minReaderVersion"@],
        seq!["protocol"@, "minWriterVersion"@],
        seq!["protocol"@, "readerFeatures"@],
        seq!["protocol"@, "writerFeatures"@],
        seq!["metaData"@, "id"@],
        seq!["metaData"@, "name"@],
        seq!["metaData"@, "description"@],
        seq!["metaData"@, "format"@, "provider"@],
        seq!["metaData"@, "format"@, "options"@],
        seq!["metaData"@, "schemaString"@],
        seq!["metaData"@, "partitionColumns"@],
        seq!["metaData"@, "createdTime"@],
        seq!["metaData"@, "configuration"@],
        seq!["protocol_version"@],
        seq!["metadata_version"@],
    ]
}

/// The columns of a scan row.
pub open spec fn scan_columns() -> Seq<Seq<Seq<char>>> {
    seq![
        seq!["path"@],
        seq!["size"@],
        seq!["modificationTime"@],
        seq!["stats"@],
        seq!["deletionVector"@, "storageType"@],
        seq!["deletionVector"@, "pathOrInlineDv"@],
        seq!["deletionVector"@, "offset"@],
        seq!["deletionVector"@, "sizeInBytes"@],
        seq!["deletionVector"@, "cardinality"@],
        seq!["fileConstantValues"@, "partitionValues"@],
        seq!["fileConstantValues"@, "baseRowId"@],
        seq!["fileConstantValues"@, "defaultRowCommitVersion"@],
        seq!["fileConstantValues"@, "tags"@],
        seq!["fileConstantValues"@, "clusteringProvider"@],
    ]
}

/// The names of paths.
pub open spec fn names_of(paths: Seq<Vec<&'static str>>) -> Seq<Seq<Seq<char>>> {
    Seq::new(paths.len(), |i: int| path_names(paths[i]@))
}

/// The names of one path.
pub open spec fn path_names(path: Seq<&'static str>) -> Seq<Seq<char>> {
    Seq::new(path.len(), |j: int| path[j]@)
}

/// The bytes of the first `n` names of a path.
pub open spec fn name_total(path: Seq<Seq<char>>, n: nat) -> nat
    decreases n,
{
    if n == 0 {
        0
    } else {
        name_total(path, (n - 1) as nat) + utf8(path[n - 1]).len()
    }
}

/// The owners of the first `n` paths.
pub open spec fn path_bytes(paths: Seq<Seq<Seq<char>>>, n: nat) -> nat
    decreases n,
{
    if n == 0 {
        0
    } else {
        path_bytes(paths, (n - 1) as nat) + vector_bytes(
            size_of::<String>(),
            paths[n - 1].len(),
        ) + name_total(paths[n - 1], paths[n - 1].len())
    }
}

/// The components of the first `n` paths.
pub open spec fn component_count(paths: Seq<Seq<Seq<char>>>, n: nat) -> nat
    decreases n,
{
    if n == 0 {
        0
    } else {
        component_count(paths, (n - 1) as nat) + paths[n - 1].len()
    }
}

/// The most components among the first `n` paths.
pub open spec fn deepest(paths: Seq<Seq<Seq<char>>>, n: nat) -> nat
    decreases n,
{
    if n == 0 {
        0
    } else {
        larger(deepest(paths, (n - 1) as nat), paths[n - 1].len())
    }
}

/// The keys of a path's first `n` prefixes: stored, as a parent and as a lookup.
pub open spec fn prefix_bytes(path: Seq<Seq<char>>, n: nat) -> nat
    decreases n,
{
    if n == 0 {
        0
    } else {
        prefix_bytes(path, (n - 1) as nat) + (vector_bytes(size_of::<String>(), n) + name_total(
            path,
            n,
        )) * 3
    }
}

/// The keys of the first `n` paths.
pub open spec fn key_bytes(paths: Seq<Seq<Seq<char>>>, n: nat) -> nat
    decreases n,
{
    if n == 0 {
        0
    } else {
        key_bytes(paths, (n - 1) as nat) + prefix_bytes(paths[n - 1], paths[n - 1].len())
    }
}

/// The owners of visiting columns: the column map with its keys, the traversal and the getters.
pub open spec fn visitor_bytes(paths: Seq<Seq<Seq<char>>>) -> nat {
    let n = paths.len();
    hash_bytes(
        size_of::<(ColumnName, [usize; 3])>(),
        larger(component_count(paths, n), 2 * n),
    ) + key_bytes(paths, n) + vector_bytes(size_of::<String>(), deepest(paths, n)) + path_bytes(
        paths,
        n,
    ) + vector_bytes(size_of::<&dyn GetData>(), n)
}

/// The owners of the visitors over the replayed protocol and metadata.
pub open spec fn pm_owners(layout: KernelLayout) -> nat {
    let columns = pm_columns();
    let n = columns.len();
    let indexes = (vector_bytes(size_of::<(usize, String, StructField)>(), PM_FIELDS as nat)
        + hash_bytes(size_of::<usize>(), PM_FIELDS as nat)) * 3;
    let headers = (size_of::<StructType>() + 6) * 3;
    let leaves = ((size_of::<MapType>() + 3) * 2 + (size_of::<ArrayType>() + 5) * 3) * 2;
    let lists = vector_bytes(size_of::<ColumnName>(), n) + vector_bytes(size_of::<DataType>(), n);
    let walker = vector_bytes(size_of::<String>(), 3) + PM_NAME_BYTES as nat;
    let actions = size_of::<PmCandidate>() + layout.metadata_visitor as nat
        + layout.protocol_visitor as nat;
    let diagnostic = text_bytes(PM_NAME_BYTES as nat + PM_DIAGNOSTIC_BYTES as nat);
    indexes + headers + 2 * PM_NAME_BYTES as nat + leaves + path_bytes(columns, n) + lists + walker
        + visitor_bytes(columns) + actions + diagnostic + size_of::<Error>() + size_of::<
        OperationFailure,
    >()
}

/// The owners of the visitors over scan rows.
pub open spec fn scan_owners() -> nat {
    let columns = scan_columns();
    let n = columns.len();
    let indexes = (vector_bytes(size_of::<(usize, String, StructField)>(), SCAN_FIELDS as nat)
        + hash_bytes(size_of::<usize>(), SCAN_FIELDS as nat)) * 3;
    let structs = (size_of::<StructType>() + 6 + 2 * size_of::<usize>()) * 3;
    let maps = (size_of::<MapType>() + 3) * 2 * 2;
    let leaves = vector_bytes(size_of::<ColumnName>(), n) + vector_bytes(size_of::<DataType>(), n)
        + path_bytes(columns, n);
    let walker = vector_bytes(size_of::<String>(), 2) + SCAN_NAME_BYTES as nat;
    let diagnostic = text_bytes(SCAN_NAME_BYTES as nat + SCAN_DIAGNOSTIC_BYTES as nat);
    indexes + structs + maps + 2 * SCAN_NAME_BYTES as nat + leaves + walker + visitor_bytes(columns)
        + diagnostic + size_of::<ScanRow>() + size_of::<Error>() + size_of::<OperationFailure>()
}

/// The work of a page of scan rows: the bytes that were prepaid, the columns of every row, and the
/// setup of both visits, which an empty page has too.
pub open spec fn scan_steps(selected_bytes: nat, rows: nat) -> nat {
    SCAN_VISITOR_STEPS as nat + selected_bytes + rows * SCAN_ROW_STEPS as nat
}

fn path1(first: &'static str) -> (path: Vec<&'static str>)
    ensures
        path_names(path@) == seq![first@],
{
    let mut path: Vec<&'static str> = Vec::new();
    path.push(first);
    assert(path_names(path@) =~= seq![first@]);
    path
}

fn path2(first: &'static str, second: &'static str) -> (path: Vec<&'static str>)
    ensures
        path_names(path@) == seq![first@, second@],
{
    let mut path: Vec<&'static str> = Vec::new();
    path.push(first);
    path.push(second);
    assert(path_names(path@) =~= seq![first@, second@]);
    path
}

fn path3(first: &'static str, second: &'static str, third: &'static str) -> (path: Vec<&'static str>)
    ensures
        path_names(path@) == seq![first@, second@, third@],
{
    let mut path: Vec<&'static str> = Vec::new();
    path.push(first);
    path.push(second);
    path.push(third);
    assert(path_names(path@) =~= seq![first@, second@, third@]);
    path
}

/// Returns the columns of the replayed protocol.
pub fn protocol_paths() -> (paths: Vec<Vec<&'static str>>)
    ensures
        names_of(paths@) == pm_columns().subrange(0, 4),
{
    let mut paths: Vec<Vec<&'static str>> = Vec::new();
    paths.push(path2("protocol", "minReaderVersion"));
    paths.push(path2("protocol", "minWriterVersion"));
    paths.push(path2("protocol", "readerFeatures"));
    paths.push(path2("protocol", "writerFeatures"));
    assert(names_of(paths@) =~= pm_columns().subrange(0, 4));
    paths
}

/// Returns the columns of the replayed metadata.
pub fn metadata_paths() -> (paths: Vec<Vec<&'static str>>)
    ensures
        names_of(paths@) == pm_columns().subrange(4, 13),
{
    let mut paths: Vec<Vec<&'static str>> = Vec::new();
    paths.push(path2("metaData", "id"));
    paths.push(path2("metaData", "name"));
    paths.push(path2("metaData", "description"));
    paths.push(path3("metaData", "format", "provider"));
    paths.push(path3("metaData", "format", "options"));
    paths.push(path2("metaData", "schemaString"));
    paths.push(path2("metaData", "partitionColumns"));
    paths.push(path2("metaData", "createdTime"));
    paths.push(path2("metaData", "configuration"));
    assert(names_of(paths@) =~= pm_columns().subrange(4, 13));
    paths
}

/// Returns the columns of the replayed protocol and metadata.
pub fn pm_paths() -> (paths: Vec<Vec<&'static str>>)
    ensures
        names_of(paths@) == pm_columns(),
{
    let mut paths: Vec<Vec<&'static str>> = protocol_paths();
    let ghost protocol = paths@;
    let mut more: Vec<Vec<&'static str>> = metadata_paths();
    let ghost metadata = more@;
    paths.append(&mut more);
    paths.push(path1("protocol_version"));
    paths.push(path1("metadata_version"));
    proof {
        assert(names_of(protocol).len() == 4);
        assert(names_of(metadata).len() == 9);
        assert forall|i: int| 0 <= i < 15 implies names_of(paths@)[i] == pm_columns()[i] by {
            if i < 4 {
                assert(names_of(protocol)[i] == pm_columns().subrange(0, 4)[i]);
            } else if i < 13 {
                assert(names_of(metadata)[i - 4] == pm_columns().subrange(4, 13)[i - 4]);
            }
        }
        assert(names_of(paths@) =~= pm_columns());
    }
    paths
}

/// Returns the columns of a scan row.
pub fn scan_paths() -> (paths: Vec<Vec<&'static str>>)
    ensures
        names_of(paths@) == scan_columns(),
{
    let mut paths: Vec<Vec<&'static str>> = Vec::new();
    paths.push(path1("path"));
    paths.push(path1("size"));
    paths.push(path1("modificationTime"));
    paths.push(path1("stats"));
    paths.push(path2("deletionVector", "storageType"));
    paths.push(path2("deletionVector", "pathOrInlineDv"));
    paths.push(path2("deletionVector", "offset"));
    paths.push(path2("deletionVector", "sizeInBytes"));
    paths.push(path2("deletionVector", "cardinality"));
    paths.push(path2("fileConstantValues", "partitionValues"));
    paths.push(path2("fileConstantValues", "baseRowId"));
    paths.push(path2("fileConstantValues", "defaultRowCommitVersion"));
    paths.push(path2("fileConstantValues", "tags"));
    paths.push(path2("fileConstantValues", "clusteringProvider"));
    assert(names_of(paths@) =~= scan_columns());
    paths
}

fn names_total(path: &Vec<&'static str>, n: usize) -> (total: CheckedUsize)
    requires
        n <= path@.len(),
    ensures
        total@ == name_total(path_names(path@), n as nat),
{
    let mut total = CheckedUsize::new(0);
    let mut i: usize = 0;
    while i < n
        invariant
            i <= n <= path@.len(),
            total@ == name_total(path_names(path@), i as nat),
        decreases n - i,
    {
        total = total.add_value(byte_len(path[i]));
        i += 1;
    }
    total
}

fn prefix_total(path: &Vec<&'static str>) -> (total: CheckedUsize)
    ensures
        total@ == prefix_bytes(path_names(path@), path@.len()),
{
    let mut total = CheckedUsize::new(0);
    let mut i: usize = 0;
    while i < path.len()
        invariant
            i <= path@.len(),
            total@ == prefix_bytes(path_names(path@), i as nat),
        decreases path@.len() - i,
    {
        let key = plus(&vector_of::<String>(i + 1), &names_total(path, i + 1));
        total = plus(&total, &key.mul_value(3));
        i += 1;
    }
    total
}

fn path_total(paths: &Vec<Vec<&'static str>>) -> (total: CheckedUsize)
    ensures
        total@ == path_bytes(names_of(paths@), paths@.len()),
{
    let mut total = CheckedUsize::new(0);
    let mut i: usize = 0;
    while i < paths.len()
        invariant
            i <= paths@.len(),
            total@ == path_bytes(names_of(paths@), i as nat),
        decreases paths@.len() - i,
    {
        let path = &paths[i];
        total = plus(
            &plus(&total, &vector_of::<String>(path.len())),
            &names_total(path, path.len()),
        );
        i += 1;
    }
    total
}

fn visitor_total(paths: &Vec<Vec<&'static str>>) -> (total: CheckedUsize)
    requires
        component_count(names_of(paths@), paths@.len()) <= 1000,
        paths@.len() <= 1000,
    ensures
        total@ == visitor_bytes(names_of(paths@)),
{
    let mut components: usize = 0;
    let mut depth: usize = 0;
    let mut keys = CheckedUsize::new(0);
    let mut i: usize = 0;
    while i < paths.len()
        invariant
            i <= paths@.len(),
            component_count(names_of(paths@), paths@.len()) <= 1000,
            components == component_count(names_of(paths@), i as nat),
            depth == deepest(names_of(paths@), i as nat),
            keys@ == key_bytes(names_of(paths@), i as nat),
        decreases paths@.len() - i,
    {
        let path = &paths[i];
        proof {
            components_grow(names_of(paths@), (i + 1) as nat, paths@.len());
        }
        components = components + path.len();
        if path.len() > depth {
            depth = path.len();
        }
        keys = plus(&keys, &prefix_total(path));
        i += 1;
    }
    let doubled: usize = 2 * paths.len();
    let entries: usize = if components >= doubled {
        components
    } else {
        doubled
    };
    plus(
        &plus(
            &plus(
                &plus(&hash_of::<(ColumnName, [usize; 3])>(entries), &keys),
                &vector_of::<String>(depth),
            ),
            &path_total(paths),
        ),
        &vector_of::<&dyn GetData>(paths.len()),
    )
}

proof fn components_grow(paths: Seq<Seq<Seq<char>>>, i: nat, n: nat)
    requires
        i <= n,
    ensures
        component_count(paths, i) <= component_count(paths, n),
    decreases n,
{
    if i < n {
        components_grow(paths, i, (n - 1) as nat);
    }
}

/// Bounds the owners of the visitors over the replayed protocol and metadata: fixed schema
/// construction and the largest simultaneous scratch.
pub fn pm_fixed_peak(layout: &KernelLayout) -> (r: Option<usize>)
    ensures
        r == fitted(pm_owners(*layout) as int),
{
    let paths = pm_paths();
    let count: usize = paths.len();
    proof {
        reveal_with_fuel(component_count, 16);
        assert(component_count(pm_columns(), 15) <= 1000);
    }
    let indexes = plus(
        &vector_of::<(usize, String, StructField)>(PM_FIELDS),
        &hash_of::<usize>(PM_FIELDS),
    ).mul_value(3);
    let headers = size::<StructType>().add_value(6).mul_value(3);
    let leaves = plus(
        &size::<MapType>().add_value(3).mul_value(2),
        &size::<ArrayType>().add_value(5).mul_value(3),
    ).mul_value(2);
    let lists = plus(&vector_of::<ColumnName>(count), &vector_of::<DataType>(count));
    let walker = vector_of::<String>(3).add_value(PM_NAME_BYTES);
    let actions = size::<PmCandidate>().add_value(layout.metadata_visitor).add_value(
        layout.protocol_visitor,
    );
    let diagnostic = text_total(&CheckedUsize::new(PM_NAME_BYTES).add_value(PM_DIAGNOSTIC_BYTES));
    let schema = plus(&plus(&indexes, &headers).add_value(2 * PM_NAME_BYTES), &leaves);
    let columns = plus(&plus(&plus(&path_total(&paths), &lists), &walker), &visitor_total(&paths));
    let rest = plus(
        &plus(&plus(&actions, &diagnostic), &size::<Error>()),
        &size::<OperationFailure>(),
    );
    plus(&plus(&schema, &columns), &rest).to_option()
}

/// Bounds the owners of the visitors over scan rows. Nothing of a table's own schema is in a scan
/// row.
pub fn scan_fixed_peak() -> (r: Option<usize>)
    ensures
        r == fitted(scan_owners() as int),
{
    let paths = scan_paths();
    let count: usize = paths.len();
    proof {
        reveal_with_fuel(component_count, 15);
        assert(component_count(scan_columns(), 14) <= 1000);
    }
    let indexes = plus(
        &vector_of::<(usize, String, StructField)>(SCAN_FIELDS),
        &hash_of::<usize>(SCAN_FIELDS),
    ).mul_value(3);
    let structs = plus(
        &size::<StructType>().add_value(6),
        &size::<usize>().mul_value(2),
    ).mul_value(3);
    let maps = size::<MapType>().add_value(3).mul_value(2).mul_value(2);
    let leaves = plus(
        &plus(&vector_of::<ColumnName>(count), &vector_of::<DataType>(count)),
        &path_total(&paths),
    );
    let walker = vector_of::<String>(2).add_value(SCAN_NAME_BYTES);
    let diagnostic = text_total(
        &CheckedUsize::new(SCAN_NAME_BYTES).add_value(SCAN_DIAGNOSTIC_BYTES),
    );
    let schema = plus(&plus(&indexes, &structs), &maps).add_value(2 * SCAN_NAME_BYTES);
    let columns = plus(&plus(&leaves, &walker), &visitor_total(&paths));
    let rest = plus(
        &plus(&plus(&diagnostic, &size::<ScanRow>()), &size::<Error>()),
        &size::<OperationFailure>(),
    );
    plus(&plus(&schema, &columns), &rest).to_option()
}

/// Bounds the work of a page of scan rows.
pub fn scan_work(selected_bytes: usize, rows: usize) -> (r: Option<usize>)
    ensures
        r == fitted(scan_steps(selected_bytes as nat, rows as nat) as int),
{
    plus(
        &CheckedUsize::new(SCAN_VISITOR_STEPS).add_value(selected_bytes),
        &CheckedUsize::new(rows).mul_value(SCAN_ROW_STEPS),
    ).to_option()
}

/// The fixed steps of a scan row are those of its columns: every component and one getter for each
/// column, twice.
pub proof fn scan_rows_visit_their_columns()
    ensures
        SCAN_VISITOR_STEPS == (component_count(scan_columns(), scan_columns().len())
            + scan_columns().len()) * 2,
{
    reveal_with_fuel(component_count, 15);
}

/// A visit takes one step for each selected byte and the same steps for each row.
pub proof fn visits_add_row_by_row(selected_bytes: nat, rows: nat)
    ensures
        scan_steps(selected_bytes + 1, rows) == scan_steps(selected_bytes, rows) + 1,
        scan_steps(selected_bytes, rows + 1) == scan_steps(selected_bytes, rows) + 83,
        scan_steps(0, 0) == 76,
{
    assert(SCAN_ROW_STEPS == 83 && SCAN_VISITOR_STEPS == 76);
    assert((rows + 1) * SCAN_ROW_STEPS == rows * SCAN_ROW_STEPS + SCAN_ROW_STEPS)
        by (nonlinear_arith);
}

} // verus!
