//! What the operations read of a table: its actions, its history and its snapshot.

use crate::accounting::TaskLimits;
use crate::evaluation::Batch;
use crate::failure::Error;
use crate::json_schema_shape::PrimitiveSchemaShape;
use crate::log_manifest::LogIdentityManifest;
use crate::plan::{Expression, FileMeta, Plan};
use crate::schema::{ColumnName, StructType};
use std::sync::Arc;
use vstd::prelude::*;

verus! {

/// What a reader and a writer must support.
#[derive(Debug)]
pub struct Protocol {
    /// The least version of a reader.
    pub min_reader_version: i32,
    /// The least version of a writer.
    pub min_writer_version: i32,
    /// The features that a reader must support.
    pub reader_features: Option<Vec<String>>,
    /// The features that a writer must support.
    pub writer_features: Option<Vec<String>>,
}

/// One configuration property.
#[derive(Debug)]
pub struct Property {
    /// The property's key.
    pub key: String,
    /// Its value.
    pub value: String,
}

/// A table's metadata action.
#[derive(Debug)]
pub struct Metadata {
    /// The table's identity.
    pub id: String,
    /// Its name.
    pub name: Option<String>,
    /// Its description.
    pub description: Option<String>,
    /// The format of its data files.
    pub provider: String,
    /// Its schema, as JSON text.
    pub schema_string: String,
    /// The columns that it is partitioned by.
    pub partition_columns: Vec<String>,
    /// When it was created.
    pub created_time: Option<i64>,
    /// Its configuration.
    pub configuration: Vec<Property>,
}

/// The protocol and metadata that a replay found, with the versions that carry them.
#[derive(Debug)]
pub struct PmCandidate {
    /// The metadata.
    pub metadata: Option<(i64, Metadata)>,
    /// The protocol.
    pub protocol: Option<(i64, Protocol)>,
}

/// A table's configuration at a version.
#[derive(Debug)]
pub struct TableConfiguration {
    /// The metadata.
    pub metadata: Metadata,
    /// The protocol.
    pub protocol: Protocol,
    /// The table's root, as canonical URL text.
    pub table_root: String,
    /// The version.
    pub version: u64,
    /// The logical schema.
    pub schema: StructType,
    /// The columns that statistics are configured for.
    pub stats_columns: Option<Vec<ColumnName>>,
}

/// One commit of a history.
#[derive(Debug)]
pub struct ParsedLogPath {
    /// The commit's file.
    pub location: FileMeta,
    /// The commit's version.
    pub version: u64,
}

/// The files of a history up to a version.
#[derive(Debug)]
pub struct LogSegment {
    /// The last version.
    pub end_version: u64,
    /// The version of the checkpoint that the history starts from.
    pub checkpoint_version: Option<u64>,
    /// The parts of that checkpoint.
    pub checkpoint_parts: Vec<ParsedLogPath>,
    /// The log directory, as canonical URL text.
    pub log_root: String,
    /// The commits, in ascending order.
    pub ascending_commit_files: Vec<ParsedLogPath>,
    /// The last commit.
    pub latest_commit_file: Option<ParsedLogPath>,
    /// The last version that is known to be published.
    pub max_published_version: Option<u64>,
}

/// A table at a version, as a snapshot task built it.
#[derive(Debug)]
pub struct Snapshot {
    /// The history.
    pub log_segment: LogSegment,
    /// The configuration.
    pub configuration: TableConfiguration,
    /// Whether the version was the latest when it was discovered.
    pub is_latest: bool,
    /// What the snapshot retains, as it was charged.
    pub json_task_retained_bytes: usize,
    /// The identities of the history's files, where a snapshot task discovered them.
    pub log_identity_manifest: Option<Arc<LogIdentityManifest>>,
}

/// The sizes of owners that only the table implementation knows.
#[derive(Debug, Clone, Copy, PartialEq, Eq, Structural)]
pub struct KernelLayout {
    /// A sparse projection under construction.
    pub projection_builder: usize,
    /// A plan under construction.
    pub plan_builder: usize,
    /// The visitor that reads metadata actions.
    pub metadata_visitor: usize,
    /// The visitor that reads protocol actions.
    pub protocol_visitor: usize,
    /// One transformation of a scanned field.
    pub field_transform: usize,
    /// One entry of a column trie.
    pub column_trie_entry: usize,
    /// The state of a scan.
    pub scan_state: usize,
    /// A scan.
    pub scan: usize,
    /// A scan under construction.
    pub scan_builder: usize,
    /// A JSON decoder over borrowed text.
    pub json_decoder: usize,
    /// A decoded JSON value.
    pub json_value: usize,
}

/// One live file of a table, as a scan reports it.
#[derive(Debug)]
pub struct ScanRow {
    /// The file's path, relative to the table's root or absolute.
    pub path: String,
    /// Its size.
    pub size: i64,
    /// Whether it has a deletion vector.
    pub has_deletion_vector: bool,
    /// The number of its partition values.
    pub partition_values: usize,
    /// Whether its rows are transformed.
    pub has_transform: bool,
}

/// Rows with a mark for each that says whether it is selected.
pub struct FilteredEngineData<T> {
    /// The rows.
    pub data: T,
    /// Which of them are selected.
    pub selection: Vec<bool>,
}

impl<T> FilteredEngineData<T> {
    /// Selects all of `rows` rows.
    pub fn with_all_rows_selected(data: T, rows: usize) -> (filtered: FilteredEngineData<T>)
        ensures
            filtered.data == data,
            filtered.selection@ == Seq::new(rows as nat, |i: int| true),
    {
        let mut selection: Vec<bool> = Vec::with_capacity(rows);
        let mut i: usize = 0;
        while i < rows
            invariant
                i <= rows,
                selection@ == Seq::new(i as nat, |i: int| true),
            decreases rows - i,
        {
            selection.push(true);
            assert(selection@ =~= Seq::new((i + 1) as nat, |i: int| true));
            i += 1;
        }
        FilteredEngineData { data, selection }
    }
}

/// One batch of scan rows, as a scan hands it over.
pub struct ScanMetadata {
    /// The rows, one for each file.
    pub scan_files: FilteredEngineData<Batch>,
    /// The transform of each row, where rows are transformed.
    pub scan_file_transforms: Vec<Option<Expression>>,
}

/// The table implementation: how plans are built, and how rows and texts become actions.
///
/// The operations decide what is admitted before each call and what becomes of its result.
pub trait TableKernel {
    /// The plan that replays the protocol and metadata of a history.
    fn protocol_metadata_plan(&self, segment: &LogSegment) -> Result<Plan, Error>;

    /// The plan that replays the live files of a snapshot, without statistics.
    fn live_files_plan(&self, snapshot: &Snapshot) -> Result<Option<Plan>, Error>;

    /// Reads the replayed protocol and metadata out of a batch.
    fn protocol_metadata(&self, batch: &Batch) -> Result<PmCandidate, Error>;

    /// Inspects a schema text and tells `shape` what it finds, in the order of the text, until
    /// `shape` stops it. Gives the shape back, and the decoder's diagnostic where the text cannot be
    /// decoded.
    fn inspect_schema(&self, json: &str, limits: &TaskLimits, shape: PrimitiveSchemaShape) -> (
        PrimitiveSchemaShape,
        Result<(), String>,
    );

    /// Makes the configuration of a table out of its actions.
    fn configure(&self, metadata: Metadata, protocol: Protocol, table_root: &str, version: u64) -> Result<
        TableConfiguration,
        Error,
    >;

    /// Reads the live files out of a batch of scan rows.
    fn scan_rows(&self, batch: &Batch) -> Result<Vec<ScanRow>, Error>;
}

} // verus!
