use std::mem::size_of;
use std::sync::atomic::{AtomicUsize, Ordering};
use std::sync::Arc;

use operation_tasks::checks::{check, exhausted};
use operation_tasks::evaluation::Batch;
use operation_tasks::failure::Error;
use operation_tasks::headroom::Headroom;
use operation_tasks::json_discovery::LogDiscovery;
use operation_tasks::json_materialization::{preflight_pm, Admission};
use operation_tasks::json_plans::JsonPlanBudget;
use operation_tasks::json_producer_shape::manifest_work;
use operation_tasks::json_scan::ScanState;
use operation_tasks::json_scan_allocation::scan_builder_peak;
use operation_tasks::json_schema_shape::PrimitiveSchemaShape;
use operation_tasks::json_snapshot::SnapshotState;
use operation_tasks::json_visitor_allocation::{
    metadata_paths, pm_fixed_peak, protocol_paths, scan_fixed_peak, scan_paths,
};
use operation_tasks::plan::{
    Expression, FileMeta, FileScan, Filter, Operator, Plan, PlanNode, Predicate, ScanFile,
    UnaryPredicateOp,
};
use operation_tasks::protocol::{IdentityAllocator, ObjectIdentity};
use operation_tasks::rows::{GetData, MapItem, RowView};
use operation_tasks::schema::{ColumnName, DataType, PrimitiveType, StructField, StructType};
use operation_tasks::sizing::{hash_peak, vector_peak};
use operation_tasks::table::{
    KernelLayout, LogSegment, Metadata, PmCandidate, Protocol, ScanMetadata, ScanRow,
    Snapshot, TableConfiguration, TableKernel,
};
use operation_tasks::table_support::{root_owner_peak, task_evaluation_limits};
use operation_tasks::{
    AccountedEngineData, AdmittedPlan, CancelDisposition, CancelReason, CpuSlice, EvaluationKey,
    EvaluationPage, FailureKind, FileDescriptor, LogIdentityManifest, OperationFailure,
    OperationTask, PlanAdmissionError, Resource, ResourceExhausted, ScanMetadataTask,
    SnapshotLoadTask, TaskAccounting, TaskAction, TaskId, TaskLimits, TaskMachine,
    TaskProtocolError, TaskRequest, TaskRequestV1, TaskResponseV1, TaskState, TaskStep,
};

fn ok<T>(result: Result<T, OperationFailure>) -> T {
    match result {
        Ok(value) => value,
        Err(failure) => panic!("{}", failure.message()),
    }
}

fn layout() -> KernelLayout {
    KernelLayout {
        projection_builder: 64,
        plan_builder: 48,
        metadata_visitor: 256,
        protocol_visitor: 128,
        field_transform: 96,
        column_trie_entry: 72,
        scan_state: 320,
        scan: 400,
        scan_builder: 160,
        json_decoder: 56,
        json_value: 72,
    }
}

/// A kernel whose plans read the given files and drop rows that name no file.
struct Kernel;

fn long(name: &str) -> StructField {
    StructField::nullable(name, DataType::Primitive(PrimitiveType::Long))
}

fn log_plan(segment: &LogSegment) -> Plan {
    let files = segment
        .ascending_commit_files
        .iter()
        .map(|commit| ScanFile {
            meta: FileMeta {
                location: commit.location.location.clone(),
                last_modified: commit.location.last_modified,
                size: commit.location.size,
            },
            file_constants: vec![],
        })
        .collect();
    Plan {
        nodes: vec![
            PlanNode {
                op: Operator::ScanJson(FileScan {
                    files,
                    file_constant_columns: vec![],
                    schema: StructType {
                        fields: vec![long("version")],
                    },
                }),
                inputs: vec![],
            },
            PlanNode {
                op: Operator::Filter(Filter {
                    predicate: Predicate::Not(Box::new(Predicate::Unary(
                        UnaryPredicateOp::IsNull,
                        Box::new(Expression::Column(ColumnName {
                            path: vec!["version".to_string()],
                        })),
                    ))),
                }),
                inputs: vec![0],
            },
        ],
    }
}

fn text(getter: &dyn GetData, name: &str) -> Result<Option<String>, Error> {
    Ok(getter.get_str(0, name)?.map(|text| text.to_string()))
}

fn primitive(name: &str) -> PrimitiveType {
    match name {
        "long" => PrimitiveType::Long,
        "string" => PrimitiveType::String,
        "timestamp" => PrimitiveType::Timestamp,
        other => panic!("no such type: {other}"),
    }
}

fn parse_schema(json: &str) -> StructType {
    let value: serde_json::Value = serde_json::from_str(json).unwrap();
    let fields = value["fields"].as_array().unwrap();
    StructType {
        fields: fields
            .iter()
            .map(|field| {
                StructField::nullable(
                    field["name"].as_str().unwrap(),
                    DataType::Primitive(primitive(field["type"].as_str().unwrap())),
                )
            })
            .collect(),
    }
}

fn inspect_value(
    json: &str,
    limits: &TaskLimits,
    shape: &mut PrimitiveSchemaShape,
) -> Result<(), String> {
    let value: serde_json::Value = serde_json::from_str(json).map_err(|e| e.to_string())?;
    let stop = || "stopped".to_string();
    let root = value.as_object().ok_or("expected an object")?;
    for (key, value) in root {
        match key.as_str() {
            "type" => match value {
                serde_json::Value::String(name) => {
                    shape.root_type(name, limits).map_err(|_| stop())?
                }
                serde_json::Value::Object(_) => {
                    shape.refuse();
                    return Err(stop());
                }
                _ => return Err("expected a type".to_string()),
            },
            "fields" => {
                for field in value.as_array().ok_or("expected a list")? {
                    let field = field.as_object().ok_or("expected a field")?;
                    shape.begin_field(limits).map_err(|_| stop())?;
                    for (key, value) in field {
                        match (key.as_str(), value) {
                            ("name", serde_json::Value::String(name)) => {
                                shape.field_name(name, limits).map_err(|_| stop())?
                            }
                            ("type", serde_json::Value::String(name)) => {
                                shape.field_type(name, limits).map_err(|_| stop())?
                            }
                            ("name" | "type", serde_json::Value::Object(_)) => {
                                shape.refuse();
                                return Err(stop());
                            }
                            ("name" | "type", _) => return Err("expected a string".to_string()),
                            ("metadata", serde_json::Value::Object(entries)) => {
                                if !entries.is_empty() {
                                    shape.refuse();
                                    return Err(stop());
                                }
                            }
                            _ => {}
                        }
                    }
                }
            }
            _ => {}
        }
    }
    Ok(())
}

impl TableKernel for Kernel {
    fn protocol_metadata_plan(&self, segment: &LogSegment) -> Result<Plan, Error> {
        Ok(log_plan(segment))
    }
    fn live_files_plan(&self, snapshot: &Snapshot) -> Result<Option<Plan>, Error> {
        Ok(Some(log_plan(&snapshot.log_segment)))
    }
    fn protocol_metadata(&self, batch: &Batch) -> Result<PmCandidate, Error> {
        let view = batch.visit_rows(&protocol_paths())?;
        let protocol = match view.getters[0].get_int(0, "minReaderVersion")? {
            None => None,
            Some(reader) => Some((
                0,
                Protocol {
                    min_reader_version: reader,
                    min_writer_version: view.getters[1].get_int(0, "minWriterVersion")?.unwrap(),
                    reader_features: None,
                    writer_features: None,
                },
            )),
        };
        let view = batch.visit_rows(&metadata_paths())?;
        let metadata = match text(view.getters[0], "id")? {
            None => None,
            Some(id) => Some((
                0,
                Metadata {
                    id,
                    name: text(view.getters[1], "name")?,
                    description: text(view.getters[2], "description")?,
                    provider: text(view.getters[3], "provider")?.unwrap_or_default(),
                    schema_string: text(view.getters[5], "schemaString")?.unwrap(),
                    partition_columns: vec![],
                    created_time: None,
                    configuration: vec![],
                },
            )),
        };
        Ok(PmCandidate { metadata, protocol })
    }
    fn inspect_schema(
        &self,
        json: &str,
        limits: &TaskLimits,
        mut shape: PrimitiveSchemaShape,
    ) -> (PrimitiveSchemaShape, Result<(), String>) {
        let decoded = inspect_value(json, limits, &mut shape);
        (shape, decoded)
    }
    fn configure(
        &self,
        metadata: Metadata,
        protocol: Protocol,
        table_root: &str,
        version: u64,
    ) -> Result<TableConfiguration, Error> {
        let schema = parse_schema(&metadata.schema_string);
        Ok(TableConfiguration {
            metadata,
            protocol,
            table_root: table_root.to_string(),
            version,
            schema,
            stats_columns: None,
        })
    }
    fn scan_rows(&self, batch: &Batch) -> Result<Vec<ScanRow>, Error> {
        let view = batch.visit_rows(&scan_paths())?;
        let mut rows = vec![];
        for row in 0..view.rows {
            if let Some(path) = view.getters[0].get_str(row, "path")? {
                rows.push(ScanRow {
                    path: path.to_string(),
                    size: view.getters[1].get_long(row, "size")?.unwrap_or(0),
                    has_deletion_vector: false,
                    partition_values: 0,
                    has_transform: false,
                });
            }
        }
        Ok(rows)
    }
}

/// A batch of one row, which answers its two borrowed reads and then refuses.
struct Row {
    schema: String,
    bytes: usize,
    drops: Arc<AtomicUsize>,
    visits: Arc<AtomicUsize>,
}

impl Drop for Row {
    fn drop(&mut self) {
        self.drops.fetch_add(1, Ordering::SeqCst);
    }
}

impl GetData for Row {
    fn get_str(&self, _: usize, _: &str) -> Result<Option<&str>, Error> {
        Ok(Some(&self.schema))
    }
    fn get_int(&self, _: usize, _: &str) -> Result<Option<i32>, Error> {
        Err(Error::generic("not a number"))
    }
    fn get_long(&self, _: usize, _: &str) -> Result<Option<i64>, Error> {
        Err(Error::generic("not a number"))
    }
    fn get_list(&self, _: usize, _: &str) -> Result<Option<usize>, Error> {
        Err(Error::generic("not a list"))
    }
    fn get_map(&self, _: usize, _: &str) -> Result<Option<MapItem<'_>>, Error> {
        Err(Error::generic("not a map"))
    }
}

impl AccountedEngineData for Row {
    fn len(&self) -> usize {
        1
    }
    fn accounted_bytes(&self) -> Result<usize, ResourceExhausted> {
        Ok(self.bytes)
    }
    fn visit_rows<'a>(&'a self, columns: &Vec<Vec<&'static str>>) -> Result<RowView<'a>, Error> {
        match self.visits.fetch_add(1, Ordering::SeqCst) {
            0 => {
                assert_eq!(columns.len(), 4, "borrowed protocol preflight expected");
                Ok(RowView {
                    rows: 1,
                    getters: vec![&(), &(), &(), &()],
                })
            }
            1 => {
                assert_eq!(columns.len(), 9, "borrowed metadata preflight expected");
                Ok(RowView {
                    rows: 1,
                    getters: vec![self, &(), &(), &(), &(), self, &(), &(), &()],
                })
            }
            _ => panic!("owned action materialization must not run after rejected preflight"),
        }
    }
}

fn boxed(batch: impl AccountedEngineData + 'static) -> Batch {
    Box::new(batch)
}

fn keys() -> (TaskId, EvaluationKey) {
    let mut ids = IdentityAllocator::new();
    let id = TaskId::allocate(&mut ids).unwrap();
    let evaluation = EvaluationKey::allocate(&mut ids, id.get()).unwrap();
    (id, evaluation)
}

fn state(limits: TaskLimits, evaluation: EvaluationKey) -> SnapshotState<Kernel> {
    SnapshotState {
        kernel: Kernel,
        layout: layout(),
        table_root: "memory:///table/".to_string(),
        roots: 1024,
        evaluation,
        limits,
        discovery: LogDiscovery {
            log_root: String::new(),
            version: None,
            limits,
            files: Vec::new(),
            file_path_capacity: 0,
            listing: Vec::new(),
            listing_path_capacity: 0,
            listing_index: 0,
            continuation: None,
            discovery_done: true,
        },
        manifest: None,
        segment: None,
        segment_bytes: 0,
        plan: None,
        evaluating: true,
        page: None,
        page_index: 0,
        candidate: None,
        materialized_bytes: 0,
        host_retained_bytes: 0,
        evaluation_done: false,
    }
}

fn cpu() -> CpuSlice {
    CpuSlice::new(1024, 1 << 20, 256).unwrap()
}

fn assert_resource(failure: &OperationFailure, resource: Resource) {
    assert!(
        matches!(failure.kind(), FailureKind::ResourceExhausted(e) if e.resource == resource),
        "{}",
        failure.message()
    );
}

fn commit(path: &str) -> FileDescriptor {
    FileDescriptor {
        path: path.to_string(),
        size: 1,
        modification_time: 0,
        identity: ObjectIdentity::new([1; 32]),
    }
}

fn load(
    keys: (TaskId, EvaluationKey),
    root: &str,
    version: Option<u64>,
    limits: TaskLimits,
) -> Result<SnapshotLoadTask<Kernel>, OperationFailure> {
    SnapshotLoadTask::try_new(Kernel, layout(), keys.0, keys.1, root, version, limits)
}

fn columns_schema(names: Vec<String>) -> StructType {
    StructType {
        fields: names.iter().map(|name| long(name)).collect(),
    }
}

fn one_column() -> StructType {
    columns_schema(vec!["a".to_string()])
}

fn snapshot(schema: StructType) -> Arc<Snapshot> {
    let limits = TaskLimits::qualification();
    let root = "memory:///table/";
    let manifest = Arc::new(ok(LogIdentityManifest::try_new(
        "memory:///table/_delta_log/".to_string(),
        vec![FileDescriptor {
            path: "memory:///table/_delta_log/00000000000000000000.json".to_string(),
            size: 1024,
            modification_time: 0,
            identity: ObjectIdentity::new([1; 32]),
        }],
        &limits,
    )));
    let log_segment = ok(manifest.to_log_segment(root, &limits));
    Arc::new(Snapshot {
        log_segment,
        configuration: TableConfiguration {
            metadata: Metadata {
                id: "table".to_string(),
                name: None,
                description: None,
                provider: "parquet".to_string(),
                schema_string: String::new(),
                partition_columns: vec![],
                created_time: Some(0),
                configuration: vec![],
            },
            protocol: Protocol {
                min_reader_version: 1,
                min_writer_version: 2,
                reader_features: None,
                writer_features: None,
            },
            table_root: root.to_string(),
            version: 0,
            schema,
            stats_columns: None,
        },
        is_latest: true,
        json_task_retained_bytes: 1 << 20,
        log_identity_manifest: Some(manifest),
    })
}

/// A kernel that nothing may ask.
struct Unbuilt;

impl TableKernel for Unbuilt {
    fn protocol_metadata_plan(&self, _: &LogSegment) -> Result<Plan, Error> {
        panic!("no plan before its admission")
    }
    fn live_files_plan(&self, _: &Snapshot) -> Result<Option<Plan>, Error> {
        panic!("no plan before its admission")
    }
    fn protocol_metadata(&self, _: &Batch) -> Result<PmCandidate, Error> {
        panic!("no actions before their admission")
    }
    fn inspect_schema(
        &self,
        _: &str,
        _: &TaskLimits,
        _: PrimitiveSchemaShape,
    ) -> (PrimitiveSchemaShape, Result<(), String>) {
        panic!("no parser before its admission")
    }
    fn configure(
        &self,
        _: Metadata,
        _: Protocol,
        _: &str,
        _: u64,
    ) -> Result<TableConfiguration, Error> {
        panic!("no configuration before its admission")
    }
    fn scan_rows(&self, _: &Batch) -> Result<Vec<ScanRow>, Error> {
        panic!("no rows before their admission")
    }
}

/// A batch without rows, which counts its reads.
struct EmptyPage {
    visits: Arc<AtomicUsize>,
}

impl AccountedEngineData for EmptyPage {
    fn len(&self) -> usize {
        0
    }
    fn accounted_bytes(&self) -> Result<usize, ResourceExhausted> {
        Ok(0)
    }
    fn visit_rows<'a>(&'a self, columns: &Vec<Vec<&'static str>>) -> Result<RowView<'a>, Error> {
        self.visits.fetch_add(1, Ordering::SeqCst);
        match columns.len() {
            4 => Ok(RowView {
                rows: 0,
                getters: vec![&(); 4],
            }),
            9 => Ok(RowView {
                rows: 0,
                getters: vec![&(); 9],
            }),
            _ => unreachable!(),
        }
    }
}

/// A batch without rows, whose host keeps an amount for the task.
struct HostedPage(usize);

impl AccountedEngineData for HostedPage {
    fn len(&self) -> usize {
        0
    }
    fn accounted_bytes(&self) -> Result<usize, ResourceExhausted> {
        Ok(0)
    }
    fn host_retained_bytes(&self) -> usize {
        self.0
    }
    fn visit_rows<'a>(&'a self, _: &Vec<Vec<&'static str>>) -> Result<RowView<'a>, Error> {
        unreachable!()
    }
}

#[test]
fn pages_raise_what_the_host_keeps_to_the_most_that_a_batch_reports() {
    let limits = TaskLimits::qualification();
    let bounds = ok(task_evaluation_limits(&limits)).page();
    let (_, evaluation) = keys();
    let mut state = state(limits, evaluation);
    let mut accounting = TaskAccounting::new(limits);
    for (reports, expected) in [(vec![3, 1000, 7], 1000), (vec![10], 1000), (vec![1001], 1001)] {
        let batches = reports.into_iter().map(|bytes| boxed(HostedPage(bytes))).collect();
        let page = ok(EvaluationPage::try_new(batches, bounds));
        ok(state.accept_page(Some(page), &mut accounting));
        assert_eq!(state.host_retained_bytes, expected);
        assert!(state.page.is_some());
    }
    // An amount that cannot be held refuses the page, and is taken over nevertheless.
    let page = ok(EvaluationPage::try_new(vec![boxed(HostedPage(usize::MAX))], bounds));
    state.page = None;
    let refused = state.accept_page(Some(page), &mut accounting).err().unwrap();
    assert_resource(&refused, Resource::TaskStateBytes);
    assert_eq!(state.host_retained_bytes, usize::MAX);
    assert!(state.page.is_none());
}

#[test]
fn listing_path_validation_is_prepaid_at_exact_and_one_less_work() {
    let path = "memory:///table/_delta_log/00000000000000000000.json";
    let required = 1 + 1 + 2 * path.len(); // capacity fold, validation visit, two comparisons
    for available in [required - 1, required] {
        let limits = TaskLimits::qualification()
            .with_limit(Resource::ListingEntries, 2)
            .with_limit(Resource::WorkUnits, available);
        let (id, evaluation) = keys();
        let mut task = ok(load((id, evaluation), "memory:///table/", None, limits));
        let TaskStep::Execute(request) = task.start(cpu()).unwrap() else {
            panic!("listing")
        };
        // One byte prevents advance from entering filename interpretation.
        let turn = CpuSlice::new(1, 1, 256).unwrap();
        let step = task
            .resume(
                request.key,
                Ok(TaskResponseV1::Listing {
                    files: vec![FileDescriptor {
                        path: path.to_string(),
                        size: 1,
                        modification_time: 0,
                        identity: ObjectIdentity::new([1; 32]),
                    }],
                    continuation: None,
                }),
                turn,
            )
            .unwrap();
        let TaskStep::Failed(error) = step else {
            panic!("bounded turn must refuse")
        };
        assert_resource(
            &error,
            if available == required {
                Resource::TurnInputBytes
            } else {
                Resource::WorkUnits
            },
        );
        assert_eq!(task.accounting().usage(Resource::Records).consumed(), 0);
        assert_eq!(
            task.accounting().usage(Resource::WorkUnits).consumed(),
            if available == required { required } else { 1 }
        );
    }
}

#[test]
fn cached_path_capacities_follow_sliced_listing_cutoff_transfer_and_cancel() {
    let root = "memory:///table/_delta_log/";
    let limits = TaskLimits::qualification().with_limit(Resource::ListingEntries, 4);
    for cancel_after_partial in [true, false] {
        let (id, evaluation) = keys();
        let mut state = state(limits, evaluation);
        state.discovery.log_root = root.to_string();
        state.discovery.files = Vec::with_capacity(3);
        state.discovery.version = Some(1);
        state.evaluating = false;
        state.discovery.discovery_done = false;
        let listing: Vec<_> = (0..3)
            .map(|version| {
                let mut path = format!("{root}{version:020}.json");
                // Deliberately unequal spare capacities detect length-based
                // accounting and subtraction of the wrong moved owner.
                path.reserve(31 + version * 17);
                FileDescriptor {
                    path,
                    size: 1,
                    modification_time: 0,
                    identity: ObjectIdentity::new([version as u8; 32]),
                }
            })
            .collect();
        let capacities: Vec<_> = listing.iter().map(|f| f.path.capacity()).collect();
        let mut accounting = TaskAccounting::new(limits);
        let slice = CpuSlice::new(1, 1 << 20, 256).unwrap();
        assert!(matches!(
            ok(state.resume(
                TaskResponseV1::Listing {
                    files: listing,
                    continuation: None
                },
                slice,
                &mut accounting,
            )),
            TaskAction::Yield
        ));
        // The real accepted response has moved exactly one owner this turn.
        assert_eq!(state.discovery.files.len(), 1);
        assert_eq!(state.discovery.listing_index, 1);
        assert_eq!(state.discovery.file_path_capacity, capacities[0]);
        assert_eq!(state.discovery.listing_path_capacity, capacities[1] + capacities[2]);
        assert_eq!(
            state.discovery.file_path_capacity,
            state.discovery.files.iter().map(|f| f.path.capacity()).sum::<usize>()
        );
        assert_eq!(
            state.discovery.listing_path_capacity,
            state
                .discovery
                .listing
                .iter()
                .map(|f| f.path.capacity())
                .sum::<usize>()
        );
        if !cancel_after_partial {
            assert!(matches!(
                ok(state.advance(slice, &mut accounting)),
                TaskAction::Request
            ));
            // Version1 ends discovery: version2 is discarded, and accepted
            // version0/1 path owners transfer intact into the manifest.
            assert!(state.discovery.files.is_empty());
            assert!(state.discovery.listing.is_empty());
            assert_eq!(
                state.discovery.file_path_capacity,
                state.discovery.files.iter().map(|f| f.path.capacity()).sum::<usize>()
            );
            assert_eq!(
                state.discovery.listing_path_capacity,
                state
                    .discovery
                    .listing
                    .iter()
                    .map(|f| f.path.capacity())
                    .sum::<usize>()
            );
            let files = state.manifest.as_ref().unwrap().files();
            assert_eq!(files.len(), 2);
            assert_eq!(
                files.iter().map(|f| f.path.capacity()).sum::<usize>(),
                capacities[0] + capacities[1]
            );
        }
        // Cancellation releases either partially moved listing state or
        // transferred manifest state through the actual machine lifecycle.
        let manifest = state.manifest.as_ref().map(Arc::downgrade);
        let mut machine = ok(TaskMachine::new(id, state, limits));
        let fixed = size_of::<TaskMachine<SnapshotState<Kernel>>>();
        assert!(machine.accounting().usage(Resource::TaskStateBytes).live() > fixed);
        assert!(matches!(
            machine.cancel(CancelReason::Caller),
            CancelDisposition::Cancelled(None)
        ));
        // The still-owned machine itself remains accounted after semantic
        // cleanup; no dynamic path or manifest owner may remain live.
        assert_eq!(
            machine.accounting().usage(Resource::TaskStateBytes).live(),
            fixed
        );
        assert!(
            machine
                .accounting()
                .usage(Resource::TaskStateBytes)
                .peak_live()
                > fixed
        );
        if let Some(manifest) = manifest {
            assert!(manifest.upgrade().is_none());
        }
    }
}

#[test]
fn manifest_and_producer_work_is_prepaid_before_ownership_transfer() {
    let root = "memory:///table/_delta_log/";
    let profile = TaskLimits::qualification();
    let required = JsonPlanBudget::producer_work(64, root.len(), &profile).unwrap()
        + manifest_work(64, root.len()).unwrap();
    for available in [required - 1, required] {
        let limits = profile.with_limit(Resource::WorkUnits, available);
        let (_, evaluation) = keys();
        let mut state = state(limits, evaluation);
        state.discovery.log_root = root.to_string();
        state.discovery.files = (0..64)
            .map(|version| FileDescriptor {
                path: format!("{root}{version:020}.json"),
                size: 1,
                modification_time: 0,
                identity: ObjectIdentity::new([version as u8; 32]),
            })
            .collect();
        state.discovery.file_path_capacity = state.discovery.files.iter().map(|f| f.path.capacity()).sum();
        let mut accounting = TaskAccounting::new(limits);
        let result = state.finish_discovery(&mut accounting, cpu());
        if available < required {
            assert_resource(&result.err().unwrap(), Resource::WorkUnits);
            assert_eq!(
                state.discovery.files.len(),
                64,
                "manifest must not take owners before admission"
            );
            assert!(state.manifest.is_none());
            assert!(state.plan.is_none());
            assert_eq!(accounting.usage(Resource::WorkUnits).consumed(), 0);
        } else {
            ok(result);
            assert!(state.discovery.files.is_empty());
            assert_eq!(state.discovery.file_path_capacity, 0);
            assert_eq!(state.manifest.as_ref().unwrap().files().len(), 64);
            assert!(state.plan.is_some());
            assert_eq!(accounting.usage(Resource::WorkUnits).consumed(), required);
        }
    }
}

#[test]
fn json_task_root_owners_cover_canonical_join_and_boundary() {
    for input in [
        "memory:///table",
        "https://example.com/t%20able/",
        "file:///C:/table",
        "https://xn--bcher-kva.example/table",
    ] {
        let parsed = url::Url::parse(input).unwrap();
        let root = parsed.as_str();
        let (id, evaluation) = keys();
        let limits = TaskLimits::qualification().with_limit(Resource::LogDescriptors, 1);
        let required = root_owner_peak(root.len()).unwrap()
            + size_of::<FileDescriptor>()
            + size_of::<SnapshotLoadTask<Kernel>>()
            + size_of::<SnapshotState<Kernel>>();
        let failure = load((id, evaluation), root, None, limits.with_limit(Resource::TaskStateBytes, required - 1)).err().unwrap();
        assert_resource(&failure, Resource::TaskStateBytes);
        let (id, evaluation) = keys();
        let task = ok(load((id, evaluation), root, None, limits.with_limit(Resource::TaskStateBytes, required)));
        drop(task);
        let (id, evaluation) = keys();
        let mut task = ok(load((id, evaluation), root, None, limits));
        let TaskStep::Execute(request) = task.start(cpu()).unwrap() else {
            panic!("listing expected")
        };
        let TaskRequestV1::List { root: actual, .. } = request.operation else {
            panic!("listing expected")
        };
        let mut expected = parsed.clone();
        if !expected.path().ends_with('/') {
            expected.path_segments_mut().unwrap().push("");
        }
        assert_eq!(actual, expected.join("_delta_log/").unwrap().as_str());
        task.cancel(CancelReason::Caller);
    }
    assert_eq!(root_owner_peak(usize::MAX), None);
}
#[test]
fn json_task_plan_and_constructor_exhaustion_preserve_category_and_cleanup() {
    let (id, evaluation) = keys();
    let root = "memory:///table/";
    let failure = load((id, evaluation), root, None, TaskLimits::qualification().with_limit(Resource::TaskStateBytes, 1)).err().unwrap();
    assert_resource(&failure, Resource::TaskStateBytes);
    let (id, evaluation) = keys();
    let mut task = ok(load((id, evaluation), root, None, TaskLimits::qualification().with_limit(Resource::PlanNodes, 1)));
    let TaskStep::Execute(request) = task.start(cpu()).unwrap() else {
        panic!("listing expected")
    };
    let files = vec![FileDescriptor {
        path: "memory:///table/_delta_log/00000000000000000000.json".into(),
        size: 1,
        modification_time: 0,
        identity: ObjectIdentity::new([1; 32]),
    }];
    let TaskStep::Failed(failure) = task
        .resume(
            request.key,
            Ok(TaskResponseV1::Listing {
                files,
                continuation: None,
            }),
            cpu(),
        )
        .unwrap()
    else {
        panic!("failure expected")
    };
    assert_resource(&failure, Resource::PlanNodes);
    assert_eq!(
        task.accounting().usage(Resource::TaskStateBytes).live(),
        size_of::<TaskMachine<SnapshotState<Kernel>>>()
    );
    assert_eq!(
        task.progress(cpu()).err(),
        Some(TaskProtocolError::Terminal)
    );
}
#[test]
fn json_task_schema_preflight_categories_survive_visitor_and_cleanup() {
    for resource in [
        Resource::SchemaDepth,
        Resource::SchemaNodes,
        Resource::PartialJsonBytes,
    ] {
        let limits = TaskLimits::qualification().with_limit(resource, 1);
        rejected_page(
            limits,
            "{\"type\":\"struct\",\"fields\":[]}",
            1024,
            Some(resource),
        );
    }
    rejected_page(TaskLimits::qualification(), "{\"unclosed\":", 1024, None);
}
#[test]
fn json_task_incoming_page_and_materialization_must_fit_simultaneously() {
    let bytes = 100_000;
    let materialization =
        pm_fixed_peak(&layout()).unwrap() + 2 * "{}".len();
    let base = 1024 + size_of::<TaskMachine<SnapshotState<Kernel>>>();
    let page = bytes + size_of::<Box<dyn AccountedEngineData>>();
    let limit = base + materialization + page - 1;
    assert!(base + page < limit && base + materialization < limit);
    rejected_page(
        TaskLimits::qualification().with_limit(Resource::TaskStateBytes, limit),
        "{}",
        bytes,
        Some(Resource::TaskStateBytes),
    );
}
#[test]
fn json_host_and_kernel_fixed_preflight_compose_at_exact_boundary() {
    let fixed = pm_fixed_peak(&layout()).unwrap();
    let host = fixed * 2;
    let (_, evaluation) = keys();
    let mut state = state(TaskLimits::qualification(), evaluation);
    state.host_retained_bytes = host;
    let kernel =
        TaskState::retained_bytes(&state).unwrap() - host + size_of::<TaskMachine<SnapshotState<Kernel>>>();
    let exact = kernel + host + fixed;
    assert!(kernel + fixed < exact - 1 && host < exact - 1);
    for resource in [Resource::TaskStateBytes, Resource::MetadataAllocatedBytes] {
        for (limit, expected) in [(exact, true), (exact - 1, false)] {
            state.limits = TaskLimits::qualification().with_limit(resource, limit);
            let accounting = TaskAccounting::new(state.limits);
            let visits = Arc::new(AtomicUsize::new(0));
            // Even an empty batch runs both selected column-map/getter
            // visitors. No dynamic action strings need materialization.
            let batch = boxed(EmptyPage {
                visits: visits.clone(),
            });
            let first = preflight_pm(
                &batch,
                Admission {
                    limits: &state.limits,
                    accounting: &accounting,
                    headroom: state.headroom(&accounting),
                    layout: &state.layout,
                },
            );
            assert_eq!(first.is_ok(), expected);
            if !expected {
                assert_resource(&first.err().unwrap(), resource);
                assert_eq!(visits.load(Ordering::SeqCst), 0);
            }
            if expected {
                assert_eq!(visits.load(Ordering::SeqCst), 2);
            }
            drop(batch);
        }
    }
}
fn rejected_page(limits: TaskLimits, schema: &str, bytes: usize, resource: Option<Resource>) {
    let (id, evaluation) = keys();
    let mut machine = ok(TaskMachine::new(id, state(limits, evaluation), limits));
    let TaskStep::Execute(request) = machine.start(cpu()).unwrap() else {
        panic!("evaluation expected")
    };
    let drops = Arc::new(AtomicUsize::new(0));
    let visits = Arc::new(AtomicUsize::new(0));
    let batch = Row {
        schema: schema.to_string(),
        bytes,
        drops: drops.clone(),
        visits: visits.clone(),
    };
    let page = ok(EvaluationPage::try_new(
        vec![Box::new(batch)],
        ok(task_evaluation_limits(&limits)).page(),
    ));
    let TaskStep::Failed(failure) = machine
        .resume(
            request.key,
            Ok(TaskResponseV1::Evaluation {
                evaluation,
                page: Some(page),
            }),
            cpu(),
        )
        .unwrap()
    else {
        panic!("preflight must fail")
    };
    if let Some(resource) = resource {
        assert_resource(&failure, resource);
    } else {
        assert_eq!(failure.kind(), FailureKind::MalformedResponse);
    }
    assert_eq!(drops.load(Ordering::SeqCst), 1);
    assert_eq!(visits.load(Ordering::SeqCst), 2);
    assert_eq!(
        machine.accounting().usage(Resource::TaskStateBytes).live(),
        size_of::<TaskMachine<SnapshotState<Kernel>>>()
    );
    assert_eq!(
        machine.progress(cpu()).err(),
        Some(TaskProtocolError::Terminal)
    );
}

#[test]
fn json_task_scan_producer_work_survives_cancel_before_start() {
    let snapshot = snapshot(one_column());
    let limits = TaskLimits::qualification();
    let manifest = snapshot.log_identity_manifest.as_ref().unwrap();
    let budget = JsonPlanBudget::preflight_scan(
        manifest,
        &snapshot.configuration.schema,
        &snapshot.configuration.stats_columns,
        snapshot.json_task_retained_bytes,
        &limits,
        &layout(),
    )
    .unwrap();
    let (id, evaluation) = keys();
    let mut task = ok(ScanMetadataTask::try_new(Kernel, layout(), id, evaluation, snapshot, limits));
    assert!(budget.work_units() > 0);
    assert_eq!(
        task.accounting().usage(Resource::WorkUnits).consumed(),
        budget.work_units()
    );
    assert_eq!(
        task.cancel(CancelReason::Caller),
        CancelDisposition::Cancelled(None)
    );
    assert_eq!(
        task.accounting().usage(Resource::WorkUnits).consumed(),
        budget.work_units()
    );
}

#[test]
fn json_task_scan_page_and_output_preflight_share_live_ownership() {
    let snapshot = snapshot(one_column());
    let bytes = 100_000;
    let temporary = scan_fixed_peak().unwrap();
    let output = Vec::with_capacity(1);
    let base = snapshot.json_task_retained_bytes
        + output.capacity() * size_of::<ScanMetadata>()
        + size_of::<TaskMachine<ScanState<Kernel>>>();
    let page_bytes = bytes + size_of::<Box<dyn AccountedEngineData>>();
    let limit = base + page_bytes + temporary - 1;
    assert!(base + page_bytes < limit && base + temporary < limit);
    let limits = TaskLimits::qualification().with_limit(Resource::TaskStateBytes, limit);
    let (id, evaluation) = keys();
    let state = ScanState {
        kernel: Kernel,
        snapshot,
        evaluation,
        limits,
        plan: None,
        pending: Vec::new(),
        pending_bytes: 0,
        host_retained_bytes: 0,
        output,
        output_bytes: 0,
        done: false,
    };
    let mut machine = ok(TaskMachine::new(id, state, limits));
    let cpu = CpuSlice::new(1024, 1 << 20, 256).unwrap();
    let TaskStep::Execute(request) = machine.start(cpu).unwrap() else {
        panic!("evaluation expected")
    };
    let drops = Arc::new(AtomicUsize::new(0));
    let visits = Arc::new(AtomicUsize::new(0));
    let batch = Row {
        schema: "{}".to_string(),
        bytes,
        drops: drops.clone(),
        visits: visits.clone(),
    };
    let page = ok(EvaluationPage::try_new(
        vec![Box::new(batch)],
        ok(task_evaluation_limits(&limits)).page(),
    ));
    let TaskStep::Failed(failure) = machine
        .resume(
            request.key,
            Ok(TaskResponseV1::Evaluation {
                evaluation,
                page: Some(page),
            }),
            cpu,
        )
        .unwrap()
    else {
        panic!("combined admission must fail")
    };
    assert!(
        matches!(failure.kind(), FailureKind::ResourceExhausted(e) if e.resource == Resource::TaskStateBytes)
    );
    assert_eq!(drops.load(Ordering::SeqCst), 1);
    assert_eq!(visits.load(Ordering::SeqCst), 0);
    assert_eq!(
        machine.accounting().usage(Resource::TaskStateBytes).live(),
        size_of::<TaskMachine<ScanState<Kernel>>>()
    );
    assert_eq!(
        machine.progress(cpu).err(),
        Some(TaskProtocolError::Terminal)
    );
}

#[test]
fn json_task_scan_extreme_output_slots_fail_without_panicking() {
    let snapshot = snapshot(one_column());
    let slots = usize::MAX / (2 * size_of::<ScanMetadata>());
    let limits = TaskLimits::qualification()
        .with_limit(Resource::TaskStateBytes, usize::MAX)
        .with_limit(Resource::OutputChunks, slots)
        .with_limit(Resource::EvaluationBatches, slots);
    let (id, evaluation) = keys();
    let result = ScanMetadataTask::try_new(Kernel, layout(), id, evaluation, snapshot, limits);
    let failure = result
        .err()
        .expect("owner sums must not overflow before checked admission");
    assert!(matches!(failure.kind(), FailureKind::ResourceExhausted(e)
        if e.resource == Resource::TaskStateBytes && e.observed == usize::MAX));
}

#[test]
fn json_task_scan_fixed_work_refuses_before_first_borrowed_visit() {
    let snapshot = snapshot(one_column());
    let limits = TaskLimits::qualification().with_limit(Resource::WorkUnits, 0);
    let (id, evaluation) = keys();
    let state = ScanState {
        kernel: Kernel,
        snapshot,
        evaluation,
        limits,
        plan: None,
        pending: Vec::new(),
        pending_bytes: 0,
        host_retained_bytes: 0,
        output: Vec::with_capacity(1),
        output_bytes: 0,
        done: false,
    };
    let mut machine = ok(TaskMachine::new(id, state, limits));
    let cpu = CpuSlice::new(1024, 1 << 20, 256).unwrap();
    let TaskStep::Execute(request) = machine.start(cpu).unwrap() else {
        panic!("evaluation expected")
    };
    let visits = Arc::new(AtomicUsize::new(0));
    let drops = Arc::new(AtomicUsize::new(0));
    let batch = Row {
        schema: "{}".to_string(),
        bytes: 100,
        drops: drops.clone(),
        visits: visits.clone(),
    };
    let page = ok(EvaluationPage::try_new(
        vec![Box::new(batch)],
        ok(task_evaluation_limits(&limits)).page(),
    ));
    let TaskStep::Failed(error) = machine
        .resume(
            request.key,
            Ok(TaskResponseV1::Evaluation {
                evaluation,
                page: Some(page),
            }),
            cpu,
        )
        .unwrap()
    else {
        panic!("work admission must refuse")
    };
    assert!(
        matches!(error.kind(), FailureKind::ResourceExhausted(e) if e.resource == Resource::WorkUnits)
    );
    assert_eq!(visits.load(Ordering::SeqCst), 0);
    assert_eq!(drops.load(Ordering::SeqCst), 1);
}
#[test]
fn json_task_scan_plan_limit_retains_typed_category() {
    let snapshot = snapshot(one_column());
    let (id, evaluation) = keys();
    let failure = ScanMetadataTask::try_new(
        Kernel,
        layout(),
        id,
        evaluation,
        snapshot,
        TaskLimits::qualification().with_limit(Resource::PlanNodes, 1),
    )
    .err()
    .unwrap();
    assert!(
        matches!(failure.kind(), FailureKind::ResourceExhausted(e) if e.resource == Resource::PlanNodes)
    );
}

#[test]
fn json_task_scan_schema_scratch_rejects_before_builder() {
    let names = (0..128).map(|i| format!("f{i}{}", "x".repeat(1024))).collect();
    let snapshot = snapshot(columns_schema(names));
    let limits = TaskLimits::qualification().with_limit(Resource::TaskStateBytes, 8 << 20);
    // An envelope of the manifest alone fits this allowance, but the scratch of the schema
    // and its simultaneous snapshot owner do not.
    assert!(JsonPlanBudget::preflight(
        snapshot.log_identity_manifest.as_ref().unwrap(),
        &limits,
        &layout(),
    )
    .is_ok());
    let failure = AdmittedPlan::try_scan_json(&Unbuilt, &snapshot, &limits, &layout())
        .err()
        .unwrap();
    assert!(
        matches!(failure, PlanAdmissionError::ResourceExhausted(e) if e.resource == Resource::TaskStateBytes)
    );
}

#[test]
fn json_task_fixed_producers_encoding_diagnostics() {
    for fields in [1, 9, 128] {
        let snapshot = snapshot(columns_schema((0..fields).map(|i| format!("f{i}")).collect()));
        let limits = TaskLimits::qualification();
        let manifest = snapshot.log_identity_manifest.as_ref().unwrap();
        let segment = ok(manifest.to_log_segment("memory:///table/", &limits));
        let pm = AdmittedPlan::try_snapshot_json(
            &Kernel,
            &segment,
            manifest.clone(),
            &limits,
            &layout(),
        )
        .unwrap_or_else(|e| panic!("{}", e.message()));
        let scan = AdmittedPlan::try_scan_json(&Kernel, &snapshot, &limits, &layout())
            .unwrap_or_else(|e| panic!("{}", e.message()));
        for plan in [pm, scan] {
            let mut scratch = [0; 8];
            // The walked encoding of the plan stays within the bound of its budget.
            let walked = operation_tasks::PlanShape::check(plan.plan(), &limits, &mut scratch);
            assert!(walked.unwrap().encoded_bytes() <= plan.shape().encoded_bytes());
            assert_eq!(plan.shape().nodes(), plan.plan().nodes.len());
            assert!(plan.retained_bytes() > plan.metadata_bytes());
        }
    }
}

#[test]
fn scan_builder_properties_count_duplicate_and_invalid_paths() {
    let schema = one_column();
    let column = |path: &[&str]| ColumnName {
        path: path.iter().map(|name| name.to_string()).collect(),
    };
    let repeated = Some(vec![column(&["a"]), column(&["a"]), column(&["missing", "nested"])]);
    assert_eq!(repeated.as_ref().unwrap().len(), 3);
    assert!(
        scan_builder_peak(&schema, &repeated, &layout()).unwrap()
            > scan_builder_peak(&schema, &None, &layout()).unwrap()
    );
}

#[test]
fn canonical_segment_admission_boundary_and_root_binding() {
    let limits = TaskLimits::qualification();
    let root = url::Url::parse("https://xn--bcher-kva.example/t%20able/").unwrap();
    let log_root = root.join("_delta_log/").unwrap().to_string();
    let file = commit(&format!("{log_root}00000000000000000000.json"));
    let manifest = ok(LogIdentityManifest::try_new(log_root, vec![file], &limits));
    let peak = ok(manifest.segment_owner_peak(&limits));
    let segment = ok(manifest.to_log_segment(
        root.as_str(),
        &limits.with_limit(Resource::TaskStateBytes, peak),
    ));
    assert_eq!(
        segment.ascending_commit_files[0].location.location,
        manifest.files()[0].path
    );
    let failure = manifest
        .to_log_segment(
            root.as_str(),
            &limits.with_limit(Resource::TaskStateBytes, peak - 1),
        )
        .err()
        .unwrap();
    assert!(matches!(failure.kind(), FailureKind::ResourceExhausted(e)
        if e.resource == Resource::TaskStateBytes && e.observed == peak));
    let other = "https://other.example/table/";
    assert_eq!(
        manifest.to_log_segment(other, &limits).err().unwrap().kind(),
        FailureKind::MalformedResponse
    );
}

const PRIMITIVE: &str = r#"{"type":"struct","fields":[{"name":"A\u0062","type":"long","nullable":true,"metadata":{}},{"name":"s","type":"string","nullable":false,"metadata":{}}]}"#;

fn inspect(json: &str, limits: &TaskLimits) -> Result<PrimitiveSchemaShape, OperationFailure> {
    let accounting = TaskAccounting::new(*limits);
    let headroom = Headroom {
        held: Some(0),
        host_live: false,
    };
    PrimitiveSchemaShape::inspect(&Kernel, json, limits, &accounting, headroom, &layout())
}

#[test]
fn primitive_shape_borrows_strings_and_preserves_semantic_decoder() {
    let limits = TaskLimits::qualification();
    let shape = ok(inspect(PRIMITIVE, &limits));
    assert_eq!(shape.fields, 2);
    assert_eq!(shape.name_bytes, 3);
    assert_eq!(shape.type_bytes, "structlongstring".len());
    // Exactly the inspection's own bytes are asked for.
    let bytes = PrimitiveSchemaShape::inspection_bytes(PRIMITIVE.len(), &layout()).unwrap();
    ok(inspect(PRIMITIVE, &limits.with_limit(Resource::TaskStateBytes, bytes)));
    let refused = inspect(PRIMITIVE, &limits.with_limit(Resource::TaskStateBytes, bytes - 1));
    assert!(
        matches!(refused.err().unwrap().kind(), FailureKind::ResourceExhausted(e)
        if e.resource == Resource::TaskStateBytes && e.observed == bytes)
    );
    let schema = parse_schema(PRIMITIVE);
    assert_eq!(schema.fields.len(), shape.fields);
    assert_eq!(schema.fields[0].name, "Ab");
}

#[test]
fn inspection_requires_admission_before_parser_and_checks_exact_boundary() {
    let limits = TaskLimits::qualification();
    let bytes = PrimitiveSchemaShape::inspection_bytes(PRIMITIVE.len(), &layout()).unwrap();
    ok(inspect(
        PRIMITIVE,
        &limits.with_limit(Resource::MetadataAllocatedBytes, bytes),
    ));
    let limits = limits.with_limit(Resource::MetadataAllocatedBytes, bytes - 1);
    let accounting = TaskAccounting::new(limits);
    let headroom = Headroom {
        held: Some(0),
        host_live: false,
    };
    let error = PrimitiveSchemaShape::inspect(
        &Unbuilt,
        PRIMITIVE,
        &limits,
        &accounting,
        headroom,
        &layout(),
    )
    .err()
    .unwrap();
    assert!(matches!(error.kind(), FailureKind::ResourceExhausted(e)
        if e.resource == Resource::MetadataAllocatedBytes && e.observed == bytes));
    assert!(PrimitiveSchemaShape::inspection_bytes(usize::MAX, &layout()).is_none());
}

/// Compares the peak of a materialization with its allowance before it is admitted.
fn admit_materialization(
    shape: &PrimitiveSchemaShape,
    json_bytes: usize,
    limits: &TaskLimits,
    taken: impl FnOnce(usize) -> Result<(), OperationFailure>,
) -> Result<(), OperationFailure> {
    let bytes = shape
        .materialization_bytes(json_bytes, &layout())
        .ok_or_else(|| exhausted(Resource::MetadataAllocatedBytes, limits))?;
    check(Resource::MetadataAllocatedBytes, bytes, limits)?;
    taken(bytes)
}

#[test]
fn ordinary_materialization_requires_exact_peak_before_serde() {
    let limits = TaskLimits::qualification();
    let shape = ok(inspect(PRIMITIVE, &limits));
    let bytes = shape.materialization_bytes(PRIMITIVE.len(), &layout()).unwrap();
    let mut called = false;
    ok(admit_materialization(
        &shape,
        PRIMITIVE.len(),
        &limits.with_limit(Resource::MetadataAllocatedBytes, bytes),
        |observed| {
            assert_eq!(observed, bytes);
            called = true;
            Ok(())
        },
    ));
    assert!(called);
    called = false;
    let error = admit_materialization(
        &shape,
        PRIMITIVE.len(),
        &limits.with_limit(Resource::MetadataAllocatedBytes, bytes - 1),
        |_| {
            called = true;
            Ok(())
        },
    )
    .err()
    .unwrap();
    assert!(!called);
    assert!(matches!(error.kind(), FailureKind::ResourceExhausted(e) if e.observed == bytes));
    assert!(shape.materialization_bytes(usize::MAX, &layout()).is_none());
    assert!(PrimitiveSchemaShape {
        fields: usize::MAX,
        ..PrimitiveSchemaShape::new()
    }
    .materialization_bytes(0, &layout())
    .is_none());
    assert_eq!(vector_peak::<u8>(0), Some(0));
    assert_eq!(hash_peak::<usize>(0), Some(0));
}

#[test]
fn unicode_expansion_and_duplicate_name_error_keep_ordinary_semantics() {
    let limits = TaskLimits::qualification();
    let json = r#"{"type":"struct","fields":[{"name":"İ","type":"long","nullable":true,"metadata":{}},{"name":"i\u0307","type":"long","nullable":true,"metadata":{}}]}"#;
    let shape = ok(inspect(json, &limits));
    // Duplicates are the decoder's to refuse; both spellings are counted here.
    assert_eq!(shape.fields, 2);
    assert_eq!(shape.name_bytes, "İ".len() + "i\u{307}".len());
    ok(admit_materialization(&shape, json.len(), &limits, |_| Ok(())));
}

#[test]
fn recursive_materializers_refuse_before_decoding_their_payload() {
    let limits = TaskLimits::qualification();
    for schema in [
        r#"{"type":"struct","fields":[{"name":"x","type":"long","nullable":true,"metadata":{"comment":"ordinary comment"}}]}"#,
        r#"{"type":"struct","fields":[{"name":"x","type":{"type":"array","elementType":"long"},"nullable":true}]}"#,
        r#"{"type":"struct","fields":[{"name":"x","type":"variant","nullable":true}]}"#,
        r#"{"type":"struct","fields":[{"name":"x","type":"long","metadata":{"unsupported":{"large":[1,2,3]}}}]}"#,
    ] {
        let error = inspect(schema, &limits).err().unwrap();
        assert!(matches!(error.into_error(), Error::Unsupported(_)));
    }
    // Unknown properties are passed over.
    let unknown = r#"{"type":"struct","ignored":{"nested":[1,2,3]},"fields":[]}"#;
    assert_eq!(ok(inspect(unknown, &limits)).fields, 0);
}

/// A cell of one kind; every other kind of read is a missing value.
enum Cell {
    Text(String),
    Int(i32),
    Long(i64),
    NoEntries,
}

impl GetData for Cell {
    fn get_str(&self, _: usize, _: &str) -> Result<Option<&str>, Error> {
        match self {
            Cell::Text(text) => Ok(Some(text)),
            _ => Ok(None),
        }
    }
    fn get_int(&self, _: usize, _: &str) -> Result<Option<i32>, Error> {
        match self {
            Cell::Int(value) => Ok(Some(*value)),
            _ => Ok(None),
        }
    }
    fn get_long(&self, _: usize, _: &str) -> Result<Option<i64>, Error> {
        match self {
            Cell::Long(value) => Ok(Some(*value)),
            _ => Ok(None),
        }
    }
    fn get_list(&self, _: usize, _: &str) -> Result<Option<usize>, Error> {
        Ok(None)
    }
    fn get_map(&self, _: usize, _: &str) -> Result<Option<MapItem<'_>>, Error> {
        match self {
            Cell::NoEntries => Ok(Some(MapItem { entries: vec![] })),
            _ => Ok(None),
        }
    }
}

/// A batch of one row, with the cells of some of its columns.
struct Cells {
    cells: Vec<(&'static str, Cell)>,
}

impl AccountedEngineData for Cells {
    fn len(&self) -> usize {
        1
    }
    fn accounted_bytes(&self) -> Result<usize, ResourceExhausted> {
        Ok(256)
    }
    fn visit_rows<'a>(&'a self, columns: &Vec<Vec<&'static str>>) -> Result<RowView<'a>, Error> {
        let mut getters: Vec<&'a dyn GetData> = vec![];
        for column in columns {
            let name = column[column.len() - 1];
            match self.cells.iter().find(|(known, _)| *known == name) {
                Some((_, cell)) => getters.push(cell),
                None => getters.push(&()),
            }
        }
        Ok(RowView { rows: 1, getters })
    }
}

fn actions(schema: &str) -> Cells {
    Cells {
        cells: vec![
            ("minReaderVersion", Cell::Int(1)),
            ("minWriterVersion", Cell::Int(2)),
            ("id", Cell::Text("table".to_string())),
            ("schemaString", Cell::Text(schema.to_string())),
        ],
    }
}

fn live_file(path: &str) -> Cells {
    Cells {
        cells: vec![
            ("path", Cell::Text(path.to_string())),
            ("size", Cell::Long(10)),
            ("modificationTime", Cell::Long(0)),
            ("partitionValues", Cell::NoEntries),
        ],
    }
}

fn one_page(batches: Vec<Batch>) -> EvaluationPage {
    let limits = TaskLimits::qualification();
    ok(EvaluationPage::try_new(
        batches,
        ok(task_evaluation_limits(&limits)).page(),
    ))
}

/// Drives a task over its yields.
fn settled<T: OperationTask>(task: &mut T, mut step: TaskStep<T::Output>) -> TaskStep<T::Output> {
    while let TaskStep::Yield = step {
        step = task.progress(cpu()).unwrap();
    }
    step
}

/// Takes the request of a step.
fn executed<T>(step: TaskStep<T>) -> TaskRequest {
    match step {
        TaskStep::Execute(request) => request,
        TaskStep::Failed(failure) => panic!("{}", failure.message()),
        _ => panic!("a request was expected"),
    }
}

const LOG: &str = "memory:///table/_delta_log/";

fn listing(names: &[&str]) -> TaskResponseV1 {
    TaskResponseV1::Listing {
        files: names
            .iter()
            .map(|name| commit(&format!("{LOG}{name}")))
            .collect(),
        continuation: None,
    }
}

fn listed(
    names: &[&str],
    version: Option<u64>,
) -> (SnapshotLoadTask<Kernel>, TaskStep<Arc<Snapshot>>) {
    let mut task = ok(load(
        keys(),
        "memory:///table",
        version,
        TaskLimits::qualification(),
    ));
    let request = executed(task.start(cpu()).unwrap());
    let step = task.resume(request.key, Ok(listing(names)), cpu()).unwrap();
    let step = settled(&mut task, step);
    (task, step)
}

const COMMITS: [&str; 2] = ["00000000000000000000.json", "00000000000000000001.json"];

fn loaded(version: Option<u64>, batch: Cells) -> TaskStep<Arc<Snapshot>> {
    let (mut task, step) = listed(&COMMITS, version);
    let request = executed(step);
    let TaskRequestV1::EvaluationStart {
        evaluation, plan, ..
    } = request.operation
    else {
        panic!("the plan is handed over first")
    };
    assert_eq!(plan.shape().nodes(), 2);
    let page = one_page(vec![Box::new(batch)]);
    let step = task
        .resume(
            request.key,
            Ok(TaskResponseV1::Evaluation {
                evaluation,
                page: Some(page),
            }),
            cpu(),
        )
        .unwrap();
    let request = executed(settled(&mut task, step));
    let TaskRequestV1::Evaluation { evaluation, .. } = request.operation else {
        panic!("the plan is handed over once")
    };
    let end = TaskResponseV1::Evaluation {
        evaluation,
        page: None,
    };
    let step = task.resume(request.key, Ok(end), cpu()).unwrap();
    settled(&mut task, step)
}

#[test]
fn snapshots_are_loaded_from_their_json_history() {
    for (version, expected, latest) in [(None, 1, true), (Some(0), 0, false), (Some(1), 1, false)] {
        let TaskStep::Complete(snapshot) = loaded(version, actions(PRIMITIVE)) else {
            panic!("the snapshot must be complete")
        };
        assert_eq!(snapshot.configuration.version, expected);
        assert_eq!(snapshot.configuration.table_root, "memory:///table/");
        assert_eq!(snapshot.configuration.schema, parse_schema(PRIMITIVE));
        assert_eq!(snapshot.configuration.metadata.id, "table");
        assert_eq!(snapshot.is_latest, latest);
        assert_eq!(snapshot.log_segment.end_version, expected);
        assert_eq!(snapshot.log_segment.log_root, LOG);
        assert_eq!(
            snapshot.log_segment.ascending_commit_files.len(),
            expected as usize + 1
        );
        let manifest = snapshot.log_identity_manifest.as_ref().unwrap();
        assert_eq!(manifest.version(), expected);
        assert_eq!(manifest.files()[0].identity, ObjectIdentity::new([1; 32]));
        assert!(snapshot.json_task_retained_bytes > manifest.retained_bytes());
    }
}

#[test]
fn tables_without_actions_are_refused() {
    let TaskStep::Failed(failure) = loaded(None, Cells { cells: vec![] }) else {
        panic!("the table must be refused")
    };
    assert!(matches!(failure.into_error(), Error::MissingMetadata));
}

#[test]
fn histories_without_gaps_are_discovered() {
    let failed = |names: &[&str], version: Option<u64>| {
        let (_, step) = listed(names, version);
        let TaskStep::Failed(failure) = step else {
            panic!("the history must be refused")
        };
        failure
    };
    assert!(matches!(
        failed(&["00000000000000000000.json", "00000000000000000002.json"], None).into_error(),
        Error::MissingVersion
    ));
    assert!(matches!(
        failed(&["00000000000000000001.json"], None).into_error(),
        Error::MissingVersion
    ));
    assert_eq!(
        failed(&["00000000000000000001.json", "00000000000000000000.json"], None).kind(),
        FailureKind::MalformedResponse
    );
    for name in [
        "00000000000000000000.checkpoint.parquet",
        "_sidecars/a.parquet",
        "_staged_commits/00000000000000000000.a.json",
    ] {
        assert!(matches!(
            failed(&[name], None).into_error(),
            Error::Unsupported(_)
        ));
    }
    // Entries that are no commits are passed over.
    let (_, step) = listed(&["00000000000000000000.crc", "00000000000000000000.json"], None);
    assert!(matches!(step, TaskStep::Execute(_)));
}

#[test]
fn roots_with_queries_or_without_paths_are_refused() {
    for root in [
        "memory:///table/?x",
        "memory:///table/#y",
        "mailto:user@example.com",
        "no location",
    ] {
        let failure = load(keys(), root, None, TaskLimits::qualification())
            .err()
            .unwrap();
        assert_eq!(failure.kind(), FailureKind::MalformedResponse, "{root}");
    }
}

#[test]
fn scans_keep_their_batches_in_order() {
    let TaskStep::Complete(snapshot) = loaded(None, actions(PRIMITIVE)) else {
        panic!("the snapshot must be complete")
    };
    let (id, evaluation) = keys();
    let mut task = ok(ScanMetadataTask::try_new(
        Kernel,
        layout(),
        id,
        evaluation,
        snapshot,
        TaskLimits::qualification(),
    ));
    let request = executed(task.start(cpu()).unwrap());
    assert!(matches!(
        request.operation,
        TaskRequestV1::EvaluationStart { .. }
    ));
    let page = one_page(vec![
        Box::new(live_file("b.parquet")),
        Box::new(live_file("a.parquet")),
    ]);
    let step = task
        .resume(
            request.key,
            Ok(TaskResponseV1::Evaluation {
                evaluation,
                page: Some(page),
            }),
            cpu(),
        )
        .unwrap();
    let request = executed(settled(&mut task, step));
    assert!(matches!(
        request.operation,
        TaskRequestV1::Evaluation { .. }
    ));
    let step = task
        .resume(
            request.key,
            Ok(TaskResponseV1::Evaluation {
                evaluation,
                page: None,
            }),
            cpu(),
        )
        .unwrap();
    let TaskStep::Complete(output) = settled(&mut task, step) else {
        panic!("the scan must be complete")
    };
    let paths: Vec<String> = output
        .iter()
        .map(|metadata| {
            assert_eq!(metadata.scan_files.selection, [true]);
            let rows = Kernel.scan_rows(&metadata.scan_files.data);
            rows.ok().unwrap().remove(0).path
        })
        .collect();
    assert_eq!(paths, ["b.parquet", "a.parquet"]);
    assert_eq!(
        task.accounting().usage(Resource::OutputChunks).consumed(),
        2
    );
    assert_eq!(task.progress(cpu()).err(), Some(TaskProtocolError::Terminal));
}

#[test]
fn scanned_files_outside_the_table_are_refused() {
    for (path, unsupported) in [("../x", false), ("", false), ("a.parquet", true)] {
        let TaskStep::Complete(snapshot) = loaded(None, actions(PRIMITIVE)) else {
            panic!("the snapshot must be complete")
        };
        let (id, evaluation) = keys();
        let mut task = ok(ScanMetadataTask::try_new(
            Kernel,
            layout(),
            id,
            evaluation,
            snapshot,
            TaskLimits::qualification(),
        ));
        let request = executed(task.start(cpu()).unwrap());
        let mut batch = live_file(path);
        if unsupported {
            batch.cells.push(("stats", Cell::Text("{}".to_string())));
        }
        let step = task
            .resume(
                request.key,
                Ok(TaskResponseV1::Evaluation {
                    evaluation,
                    page: Some(one_page(vec![Box::new(batch)])),
                }),
                cpu(),
            )
            .unwrap();
        let TaskStep::Failed(failure) = settled(&mut task, step) else {
            panic!("the file must be refused")
        };
        if unsupported {
            assert!(matches!(failure.into_error(), Error::Unsupported(_)));
        } else {
            assert_eq!(failure.kind(), FailureKind::MalformedResponse);
        }
    }
}

#[test]
fn visitor_bounds_are_told_before_a_scan() {
    let limits = TaskLimits::qualification();
    let bytes = ok(ScanMetadataTask::<Kernel>::file_visitor_owner_bytes(limits));
    assert_eq!(Some(bytes), scan_fixed_peak());
    let one = ok(ScanMetadataTask::<Kernel>::file_visitor_work(1, limits));
    let two = ok(ScanMetadataTask::<Kernel>::file_visitor_work(2, limits));
    assert!(one < two);
    let short = ok(ScanMetadataTask::<Kernel>::file_path_work(20, "a.parquet", limits));
    let long = ok(ScanMetadataTask::<Kernel>::file_path_work(20, "long-a.parquet", limits));
    assert_eq!(long - short, 7 * 5);
    let owners = ok(ScanMetadataTask::<Kernel>::file_path_owner_bytes(
        20,
        "a.parquet",
        limits,
    ));
    assert!(owners > 0);
    assert_resource(
        &ScanMetadataTask::<Kernel>::file_path_owner_bytes(usize::MAX, "a.parquet", limits)
            .err()
            .unwrap(),
        Resource::TaskStateBytes,
    );
}

#[test]
fn admitted_plans_tell_their_inspection_work() {
    let snapshot = snapshot(one_column());
    let limits = TaskLimits::qualification();
    let plan = AdmittedPlan::try_scan_json(&Kernel, &snapshot, &limits, &layout())
        .unwrap_or_else(|e| panic!("{}", e.message()));
    assert_eq!(
        plan.log_identity_manifest().unwrap().log_root(),
        "memory:///table/_delta_log/"
    );
    let work = plan.json_host_inspection_work(&limits);
    assert!(matches!(work, Ok(units) if units > 0));
    let tight = limits.with_limit(Resource::WorkUnits, 0);
    assert!(plan.json_host_inspection_work(&tight).is_err());
}
