use operation_tasks::driver::RequestSequence;
use operation_tasks::failure::Error;
use operation_tasks::inspection::Tally;
use operation_tasks::json_materialization::{ProtocolPreflight, SchemaPreflight};
use operation_tasks::json_url_allocation::{general_join_peak, join_peak, join_work};
use operation_tasks::json_visitor_allocation::{
    metadata_paths, pm_fixed_peak, pm_paths, protocol_paths, scan_fixed_peak, scan_paths,
};
use operation_tasks::plan_shape::Walk;
use operation_tasks::protocol::{
    allocate_identity, IdentityAllocator, ObjectIdentity, ResponseKind,
};
use operation_tasks::rows::{GetData, MapItem};
use operation_tasks::scan_preflight::ScanPreflight;
use operation_tasks::schema::{ParquetFooter, StructType};
use operation_tasks::storage::{IoUsage, ObjectBinding, ObjectBindings};
use operation_tasks::table::KernelLayout;
use operation_tasks::{
    CpuSlice, EvaluationKey, FailureKind, OperationFailure, OperationTask, PlanShapeError,
    RequestKey, Resource, ResourceExhausted, TaskAccounting, TaskAction, TaskId, TaskLimits,
    TaskMachine, TaskProtocolError, TaskRequestV1, TaskResponseV1, TaskState, TaskStep,
};
use std::mem::size_of;
use std::sync::atomic::{AtomicUsize, Ordering};
use std::sync::Arc;

fn layout() -> KernelLayout {
    KernelLayout {
        projection_builder: 64,
        plan_builder: 48,
        metadata_visitor: 256,
        protocol_visitor: 128,
        field_transform: 96,
        column_trie_entry: 72,
        scan_state: 320,
        scan: 400,
        scan_builder: 160,
        json_decoder: 56,
        json_value: 72,
    }
}

#[test]
fn request_sequence_overflow_preserves_driver_state() {
    let sequence = RequestSequence { next: u64::MAX };
    let key = RequestKey::new(7, u64::MAX).unwrap();
    assert_eq!(
        sequence.checked_next(7, key),
        Err(TaskProtocolError::IdentityExhausted)
    );
    assert_eq!(sequence.next, u64::MAX);
}

#[test]
fn io_usage_overflow_is_atomic_and_never_wraps() {
    let listing = IoUsage {
        listing_pages: 1,
        descriptors: usize::MAX,
        ..IoUsage::default()
    };
    assert_eq!(
        listing.with_listing(1).err().unwrap().kind(),
        FailureKind::MalformedResponse
    );
    assert_eq!(listing.listing_pages(), 1);
    assert_eq!(listing.descriptors(), usize::MAX);

    let read = IoUsage {
        read_requests: 1,
        requested_read_bytes: usize::MAX,
        received_read_bytes: 1,
        ..IoUsage::default()
    };
    assert_eq!(
        read.with_read(1).err().unwrap().kind(),
        FailureKind::MalformedResponse
    );
    assert_eq!(read.read_requests(), 1);
    assert_eq!(read.requested_read_bytes(), usize::MAX);
    assert_eq!(read.received_read_bytes(), 1);

    let head = IoUsage {
        heads: usize::MAX,
        ..IoUsage::default()
    };
    assert_eq!(
        head.with_head().err().unwrap().kind(),
        FailureKind::MalformedResponse
    );
    assert_eq!(head.heads(), usize::MAX);

    let footer = IoUsage {
        footers: usize::MAX,
        ..IoUsage::default()
    };
    assert_eq!(
        footer.with_footer().err().unwrap().kind(),
        FailureKind::MalformedResponse
    );
    assert_eq!(footer.footers(), usize::MAX);
}

#[test]
fn binding_tables_stay_within_their_reservation() {
    let width = size_of::<ObjectBinding>();
    let limits = TaskLimits::qualification()
        .with_limit(Resource::Requests, 3)
        .with_limit(Resource::TaskStateBytes, 2 * width);
    // The state allowance leaves room for two entries.
    assert_eq!(ObjectBindings::room(limits), 2);
    assert_eq!(
        ObjectBindings::room(limits.with_limit(Resource::TaskStateBytes, 9 * width)),
        3
    );
    assert!(ObjectBindings::with_slots(Vec::new(), 2, limits).is_ok());
    assert_eq!(
        ObjectBindings::with_slots(Vec::new(), 3, limits).err(),
        Some(TaskProtocolError::InvalidLimits)
    );
    let Ok(mut bindings) = ObjectBindings::new(limits.with_limit(Resource::TaskStateBytes, 4096))
    else {
        panic!("the table must be granted")
    };
    assert!(bindings.get("a").is_none());
    let identity = ObjectIdentity::new([1; 32]);
    assert!(bindings.bind("a".to_string(), 1, identity, Some(4), true).is_ok());
    let known = bindings.get("a").unwrap();
    assert_eq!(known.identity(), identity);
    assert_eq!(known.size(), Some(4));
    assert!(known.head_observed());
    // Another identity of the same path is refused, and the first one stays.
    let other = ObjectIdentity::new([2; 32]);
    let refused = bindings.bind("a".to_string(), 1, other, Some(4), true);
    assert_eq!(
        refused.err().unwrap().kind(),
        FailureKind::MalformedResponse
    );
    assert_eq!(bindings.get("a").unwrap().identity(), identity);
    for path in ["b", "c"] {
        assert!(bindings.bind(path.to_string(), 1, identity, None, false).is_ok());
    }
    assert!(matches!(
        bindings.admit_new("d", 1).err().unwrap().kind(),
        FailureKind::ResourceExhausted(e) if e.resource == Resource::Requests
    ));
}

#[test]
fn io_usage_counts_every_effect() {
    let usage = IoUsage::default();
    let Ok(usage) = usage.with_listing(3) else { panic!("listing") };
    let Ok(usage) = usage.with_read(7) else { panic!("read") };
    let Ok(usage) = usage.with_head() else { panic!("head") };
    let Ok(usage) = usage.with_footer() else { panic!("footer") };
    assert_eq!(
        usage,
        IoUsage {
            listing_pages: 1,
            descriptors: 3,
            read_requests: 1,
            requested_read_bytes: 7,
            received_read_bytes: 7,
            heads: 1,
            footers: 1,
        }
    );
}

/// A cell of one kind; every other kind of read is a missing value.
enum Cell {
    Text(&'static str),
    Int(i32),
    Items(usize),
    Forbidden,
}

impl GetData for Cell {
    fn get_str(&self, _: usize, _: &str) -> Result<Option<&str>, Error> {
        match self {
            Cell::Text(text) => Ok(Some(text)),
            _ => Ok(None),
        }
    }
    fn get_int(&self, _: usize, _: &str) -> Result<Option<i32>, Error> {
        match self {
            Cell::Int(value) => Ok(Some(*value)),
            _ => Ok(None),
        }
    }
    fn get_long(&self, _: usize, _: &str) -> Result<Option<i64>, Error> {
        Ok(None)
    }
    fn get_list(&self, _: usize, _: &str) -> Result<Option<usize>, Error> {
        match self {
            Cell::Items(count) => Ok(Some(*count)),
            _ => Ok(None),
        }
    }
    fn get_map(&self, _: usize, _: &str) -> Result<Option<MapItem<'_>>, Error> {
        match self {
            Cell::Forbidden => panic!("stats/DV rejection must precede further materialization"),
            _ => Ok(None),
        }
    }
}

#[test]
fn protocol_features_reject_before_accessing_or_cloning_elements() {
    let getters: Vec<&dyn GetData> =
        vec![&Cell::Int(1), &Cell::Int(2), &Cell::Items(usize::MAX), &()];
    let mut preflight = ProtocolPreflight { failure: None };
    assert!(preflight.visit(1, &getters).is_ok());
    assert!(matches!(
        preflight.failure.unwrap().into_error(),
        Error::Unsupported(_)
    ));
}

#[test]
fn metadata_partitions_reject_before_accessing_or_cloning_elements() {
    let getters: Vec<&dyn GetData> = vec![
        &Cell::Text("id"),
        &(),
        &(),
        &(),
        &(),
        &(),
        &Cell::Items(usize::MAX),
        &(),
        &(),
    ];
    let limits = TaskLimits::qualification();
    let mut preflight = SchemaPreflight {
        limits: &limits,
        failure: None,
        owned_bytes: 0,
    };
    assert!(preflight.visit(1, &getters).is_ok());
    assert!(matches!(
        preflight.failure.unwrap().into_error(),
        Error::Unsupported(_)
    ));
}

#[test]
fn stats_and_dv_refuse_before_parsing_or_cloning() {
    for index in [3, 4] {
        let text = Cell::Text("must not be cloned or JSON-decoded");
        let mut getters: Vec<&dyn GetData> = vec![&(); 14];
        getters[index] = &text;
        getters[9] = &Cell::Forbidden;
        let mut accounting = TaskAccounting::new(TaskLimits::qualification());
        let mut preflight = ScanPreflight {
            root_bytes: 0,
            row_peak: 0,
            limits: TaskLimits::qualification(),
            failure: None,
        };
        assert!(preflight.visit(1, &getters, &mut accounting).is_ok());
        assert!(matches!(
            preflight.failure.unwrap().into_error(),
            Error::Unsupported(_)
        ));
    }
}

#[test]
fn visits_that_refuse_nothing_keep_an_earlier_failure() {
    let getters: Vec<&dyn GetData> = vec![&(); 14];
    let mut accounting = TaskAccounting::new(TaskLimits::qualification());
    let mut preflight = ScanPreflight {
        root_bytes: 0,
        row_peak: 7,
        limits: TaskLimits::qualification(),
        failure: Some(OperationFailure::malformed_response()),
    };
    assert!(preflight.visit(0, &getters, &mut accounting).is_ok());
    assert_eq!(preflight.row_peak, 7);
    assert_eq!(
        preflight.failure.unwrap().kind(),
        FailureKind::MalformedResponse
    );
}

#[test]
fn replaced_limits_override_and_commute() {
    let limits = TaskLimits::qualification();
    assert_eq!(
        limits
            .with_limit(Resource::Requests, 3)
            .with_limit(Resource::Requests, 4),
        limits.with_limit(Resource::Requests, 4)
    );
    assert_eq!(
        limits
            .with_limit(Resource::Requests, 3)
            .with_limit(Resource::Yields, 4),
        limits
            .with_limit(Resource::Yields, 4)
            .with_limit(Resource::Requests, 3)
    );
}

#[test]
fn ledgers_hold_what_was_admitted_over_many_charges() {
    let limits = TaskLimits::qualification().with_limit(Resource::WorkUnits, 10);
    let mut ledger = TaskAccounting::new(limits);
    let admitted: Vec<bool> = [4, 7, 5, 2, 1]
        .into_iter()
        .map(|units| ledger.charge(Resource::WorkUnits, units).is_ok())
        .collect();
    assert_eq!(admitted, vec![true, false, true, false, true]);
    assert_eq!(ledger.usage(Resource::WorkUnits).consumed(), 10);
    assert_eq!(ledger.usage(Resource::Yields).consumed(), 0);
}

#[test]
fn source_work_includes_long_roots_paths_and_authority_pairs() {
    let short = join_work(20, "a.parquet").unwrap();
    assert_eq!(join_work(1020, "a.parquet").unwrap() - short, 3 * 1000);
    assert_eq!(join_work(20, "long-a.parquet").unwrap() - short, 7 * 5);
    assert!(join_work(20, "//xn--r8jz45g.xn--zckzah/a").unwrap() > short);
    assert!(join_work(20, "https://例え.テスト/a").unwrap() > short);
    assert_eq!(join_work(usize::MAX, "a.parquet"), None);
    assert_eq!(join_work(usize::MAX, "//a.parquet"), None);
}

#[test]
fn join_serialization_and_overflow_checks_cover_authority_forms() {
    for root in [
        "https://example.com/table/",
        "file:///C:/table/",
        "memory:///table/",
    ] {
        let root = url::Url::parse(root).unwrap();
        for path in [
            "a.parquet",
            "dir/a%20b.parquet",
            "../x",
            "%2e%2e/x",
            "//例え.テスト/a",
            "https://xn--r8jz45g.xn--zckzah/a",
            "\\\\example.com/a",
            "http://0.0.0.0.0/a",
            " https://[::1]:65535/a?x#y",
            "a?x#y",
            "",
        ] {
            let peak = join_peak(root.as_str().len(), path).unwrap();
            if let Ok(joined) = root.join(path) {
                assert!(joined.as_str().len() <= peak, "{root} + {path}");
            }
        }
    }
    assert_eq!(join_peak(usize::MAX, "a"), None);
    assert_eq!(general_join_peak(0, usize::MAX), None);
    assert!(join_peak(30, "a.parquet").unwrap() < join_peak(30, "//a.parquet").unwrap());
}

#[test]
fn fixed_resource_paths_match_authoritative_scan_schema() {
    let actual: Vec<Vec<&str>> = vec![
        vec!["path"],
        vec!["size"],
        vec!["modificationTime"],
        vec!["stats"],
        vec!["deletionVector", "storageType"],
        vec!["deletionVector", "pathOrInlineDv"],
        vec!["deletionVector", "offset"],
        vec!["deletionVector", "sizeInBytes"],
        vec!["deletionVector", "cardinality"],
        vec!["fileConstantValues", "partitionValues"],
        vec!["fileConstantValues", "baseRowId"],
        vec!["fileConstantValues", "defaultRowCommitVersion"],
        vec!["fileConstantValues", "tags"],
        vec!["fileConstantValues", "clusteringProvider"],
    ];
    let expected = scan_paths();
    assert_eq!(actual.len(), expected.len());
    for (actual, expected) in actual.iter().zip(expected.iter()) {
        assert_eq!(actual, expected);
    }
    assert!(scan_fixed_peak().unwrap() > size_of::<StructType>());
}

#[test]
fn fixed_resource_paths_match_authoritative_pm_schemas() {
    let pm = pm_paths();
    let protocol = protocol_paths();
    let metadata = metadata_paths();
    for (actual, expected) in protocol.iter().chain(metadata.iter()).zip(pm.iter()) {
        assert_eq!(actual, expected);
    }
    assert_eq!(protocol.len() + metadata.len(), 13);
    assert!(pm_fixed_peak(&layout()).unwrap() > size_of::<StructType>());
}

struct Issue(Arc<AtomicUsize>);

impl TaskState for Issue {
    type Output = ();
    fn retained_bytes(&self) -> Result<usize, ResourceExhausted> {
        Ok(0)
    }
    fn advance(
        &mut self,
        _: CpuSlice,
        _: &mut TaskAccounting,
    ) -> Result<TaskAction<()>, OperationFailure> {
        Ok(TaskAction::Request)
    }
    fn take_request(&mut self, _: &mut TaskAccounting) -> Result<TaskRequestV1, OperationFailure> {
        self.0.fetch_add(1, Ordering::Relaxed);
        panic!("request exhaustion must precede materialization")
    }
    fn resume(
        &mut self,
        _: TaskResponseV1,
        _: CpuSlice,
        _: &mut TaskAccounting,
    ) -> Result<TaskAction<()>, OperationFailure> {
        panic!("no response expected")
    }
}

#[test]
fn request_id_overflow_terminates_before_materialization() {
    let calls = Arc::new(AtomicUsize::new(0));
    let mut task = TaskMachine::new(
        TaskId::allocate(&mut IdentityAllocator::new()).unwrap(),
        Issue(calls.clone()),
        TaskLimits::qualification(),
    )
    .unwrap_or_else(|_| panic!("a state without owners fits"))
    .starting_at(u64::MAX);
    let TaskStep::Failed(error) = task.start(CpuSlice::new(1, 1, 1).unwrap()).unwrap() else {
        panic!("expected exhaustion")
    };
    assert_eq!(error.kind(), FailureKind::IdentityExhausted);
    assert_eq!(calls.load(Ordering::Relaxed), 0);
    assert!(!task.owns_state());
    assert!(task.pending_key().is_none());
    assert_eq!(task.accounting().usage(Resource::Requests).consumed(), 0);
}

#[test]
fn checked_counters_reject_overflow_even_with_maximum_limits() {
    let limits = TaskLimits::qualification()
        .with_limit(Resource::PlanEncodedBytes, usize::MAX)
        .with_limit(Resource::WorkUnits, usize::MAX)
        .with_limit(Resource::SchemaNodes, usize::MAX);
    let mut walk = Walk {
        limits: &limits,
        tally: Tally {
            encoded: usize::MAX,
            work: usize::MAX,
            schema_nodes: usize::MAX,
        },
    };
    for (resource, result) in [
        (Resource::PlanEncodedBytes, walk.add(1)),
        (Resource::WorkUnits, walk.work(1)),
        (Resource::SchemaNodes, walk.schema_enter(1)),
    ] {
        assert_eq!(
            result,
            Err(PlanShapeError::ResourceExhausted(ResourceExhausted {
                resource,
                limit: usize::MAX,
                observed: usize::MAX,
            }))
        );
    }
}

#[test]
fn response_kinds_match_only_their_variant_and_debug_does_not_visit_payloads() {
    let mut ids = IdentityAllocator::new();
    let id = TaskId::allocate(&mut ids).unwrap();
    let evaluation = EvaluationKey::allocate(&mut ids, id.get()).unwrap();
    let kinds = [
        ResponseKind::List,
        ResponseKind::Read,
        ResponseKind::Head,
        ResponseKind::Footer,
        ResponseKind::Evaluation(evaluation),
    ];
    let responses = [
        TaskResponseV1::Listing {
            files: vec![],
            continuation: None,
        },
        TaskResponseV1::Bytes {
            offset: 0,
            bytes: vec![42; 100_000],
            eof: true,
        },
        TaskResponseV1::Head { size: 1 },
        TaskResponseV1::Footer {
            footer: ParquetFooter {
                schema: StructType { fields: vec![] },
            },
        },
        TaskResponseV1::Evaluation {
            evaluation,
            page: None,
        },
    ];
    for (i, kind) in kinds.into_iter().enumerate() {
        for (j, response) in responses.iter().enumerate() {
            assert_eq!(kind.matches(response), i == j);
            assert!(response.label().len() < 32);
        }
    }
    let request = TaskRequestV1::Head {
        path: "never-echo".repeat(8192),
    };
    assert_eq!(request.label(), "Head(..)");
    struct NotDebug;
    assert_eq!(TaskStep::Complete(NotDebug).label(), "Complete(..)");
}

#[test]
fn identity_overflow_and_zero_never_wrap_or_issue_an_identity() {
    let mut ids = u64::MAX - 1;
    assert_eq!(allocate_identity(&mut ids), Ok(u64::MAX - 1));
    for _ in 0..2 {
        assert_eq!(
            allocate_identity(&mut ids),
            Err(TaskProtocolError::IdentityExhausted)
        );
        assert_eq!(ids, u64::MAX);
    }
    assert_eq!(
        allocate_identity(&mut 0),
        Err(TaskProtocolError::IdentityExhausted)
    );
    assert_eq!(
        RequestKey::new(0, 1),
        Err(TaskProtocolError::InvalidIdentity)
    );
    assert_eq!(
        RequestKey::new(1, 0),
        Err(TaskProtocolError::InvalidIdentity)
    );
    assert_eq!(
        EvaluationKey::allocate(&mut IdentityAllocator::new(), 0),
        Err(TaskProtocolError::InvalidIdentity)
    );
    let mut ids = IdentityAllocator::resume_at(u64::MAX, u64::MAX);
    assert_eq!(
        TaskId::allocate(&mut ids),
        Err(TaskProtocolError::IdentityExhausted)
    );
    assert_eq!(
        EvaluationKey::allocate(&mut ids, 1),
        Err(TaskProtocolError::IdentityExhausted)
    );
}
