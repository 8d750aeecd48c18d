use std::sync::Arc;

use operation_tasks::engine::{
    immediate, put_failure, resolve_scope, ArrowEvaluationHandler, EvaluationPath, Scope,
};
use operation_tasks::failure::Error;
use operation_tasks::headroom::Headroom;
use operation_tasks::json_materialization::preflight_schema_json;
use operation_tasks::locations::{is_editable, location, read_root};
use operation_tasks::plan::{Expression, Operator, Plan, PlanNode, Predicate, Scalar, StructPatch, Values};
use operation_tasks::protocol::IdentityAllocator;
use operation_tasks::schema::{
    schema_contains_timestamp_nanos, ArrayType, ColumnName, DataType, MapType, MetadataEntry,
    MetadataValue, PrimitiveType, StructField, StructType,
};
use operation_tasks::sizing::{hash_peak, vector_peak};
use operation_tasks::table::{
    Metadata, PmCandidate, Protocol, ScanRow, TableConfiguration,
};
use operation_tasks::table_features::validate_timestamp_nanos_feature_support;
use operation_tasks::table_support::{check_fields, root_owner_peak, take_actions};
use operation_tasks::scan_preflight::validate_files;
use operation_tasks::log_manifest::commit_version;
use operation_tasks::{
    EvaluationKey, FailureKind, OperationFailure, PlanAdmissionError, PlanShape, PlanShapeError,
    RequestKey, Resource, ResourceExhausted, TaskAccounting, TaskId, TaskLimits,
    TaskProtocolError,
};

const NANOS: DataType = DataType::Primitive(PrimitiveType::TimestampNanos);
const LONG: DataType = DataType::Primitive(PrimitiveType::Long);
const STRING: DataType = DataType::Primitive(PrimitiveType::String);

fn ok<T>(result: Result<T, OperationFailure>) -> T {
    match result {
        Ok(value) => value,
        Err(failure) => panic!("{}", failure.message()),
    }
}

fn outside<T>(result: Result<T, OperationFailure>) -> String {
    match result.err().unwrap().into_error() {
        Error::Unsupported(text) => text,
        _ => panic!("an unsupported input was expected"),
    }
}

fn schema(fields: Vec<StructField>) -> StructType {
    StructType { fields }
}

#[test]
fn nanos_plan_shape_accounts_wire_and_rejects_tight_budget() {
    let plan = Plan {
        nodes: vec![PlanNode {
            op: Operator::Values(Values {
                schema: schema(vec![StructField::not_null("ts", NANOS)]),
                rows: vec![vec![Scalar::TimestampNanos(-1)]],
            }),
            inputs: vec![],
        }],
    };
    let limits = TaskLimits::qualification();
    let shape = PlanShape::check_literals(&plan, &limits, &mut [0]).unwrap();
    let exact = limits.with_limit(Resource::PlanEncodedBytes, shape.encoded_bytes());
    assert!(PlanShape::check_literals(&plan, &exact, &mut [0]).is_ok());
    let tight = limits.with_limit(Resource::PlanEncodedBytes, shape.encoded_bytes() - 1);
    assert!(PlanShape::check_literals(&plan, &tight, &mut [0]).is_err());
}

fn features(names: &[&str]) -> Option<Vec<String>> {
    Some(names.iter().map(|name| name.to_string()).collect())
}

fn protocol(reader: &[&str], writer: &[&str]) -> Protocol {
    Protocol {
        min_reader_version: 3,
        min_writer_version: 7,
        reader_features: features(reader),
        writer_features: features(writer),
    }
}

fn metadata(partition_columns: Vec<String>) -> Metadata {
    Metadata {
        id: "table".to_string(),
        name: None,
        description: None,
        provider: "parquet".to_string(),
        schema_string: String::new(),
        partition_columns,
        created_time: None,
        configuration: vec![],
    }
}

fn configuration(schema: StructType, protocol: Protocol) -> TableConfiguration {
    TableConfiguration {
        metadata: metadata(vec![]),
        protocol,
        table_root: "memory:///".to_string(),
        version: 0,
        schema,
        stats_columns: None,
    }
}

#[test]
fn nanos_schema_requires_protocol_feature() {
    for nested in [false, true] {
        for feature in [false, true] {
            let leaf = schema(vec![StructField::nullable("ts", NANOS)]);
            let schema = if nested {
                schema(vec![StructField::nullable(
                    "nested",
                    DataType::Struct(Box::new(leaf)),
                )])
            } else {
                leaf
            };
            let names: &[&str] = if feature { &["timestampNanos"] } else { &[] };
            let table = configuration(schema, protocol(names, names));
            assert_eq!(
                validate_timestamp_nanos_feature_support(&table).is_ok(),
                feature
            );
        }
    }
}

#[test]
fn nanos_protocol_requires_both_reader_and_writer_features() {
    for reader in [false, true] {
        for writer in [false, true] {
            let of = |declared: bool| -> &[&str] {
                if declared {
                    &["columnMapping", "timestampNanos"]
                } else {
                    &[]
                }
            };
            let table = configuration(
                schema(vec![StructField::nullable("ts", NANOS)]),
                protocol(of(reader), of(writer)),
            );
            let result = validate_timestamp_nanos_feature_support(&table);
            assert_eq!(result.is_ok(), reader && writer);
            if let Err(Error::Unsupported(text)) = result {
                assert_eq!(text, "Table contains TIMESTAMP_NANOS columns but does not have the required 'timestampNanos' feature in reader and writer features");
            }
            // A table without such columns needs no feature.
            let plain = configuration(
                schema(vec![StructField::nullable("ts", LONG)]),
                protocol(of(reader), of(writer)),
            );
            assert!(validate_timestamp_nanos_feature_support(&plain).is_ok());
        }
    }
}

#[test]
fn nanos_are_found_at_every_nesting() {
    for data_type in [
        NANOS,
        DataType::Struct(Box::new(schema(vec![StructField::nullable("nested", NANOS)]))),
        DataType::Array(Box::new(ArrayType::new(NANOS, true))),
        DataType::Mapping(Box::new(MapType::new(STRING, NANOS, true))),
        DataType::Mapping(Box::new(MapType::new(NANOS, STRING, true))),
    ] {
        assert!(schema_contains_timestamp_nanos(&schema(vec![
            StructField::nullable("a", LONG),
            StructField::nullable("ts", data_type),
        ])));
    }
    assert!(!schema_contains_timestamp_nanos(&schema(vec![
        StructField::nullable("a", DataType::Primitive(PrimitiveType::Timestamp)),
    ])));
}

#[test]
fn browser_immediate_driver_never_parks_the_host_thread() {
    assert!(matches!(immediate(Some(42), "ready test"), Ok(42)));
    let Err(Error::Generic(text)) = immediate::<()>(None, "pending test") else {
        panic!("a pending prefetched-store future must fail instead of parking")
    };
    assert!(text.contains("pending test"));
    assert!(text.contains("yielded Pending"));
}

#[test]
fn supplied_stores_serve_every_location() {
    assert_eq!(
        resolve_scope(true, "memory:///test/a%20b?x#y").ok(),
        Some(Scope::Store {
            base: "memory:///?x#y".to_string(),
            path: "/test/a%20b".to_string(),
        })
    );
    assert_eq!(resolve_scope(false, "file:///tmp/a").ok(), Some(Scope::File));
    let Err(Error::Generic(text)) = resolve_scope(false, "memory:///test/") else {
        panic!("only local files are accessible without a store")
    };
    assert_eq!(
        text,
        "SyncEngine without an explicit store can only access file:// URLs, got: memory:///test/"
    );
    assert!(resolve_scope(true, "no location").is_err());
}

#[test]
fn paths_are_changed_where_the_positions_fit() {
    assert!(is_editable("memory:///test/", "/"));
    assert!(is_editable("memory:///test", ""));
    assert!(is_editable("no location", "/"));
}

#[test]
fn refused_writes_tell_existing_targets_apart() {
    assert!(
        matches!(put_failure(true, "memory:///a", "taken"), Error::FileAlreadyExists(text) if text == "memory:///a")
    );
    assert!(
        matches!(put_failure(false, "memory:///a", "broken"), Error::Generic(text) if text == "broken")
    );
}

#[test]
fn empty_patches_only_relabel() {
    let handler = ArrowEvaluationHandler;
    let empty = |input_path: Option<ColumnName>| {
        Arc::new(Expression::StructPatch(StructPatch {
            input_path,
            field_patches: vec![],
            prepended_fields: vec![],
            appended_fields: vec![],
        }))
    };
    let column = || ColumnName {
        path: vec!["nested".to_string()],
    };
    let input = Arc::new(schema(vec![StructField::nullable("a", LONG)]));
    let structure = || DataType::Struct(Box::new(schema(vec![])));
    let whole = handler.new_expression_evaluator(input.clone(), empty(None), structure());
    assert!(matches!(whole.path(), EvaluationPath::Relabel(None)));
    let nested = handler.new_expression_evaluator(input.clone(), empty(Some(column())), structure());
    assert!(matches!(nested.path(), EvaluationPath::Relabel(Some(path)) if *path == column()));
    let literal = Arc::new(Expression::Literal(Scalar::Long(1)));
    let columns = handler.new_expression_evaluator(input.clone(), literal.clone(), structure());
    assert!(matches!(columns.path(), EvaluationPath::Columns));
    let output = handler.new_expression_evaluator(input.clone(), literal, LONG);
    assert!(matches!(output.path(), EvaluationPath::Output));
    handler.new_predicate_evaluator(
        input,
        Arc::new(Predicate::BooleanExpression(Expression::Literal(Scalar::Boolean(true)))),
    );
}

#[test]
fn rows_of_another_width_are_named() {
    let handler = ArrowEvaluationHandler;
    let schema = schema(vec![StructField::nullable("a", LONG)]);
    let rows = vec![vec![Scalar::Long(1)], vec![]];
    let Err(Error::Generic(text)) = handler.check_rows(&schema, &rows) else {
        panic!("a row of another width must be refused")
    };
    assert_eq!(text, "Row 1 has 0 scalars but schema has 1 fields");
    assert!(handler.check_rows(&schema, &vec![vec![Scalar::Long(1)]]).is_ok());
}

fn supported() -> Protocol {
    Protocol {
        min_reader_version: 1,
        min_writer_version: 2,
        reader_features: None,
        writer_features: None,
    }
}

fn candidate(metadata_version: i64, protocol_version: i64) -> Option<PmCandidate> {
    Some(PmCandidate {
        metadata: Some((metadata_version, metadata(vec![]))),
        protocol: Some((protocol_version, supported())),
    })
}

#[test]
fn replayed_actions_stay_in_the_supported_subset() {
    let (metadata_found, protocol_found) = ok(take_actions(candidate(0, 3), Some(3)));
    assert_eq!(metadata_found.id, "table");
    assert_eq!(protocol_found.min_writer_version, 2);
    let error = |candidate: Option<PmCandidate>| {
        take_actions(candidate, Some(3)).err().unwrap().into_error()
    };
    assert!(matches!(error(None), Error::MissingMetadataAndProtocol));
    assert!(matches!(
        error(Some(PmCandidate {
            metadata: None,
            protocol: Some((0, supported())),
        })),
        Error::MissingMetadata
    ));
    assert!(matches!(
        error(Some(PmCandidate {
            metadata: Some((0, metadata(vec![]))),
            protocol: None,
        })),
        Error::MissingProtocol
    ));
    assert_eq!(
        take_actions(candidate(0, 0), None).err().unwrap().kind(),
        FailureKind::MalformedResponse
    );
    for protocol_version in [-1, 4] {
        assert_eq!(
            take_actions(candidate(0, protocol_version), Some(3)).err().unwrap().kind(),
            FailureKind::MalformedResponse
        );
    }
    assert_eq!(
        outside(take_actions(candidate(1, 0), Some(3))),
        "metadata evolution is outside JSON operation tasks"
    );
    for protocol in [
        Protocol {
            min_reader_version: 2,
            ..supported()
        },
        Protocol {
            min_writer_version: 3,
            ..supported()
        },
        Protocol {
            reader_features: features(&["deletionVectors"]),
            ..supported()
        },
        Protocol {
            writer_features: features(&["appendOnly"]),
            ..supported()
        },
    ] {
        let refused = PmCandidate {
            metadata: Some((0, metadata(vec![]))),
            protocol: Some((0, protocol)),
        };
        assert_eq!(
            outside(take_actions(Some(refused), Some(3))),
            "table protocol/features are outside JSON operation tasks"
        );
    }
    let partitioned = PmCandidate {
        metadata: Some((0, metadata(vec!["day".to_string()]))),
        protocol: Some((0, supported())),
    };
    assert_eq!(
        outside(take_actions(Some(partitioned), Some(3))),
        "partitioned tables are outside JSON operation tasks"
    );
}

#[test]
fn supported_fields_are_plain_primitives() {
    ok(check_fields(&vec![
        StructField::nullable("a", LONG),
        StructField::not_null("b", STRING),
    ]));
    let mut described = StructField::nullable("a", LONG);
    described.metadata.push(MetadataEntry {
        key: "comment".to_string(),
        value: MetadataValue::Number(1),
    });
    let array = StructField::nullable("a", DataType::Array(Box::new(ArrayType::new(LONG, true))));
    for field in [described, array] {
        assert_eq!(
            outside(check_fields(&vec![field])),
            "JSON operation tasks require plain primitive fields"
        );
    }
    for ty in [
        PrimitiveType::Void,
        PrimitiveType::IntervalYearMonth,
        PrimitiveType::IntervalDayTime,
    ] {
        assert_eq!(
            outside(check_fields(&vec![StructField::nullable(
                "a",
                DataType::Primitive(ty)
            )])),
            "primitive type is outside JSON operation tasks"
        );
    }
}

fn row(path: &str) -> ScanRow {
    ScanRow {
        path: path.to_string(),
        size: 1,
        has_deletion_vector: false,
        partition_values: 0,
        has_transform: false,
    }
}

#[test]
fn validated_files_stay_under_the_table_root() {
    let root = "https://example.com/table/";
    ok(validate_files(root, &vec![row("a.parquet"), row("dir/b%20c.parquet")]));
    for path in ["../x", "%2e%2e/x", "//other/a", "https://other.example/a", "/a"] {
        assert_eq!(
            validate_files(root, &vec![row("a.parquet"), row(path)])
                .err()
                .unwrap()
                .kind(),
            FailureKind::MalformedResponse,
            "{path}"
        );
    }
    assert!(validate_files(
        root,
        &vec![ScanRow {
            size: -1,
            ..row("a.parquet")
        }]
    )
    .is_err());
    for refused in [
        ScanRow {
            has_deletion_vector: true,
            ..row("a.parquet")
        },
        ScanRow {
            partition_values: 1,
            ..row("a.parquet")
        },
        ScanRow {
            has_transform: true,
            ..row("a.parquet")
        },
    ] {
        assert!(matches!(
            validate_files(root, &vec![refused]).err().unwrap().into_error(),
            Error::Unsupported(_)
        ));
    }
}

#[test]
fn locations_are_read_in_their_canonical_form() {
    assert_eq!(
        location("HTTPS://EXAMPLE.com/a b").as_deref(),
        Some("https://example.com/a%20b")
    );
    assert_eq!(location("no location"), None);
    let facts = read_root("memory:///table/?x#y").unwrap();
    assert!(facts.query && facts.fragment && !facts.opaque);
    let facts = read_root("mailto:user@example.com").unwrap();
    assert!(!facts.query && !facts.fragment && facts.opaque);
    assert!(read_root("memory:///table/").unwrap().directory);
    assert!(!read_root("memory:///table").unwrap().directory);
    assert!(read_root("no location").is_none());
}

#[test]
fn commit_names_are_twenty_digits_and_json() {
    let root = "memory:///log/";
    let version = |name: &str| commit_version(root, &format!("{root}{name}"));
    assert_eq!(version("00000000000000000000.json"), Some(0));
    assert_eq!(version("00000000000000000042.json"), Some(42));
    assert_eq!(version("18446744073709551615.json"), Some(u64::MAX));
    for name in [
        "18446744073709551616.json",
        "0000000000000000000.json",
        "000000000000000000000.json",
        "0000000000000000000a.json",
        "00000000000000000000.jsonl",
        "00000000000000000000.checkpoint.parquet",
        "_last_checkpoint",
        "",
    ] {
        assert_eq!(version(name), None, "{name}");
    }
    assert_eq!(commit_version(root, "memory:///other/00000000000000000000.json"), None);
}

#[test]
fn schema_texts_are_bounded_before_they_are_parsed() {
    let limits = TaskLimits::qualification();
    ok(preflight_schema_json(r#"{"type":"struct","fields":[]}"#, &limits));
    // Brackets inside texts, and escaped quotes, do not nest.
    ok(preflight_schema_json(
        r#"{"a":"[[[[\"{{{{"}"#,
        &limits.with_limit(Resource::SchemaDepth, 1),
    ));
    assert!(matches!(
        preflight_schema_json("[[1]]", &limits.with_limit(Resource::SchemaDepth, 1))
            .err()
            .unwrap()
            .kind(),
        FailureKind::ResourceExhausted(e) if e.resource == Resource::SchemaDepth
    ));
    assert_eq!(
        preflight_schema_json("{\"unclosed\":", &limits).err().unwrap().kind(),
        FailureKind::MalformedResponse
    );
}

#[test]
fn vectors_and_tables_are_bounded_by_their_growth() {
    assert_eq!(vector_peak::<u64>(1), Some(4 * 2 * 8));
    assert_eq!(vector_peak::<u64>(5), Some(10 * 2 * 8));
    assert_eq!(vector_peak::<u8>(1), Some(8 * 2));
    assert_eq!(vector_peak::<[u8; 1025]>(1), Some(2 * 2 * 1025));
    assert_eq!(vector_peak::<()>(7), Some(0));
    assert_eq!(vector_peak::<u64>(usize::MAX), None);
    // Seven of eight buckets may be filled.
    assert_eq!(hash_peak::<u64>(3), Some((4 * 9 + 31) * 2));
    assert_eq!(hash_peak::<u64>(8), Some((16 * 9 + 31) * 2));
    assert_eq!(hash_peak::<u64>(usize::MAX), None);
    assert_eq!(root_owner_peak(0), Some(vector_peak::<u8>(1).unwrap() + vector_peak::<u8>(12).unwrap()));
}

#[test]
fn room_for_more_is_room_for_less_on_values() {
    let limits = TaskLimits::qualification().with_limit(Resource::TaskStateBytes, 100);
    let accounting = TaskAccounting::new(limits);
    let headroom = Headroom {
        held: Some(60),
        host_live: false,
    };
    ok(headroom.consider(&accounting, &limits, 40));
    ok(headroom.consider(&accounting, &limits, 39));
    assert!(matches!(
        headroom.consider(&accounting, &limits, 41).err().unwrap().kind(),
        FailureKind::ResourceExhausted(e) if e.resource == Resource::TaskStateBytes && e.observed == 101
    ));
    let unmeasured = Headroom {
        held: None,
        host_live: false,
    };
    assert!(unmeasured.consider(&accounting, &limits, 0).is_err());
}

#[test]
fn identities_never_repeat_on_values() {
    let mut ids = IdentityAllocator::new();
    let mut seen = vec![];
    for _ in 0..8 {
        let task = TaskId::allocate(&mut ids).unwrap().get();
        let evaluation = EvaluationKey::allocate(&mut ids, task).unwrap();
        assert_eq!(evaluation.task_id(), task);
        assert!(!seen.contains(&(task, evaluation.evaluation_id())));
        seen.push((task, evaluation.evaluation_id()));
    }
    let key = RequestKey::new(3, 4).unwrap();
    assert_eq!((key.task_id(), key.request_id()), (3, 4));
}

#[test]
fn charges_add_up_and_are_all_or_nothing() {
    let limits = TaskLimits::qualification().with_limit(Resource::WorkUnits, 10);
    let mut accounting = TaskAccounting::new(limits);
    accounting.charge(Resource::WorkUnits, 3).unwrap();
    accounting.charge(Resource::WorkUnits, 4).unwrap();
    assert_eq!(accounting.usage(Resource::WorkUnits).consumed(), 7);
    assert_eq!(accounting.next_charge(Resource::WorkUnits, 3), Ok(10));
    let refused = ResourceExhausted {
        resource: Resource::WorkUnits,
        limit: 10,
        observed: 11,
    };
    assert_eq!(accounting.charge(Resource::WorkUnits, 4), Err(refused));
    assert_eq!(accounting.usage(Resource::WorkUnits).consumed(), 7);
    accounting.charge(Resource::WorkUnits, 3).unwrap();
    assert_eq!(accounting.usage(Resource::WorkUnits).consumed(), 10);
}

#[test]
fn failures_describe_themselves() {
    let exhausted = ResourceExhausted {
        resource: Resource::WorkUnits,
        limit: 10,
        observed: 11,
    };
    assert_eq!(
        exhausted.message(),
        "WorkUnits exhausted: limit 10, observed 11"
    );
    assert_eq!(FailureKind::ResourceExhausted(exhausted).message(), exhausted.message());
    assert_eq!(FailureKind::Cancelled.message(), "operation cancelled");
    assert_eq!(FailureKind::Engine.message(), "engine operation failed");
    assert_eq!(FailureKind::MalformedResponse.message(), "malformed task response");
    assert_eq!(FailureKind::IdentityExhausted.message(), "task identity exhausted");
    let texts: Vec<String> = [
        TaskProtocolError::InvalidLimits,
        TaskProtocolError::NotStarted,
        TaskProtocolError::AlreadyStarted,
        TaskProtocolError::PendingRequest,
        TaskProtocolError::WrongKey,
        TaskProtocolError::WrongKind,
        TaskProtocolError::Terminal,
        TaskProtocolError::InvalidIdentity,
        TaskProtocolError::IdentityExhausted,
        TaskProtocolError::HostWorkUnavailable,
    ]
    .iter()
    .map(|error| error.message())
    .collect();
    for (i, text) in texts.iter().enumerate() {
        assert!(!text.is_empty());
        assert!(!texts[..i].contains(text));
    }
    assert!(PlanShapeError::InvalidArity { node: 7 }.message().contains('7'));
    assert!(!PlanAdmissionError::DuplicateMetadata.message().is_empty());
    let failure = PlanAdmissionError::ResourceExhausted(exhausted).into_failure();
    assert_eq!(failure.kind(), FailureKind::ResourceExhausted(exhausted));
    let failure = PlanAdmissionError::InvalidShape.into_failure();
    assert_eq!(failure.kind(), FailureKind::Engine);
    assert!(failure.has_source());
}
