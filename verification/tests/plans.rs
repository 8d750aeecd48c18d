use std::sync::Arc;

use operation_tasks::plan::{
    Agg, Aggregate, ArrayData, BinaryExpressionOp, BinaryPredicateOp, DecimalData, DynamicScan,
    Expression, FieldPatch, FileMeta, FileScan, FileType, Filter, JunctionPredicateOp, MapData,
    MapPair, NonNullByOperands, OpaqueExpression, OpaqueExpressionOp, OpaquePredicate,
    OpaquePredicateOp, Operator, Plan, PlanNode, Predicate, Project, Scalar, ScanFile, SemiJoin,
    StructData, StructPatch, UnaryExpressionOp, UnaryPredicateOp, Values, VariadicExpressionOp,
};
use operation_tasks::schema::{
    ArrayType, ColumnName, DataType, JsonProperty, JsonValue, MapType, MetadataEntry,
    MetadataValue, PrimitiveType, StructField, StructType,
};
use operation_tasks::{
    AdmittedPlan, PlanAdmissionError, PlanMetadataEntry, PlanShape, PlanShapeError, Resource,
    TaskLimits,
};

const LONG: DataType = DataType::Primitive(PrimitiveType::Long);
const STRING: DataType = DataType::Primitive(PrimitiveType::String);
const BINARY: DataType = DataType::Primitive(PrimitiveType::Binary);

fn schema(fields: Vec<StructField>) -> StructType {
    StructType { fields }
}

fn structure(fields: Vec<StructField>) -> DataType {
    DataType::Struct(Box::new(schema(fields)))
}

fn array(element: DataType, contains_null: bool) -> DataType {
    DataType::Array(Box::new(ArrayType::new(element, contains_null)))
}

fn map(key: DataType, value: DataType, contains_null: bool) -> DataType {
    DataType::Mapping(Box::new(MapType::new(key, value, contains_null)))
}

fn column(path: &[&str]) -> ColumnName {
    ColumnName {
        path: path.iter().map(|name| name.to_string()).collect(),
    }
}

fn entry(key: &str, value: MetadataValue) -> MetadataEntry {
    MetadataEntry {
        key: key.to_string(),
        value,
    }
}

fn described(mut field: StructField, metadata: Vec<MetadataEntry>) -> StructField {
    field.metadata = metadata;
    field
}

fn node(op: Operator, inputs: Vec<usize>) -> PlanNode {
    PlanNode { op, inputs }
}

fn values(schema: StructType, rows: Vec<Vec<Scalar>>) -> Operator {
    Operator::Values(Values { schema, rows })
}

fn values_plan(schema: StructType, rows: Vec<Vec<Scalar>>) -> Plan {
    Plan {
        nodes: vec![node(values(schema, rows), vec![])],
    }
}

fn lit(value: i32) -> Expression {
    Expression::Literal(Scalar::Integer(value))
}

fn always() -> Operator {
    Operator::Filter(Filter {
        predicate: Predicate::BooleanExpression(Expression::Literal(Scalar::Boolean(true))),
    })
}

fn patch(field_patches: Vec<FieldPatch>) -> StructPatch {
    StructPatch {
        input_path: None,
        field_patches,
        prepended_fields: vec![],
        appended_fields: vec![],
    }
}

fn field_patch(name: &str) -> FieldPatch {
    FieldPatch {
        name: name.to_string(),
        keep_input: true,
        optional: false,
        insertions: vec![],
    }
}

fn file(constants: Vec<Scalar>) -> ScanFile {
    ScanFile {
        meta: FileMeta {
            location: "memory:///file".to_string(),
            size: 1,
            last_modified: 0,
        },
        file_constants: constants,
    }
}

fn expression_plan(expr: Expression) -> Plan {
    Plan {
        nodes: vec![
            node(values(schema(vec![]), vec![]), vec![]),
            node(
                Operator::Project(Project {
                    expr,
                    schema: schema(vec![]),
                }),
                vec![0],
            ),
        ],
    }
}

fn check_plan_shape(plan: &Plan, limits: &TaskLimits) -> Result<PlanShape, PlanShapeError> {
    let mut scratch = [0; 4096];
    PlanShape::check(plan, limits, &mut scratch)
}

fn check_literal_plan(plan: &Plan, limits: &TaskLimits) -> Result<PlanShape, PlanShapeError> {
    let mut scratch = [0; 4096];
    PlanShape::check_literals(plan, limits, &mut scratch)
}

/// The plan fits exactly what its own measures allow.
fn assert_plan_shape_bound(plan: &Plan) {
    let limits = TaskLimits::qualification();
    let shape = check_plan_shape(plan, &limits).unwrap();
    let exact = limits
        .with_limit(Resource::PlanEncodedBytes, shape.encoded_bytes())
        .with_limit(Resource::WorkUnits, shape.work_units())
        .with_limit(Resource::PlanNodes, shape.nodes())
        .with_limit(Resource::PlanDepth, shape.depth());
    assert_eq!(check_plan_shape(plan, &exact), Ok(shape));
    for (resource, measure) in [
        (Resource::PlanEncodedBytes, shape.encoded_bytes()),
        (Resource::WorkUnits, shape.work_units()),
        (Resource::PlanNodes, shape.nodes()),
        (Resource::PlanDepth, shape.depth()),
    ] {
        assert!(
            matches!(
                check_plan_shape(plan, &exact.with_limit(resource, measure - 1)),
                Err(PlanShapeError::ResourceExhausted(e)) if e.resource == resource
            ),
            "{resource:?}"
        );
    }
}

fn property(key: &str, value: JsonValue) -> JsonProperty {
    JsonProperty {
        key: key.to_string(),
        value,
    }
}

fn one_two_three() -> JsonValue {
    let number = |text: &str| JsonValue::Number(text.to_string());
    JsonValue::Array(vec![number("1"), number("2"), number("3")])
}

fn assert_unadmitted_map(plan: &Plan) {
    assert_eq!(
        check_plan_shape(plan, &TaskLimits::qualification()),
        Err(PlanShapeError::UnadmittedMap)
    );
    assert_eq!(
        check_literal_plan(plan, &TaskLimits::qualification()),
        Err(PlanShapeError::UnadmittedMap)
    );
}

fn expression_has_unadmitted_patch(expr: &Expression) -> bool {
    matches!(expr, Expression::StructPatch(p) if !p.field_patches.is_empty())
}

fn expression_rejection(expr: &Expression) -> PlanShapeError {
    if expression_has_unadmitted_patch(expr) {
        PlanShapeError::UnadmittedMap
    } else {
        PlanShapeError::UnsupportedExpression
    }
}

#[test]
fn dynamic_scans_are_measured_at_every_depth() {
    for depth in [0, 3, 32] {
        let mut input = schema(vec![
            StructField::not_null("path", STRING),
            StructField::not_null("size", LONG),
            StructField::not_null("modified", LONG),
        ]);
        for _ in 0..depth {
            input = schema(vec![StructField::not_null(
                "nested",
                DataType::Struct(Box::new(input)),
            )]);
        }
        let leaf = |name: &str| {
            let mut path = vec!["nested".to_string(); depth];
            path.push(name.to_string());
            ColumnName { path }
        };
        let scan = DynamicScan {
            schema: schema(vec![]),
            file_type: FileType::Parquet,
            base_url: "memory:///".to_string(),
            file_constant_columns: vec![],
            path_column: leaf("path"),
            file_size_column: leaf("size"),
            last_modified_column: leaf("modified"),
            dv_column: leaf("dv"),
        };
        assert_plan_shape_bound(&Plan {
            nodes: vec![
                node(values(input, vec![]), vec![]),
                node(Operator::DynamicScan(scan), vec![0]),
            ],
        });
    }
}

#[test]
fn plan_shape_checks_topology_and_budget_before_retaining_a_plan() {
    let source = || node(values(schema(vec![]), vec![]), vec![]);
    let mut plan = Plan {
        nodes: vec![source()],
    };
    let limits = TaskLimits::qualification();
    let shape = check_plan_shape(&plan, &limits).unwrap();
    assert_eq!(shape.nodes(), 1);
    assert_eq!(shape.depth(), 1);
    let exact = limits.with_limit(Resource::PlanEncodedBytes, shape.encoded_bytes());
    assert!(check_plan_shape(&plan, &exact).is_ok());
    assert!(matches!(
        check_plan_shape(&plan, &exact.with_limit(Resource::PlanEncodedBytes, shape.encoded_bytes() - 1)),
        Err(PlanShapeError::ResourceExhausted(e)) if e.resource == Resource::PlanEncodedBytes
    ));
    plan.nodes.push(node(Operator::UnionAll, vec![0]));
    assert_eq!(check_plan_shape(&plan, &limits).unwrap().depth(), 2);
    plan.nodes[1].inputs[0] = 1;
    assert_eq!(
        check_plan_shape(&plan, &limits),
        Err(PlanShapeError::InvalidInput { node: 1 })
    );
    plan.nodes[1].inputs.clear();
    assert_eq!(
        check_plan_shape(&plan, &limits),
        Err(PlanShapeError::InvalidArity { node: 1 })
    );
    assert_eq!(
        check_plan_shape(&Plan { nodes: vec![] }, &limits),
        Err(PlanShapeError::Empty)
    );
}

fn text_field() -> StructField {
    StructField::nullable("text\0\n雪", STRING)
}

fn every_scalar() -> Vec<(Scalar, DataType)> {
    let primitive = DataType::Primitive;
    let variant = || {
        DataType::Variant(Box::new(schema(vec![
            StructField::not_null("metadata", BINARY),
            StructField::not_null("value", BINARY),
        ])))
    };
    vec![
        (Scalar::Integer(i32::MIN), primitive(PrimitiveType::Integer)),
        (Scalar::Long(i64::MIN), LONG),
        (Scalar::Short(i16::MIN), primitive(PrimitiveType::Short)),
        (Scalar::Byte(i8::MIN), primitive(PrimitiveType::Byte)),
        (
            Scalar::Float(f32::NAN.to_bits()),
            primitive(PrimitiveType::Float),
        ),
        (
            Scalar::Double(f64::INFINITY.to_bits()),
            primitive(PrimitiveType::Double),
        ),
        (Scalar::String("abc雪".to_string()), STRING),
        (Scalar::Boolean(false), primitive(PrimitiveType::Boolean)),
        (
            Scalar::Timestamp(i64::MIN),
            primitive(PrimitiveType::Timestamp),
        ),
        (
            Scalar::TimestampNtz(i64::MAX),
            primitive(PrimitiveType::TimestampNtz),
        ),
        (Scalar::Date(i32::MIN), primitive(PrimitiveType::Date)),
        (Scalar::Binary(vec![255; 129]), BINARY),
        (
            Scalar::IntervalYearMonth(-1),
            primitive(PrimitiveType::IntervalYearMonth),
        ),
        (
            Scalar::IntervalDayTime(-1),
            primitive(PrimitiveType::IntervalDayTime),
        ),
        (
            Scalar::Decimal(DecimalData {
                bits: -123,
                precision: 38,
                scale: 10,
            }),
            primitive(PrimitiveType::Decimal {
                precision: 38,
                scale: 10,
            }),
        ),
        (
            Scalar::Null(structure(vec![text_field()])),
            structure(vec![text_field()]),
        ),
        (Scalar::Null(variant()), variant()),
        (
            Scalar::Struct(StructData {
                fields: vec![text_field()],
                values: vec![Scalar::String("value".to_string())],
            }),
            structure(vec![text_field()]),
        ),
        (
            Scalar::Array(Box::new(ArrayData {
                array_type: ArrayType::new(STRING, true),
                elements: vec![Scalar::String("a".to_string()), Scalar::Null(STRING)],
            })),
            array(STRING, true),
        ),
        (
            Scalar::Mapping(Box::new(MapData {
                map_type: MapType::new(STRING, LONG, true),
                pairs: vec![MapPair {
                    key: Scalar::String("k".to_string()),
                    value: Scalar::Long(-1),
                }],
            })),
            map(STRING, LONG, true),
        ),
    ]
}

#[test]
fn plan_shape_handles_nested_scalars_schemas_and_all_operators() {
    let field = described(
        text_field(),
        vec![
            entry("number", MetadataValue::Number(i64::MIN)),
            entry("string", MetadataValue::String("x".repeat(1 << 16))),
            entry("bool", MetadataValue::Boolean(false)),
            entry(
                "json",
                MetadataValue::Other(JsonValue::Object(vec![JsonProperty {
                    key: "\u{0000}\n雪".to_string(),
                    value: JsonValue::Array(vec![
                        JsonValue::Null,
                        JsonValue::Bool(true),
                        JsonValue::Number("-1.25e100".to_string()),
                    ]),
                }])),
            ),
        ],
    );
    assert_unadmitted_map(&values_plan(schema(vec![field]), vec![]));

    let columns = || {
        schema(
            every_scalar()
                .into_iter()
                .enumerate()
                .map(|(i, (_, ty))| StructField::nullable(&i.to_string(), ty))
                .collect(),
        )
    };
    let row = || every_scalar().into_iter().map(|(value, _)| value).collect();
    let scan = || FileScan {
        files: vec![ScanFile {
            meta: FileMeta {
                location: "memory:///table/file".to_string(),
                size: u64::MAX,
                last_modified: i64::MIN,
            },
            file_constants: row(),
        }],
        file_constant_columns: vec!["constant".to_string()],
        schema: columns(),
    };
    let c = || column(&["0"]);
    let operands = || NonNullByOperands {
        value: c(),
        null_sentinel: c(),
        key: c(),
    };
    let plan = Plan {
        nodes: vec![
            node(values(columns(), vec![row()]), vec![]),
            node(Operator::ScanJson(scan()), vec![]),
            node(Operator::ScanParquet(scan()), vec![]),
            node(always(), vec![0]),
            node(Operator::UnionAll, vec![1, 2, 3]),
            node(
                Operator::Aggregate(Aggregate {
                    group_by: vec![c()],
                    aggs: vec![
                        Agg::Min(c()),
                        Agg::Max(c()),
                        Agg::Sum(c()),
                        Agg::Count(c()),
                        Agg::CountStar,
                        Agg::MinNonNullBy(operands()),
                        Agg::MaxNonNullBy(operands()),
                    ],
                    schema: columns(),
                }),
                vec![4],
            ),
            node(
                Operator::SemiJoin(SemiJoin {
                    inverted: true,
                    probe_keys: vec![c()],
                    build_keys: vec![c()],
                }),
                vec![4, 5],
            ),
        ],
    };
    assert_plan_shape_bound(&plan);
    assert_eq!(
        check_plan_shape(&plan, &TaskLimits::qualification())
            .unwrap()
            .depth(),
        5
    );
}

fn expression_wrappers(expr: &dyn Fn() -> Expression) -> Vec<Expression> {
    vec![
        expr(),
        Expression::Struct(vec![expr()], None),
        Expression::Struct(vec![], Some(Box::new(expr()))),
        Expression::Unary(UnaryExpressionOp::ToJson, Box::new(expr())),
        Expression::Binary(
            BinaryExpressionOp::Plus,
            Box::new(expr()),
            Box::new(lit(1)),
        ),
        Expression::Variadic(VariadicExpressionOp::Coalesce, vec![expr()]),
        Expression::ParseJson(Box::new(expr()), schema(vec![])),
        Expression::MapToStruct(Box::new(expr())),
        Expression::Cast(Box::new(expr()), array(STRING, true)),
        Expression::StructPatch(StructPatch {
            input_path: Some(column(&["nested"])),
            field_patches: vec![FieldPatch {
                name: "field".to_string(),
                keep_input: true,
                optional: true,
                insertions: vec![expr()],
            }],
            prepended_fields: vec![],
            appended_fields: vec![],
        }),
        Expression::StructPatch(StructPatch {
            prepended_fields: vec![expr()],
            ..patch(vec![])
        }),
        Expression::StructPatch(StructPatch {
            appended_fields: vec![expr()],
            ..patch(vec![])
        }),
        Expression::Predicate(Box::new(Predicate::BooleanExpression(expr()))),
        Expression::Predicate(Box::new(Predicate::Not(Box::new(
            Predicate::BooleanExpression(expr()),
        )))),
        Expression::Predicate(Box::new(Predicate::Unary(
            UnaryPredicateOp::IsNull,
            Box::new(expr()),
        ))),
        Expression::Predicate(Box::new(Predicate::Binary(
            BinaryPredicateOp::Equal,
            Box::new(lit(1)),
            Box::new(expr()),
        ))),
        Expression::Predicate(Box::new(Predicate::Junction(
            JunctionPredicateOp::And,
            vec![Predicate::BooleanExpression(expr())],
        ))),
    ]
}

#[test]
fn plan_shape_walks_all_expression_positions_and_rejects_nested_unknowns() {
    for expr in expression_wrappers(&|| Expression::Column(column(&["field", "nested"]))) {
        let unadmitted = expression_has_unadmitted_patch(&expr);
        let plan = expression_plan(expr);
        if unadmitted {
            assert_unadmitted_map(&plan);
        } else {
            assert_plan_shape_bound(&plan);
        }
    }
    let unknown_expression = || Expression::Unknown("hidden".to_string());
    let unknown_predicate =
        || Expression::Predicate(Box::new(Predicate::Unknown("hidden".to_string())));
    let unknowns: [&dyn Fn() -> Expression; 2] = [&unknown_expression, &unknown_predicate];
    for unknown in unknowns {
        for expr in expression_wrappers(unknown) {
            let expected = expression_rejection(&expr);
            let plan = expression_plan(expr);
            assert_eq!(
                check_plan_shape(&plan, &TaskLimits::qualification()),
                Err(expected)
            );
        }
    }
}

#[test]
fn plan_shape_rejects_each_resource_boundary_without_unbounded_scratch() {
    let plan = expression_plan(lit(1));
    let limits = TaskLimits::qualification();
    let shape = check_plan_shape(&plan, &limits).unwrap();
    for (resource, limit) in [
        (Resource::PlanNodes, 1),
        (Resource::PlanDepth, 1),
        (Resource::PlanEncodedBytes, shape.encoded_bytes() - 1),
        (Resource::WorkUnits, shape.work_units() - 1),
        (Resource::SchemaNodes, 0),
        (Resource::SchemaDepth, 0),
    ] {
        let result = check_plan_shape(&plan, &limits.with_limit(resource, limit));
        assert!(
            matches!(result, Err(PlanShapeError::ResourceExhausted(e)) if e.resource == resource),
            "{resource:?}: {result:?}"
        );
    }
    let mut expr = lit(1);
    for _ in 0..65 {
        expr = Expression::Struct(vec![expr], None);
    }
    let deep = expression_plan(expr);
    assert!(
        matches!(check_plan_shape(&deep, &limits.with_limit(Resource::SchemaDepth, usize::MAX)), Err(PlanShapeError::ResourceExhausted(e)) if e.resource == Resource::SchemaDepth && e.limit == 64)
    );
    let mut patches = Vec::with_capacity(4096);
    patches.push(field_patch("x"));
    let sparse = expression_plan(Expression::StructPatch(patch(patches)));
    assert!(matches!(
        check_plan_shape(&sparse, &limits.with_limit(Resource::WorkUnits, 100)),
        Err(PlanShapeError::UnadmittedMap)
    ));
}

struct NeverInvoke;

impl OpaqueExpressionOp for NeverInvoke {
    fn name(&self) -> String {
        panic!("preflight must not invoke an opaque callback")
    }
}

impl OpaquePredicateOp for NeverInvoke {
    fn name(&self) -> String {
        panic!("preflight must not invoke an opaque callback")
    }
}

#[test]
fn plan_shape_rejects_opaque_callbacks_without_invoking_or_retaining_them() {
    let op = Arc::new(NeverInvoke);
    let opaque = || {
        Expression::Opaque(OpaqueExpression {
            op: op.clone(),
            exprs: vec![],
        })
    };
    for expr in expression_wrappers(&opaque) {
        let expected = expression_rejection(&expr);
        let plan = expression_plan(expr);
        let before = Arc::strong_count(&op);
        assert_eq!(
            check_plan_shape(&plan, &TaskLimits::qualification()),
            Err(expected)
        );
        assert_eq!(Arc::strong_count(&op), before);
    }
    assert_eq!(Arc::strong_count(&op), 1);
}

#[test]
fn plan_shape_topology_and_schema_depth_limits_are_independent() {
    let mut nested = schema(vec![StructField::nullable("leaf", STRING)]);
    for _ in 1..64 {
        nested = schema(vec![StructField::nullable(
            "nested",
            DataType::Struct(Box::new(nested)),
        )]);
    }
    let mut plan = values_plan(nested, vec![]);
    let limits = TaskLimits::qualification();
    assert_plan_shape_bound(&plan);
    assert!(
        matches!(check_plan_shape(&plan, &limits.with_limit(Resource::SchemaDepth, 63)), Err(PlanShapeError::ResourceExhausted(e)) if e.resource == Resource::SchemaDepth)
    );
    for input in 0..63 {
        plan.nodes.push(node(always(), vec![input]));
    }
    assert_eq!(check_plan_shape(&plan, &limits).unwrap().depth(), 64);
    plan.nodes.push(node(always(), vec![63]));
    assert!(
        matches!(check_plan_shape(&plan, &limits), Err(PlanShapeError::ResourceExhausted(e)) if e.resource == Resource::PlanDepth)
    );
}

#[test]
fn plan_shape_borrows_only_the_required_scratch_prefix() {
    let plan = expression_plan(lit(1));
    let limits = TaskLimits::qualification();
    let mut too_short = [42];
    assert_eq!(
        PlanShape::check(&plan, &limits, &mut too_short),
        Err(PlanShapeError::ScratchTooSmall { required: 2 })
    );
    assert_eq!(too_short, [42]);
    let mut scratch = [42; 4];
    let shape = PlanShape::check(&plan, &limits, &mut scratch).unwrap();
    assert_eq!(shape.depth(), 2);
    assert_eq!(scratch, [1, 2, 42, 42]);
}

#[test]
fn plan_shape_bounds_repeated_decimal_and_escaping_heavy_metadata() {
    let decimal = || {
        Scalar::Decimal(DecimalData {
            bits: -123,
            precision: 38,
            scale: 10,
        })
    };
    let ty = DataType::Primitive(PrimitiveType::Decimal {
        precision: 38,
        scale: 10,
    });
    assert_plan_shape_bound(&values_plan(
        schema(vec![StructField::nullable("d", ty)]),
        (0..4096).map(|_| vec![decimal()]).collect(),
    ));
    let metadata = JsonValue::String("\u{0000}".repeat(16384));
    let field = described(
        StructField::nullable("m", STRING),
        vec![entry("control", MetadataValue::Other(metadata))],
    );
    assert_unadmitted_map(&values_plan(schema(vec![field]), vec![]));
}

#[test]
fn plan_shape_charges_cast_display_work_as_well_as_its_retained_target() {
    let target = || {
        structure(
            (0..128)
                .map(|i| StructField::nullable(&format!("field_{i}"), STRING))
                .collect(),
        )
    };
    let limits = TaskLimits::qualification();
    let null = expression_plan(Expression::Literal(Scalar::Null(target())));
    let baseline = check_plan_shape(&null, &limits).unwrap();
    let cast = expression_plan(Expression::Cast(Box::new(lit(1)), target()));
    let shape = check_plan_shape(&cast, &limits).unwrap();
    // The cast retains one more IR node than the typed NULL; formatting visits add more work.
    assert!(shape.work_units() > baseline.work_units() + 1);
    assert!(check_plan_shape(
        &cast,
        &limits.with_limit(Resource::WorkUnits, shape.work_units())
    )
    .is_ok());
    assert!(
        matches!(check_plan_shape(&cast, &limits.with_limit(Resource::WorkUnits, shape.work_units() - 1)), Err(PlanShapeError::ResourceExhausted(e)) if e.resource == Resource::WorkUnits)
    );
}

#[test]
fn plan_shape_rejects_nested_opaque_predicates_without_calling_them() {
    let op = Arc::new(NeverInvoke);
    let opaque = || {
        Expression::Predicate(Box::new(Predicate::Opaque(OpaquePredicate {
            op: op.clone(),
            exprs: vec![],
        })))
    };
    for expr in expression_wrappers(&opaque) {
        let expected = expression_rejection(&expr);
        assert_eq!(
            check_plan_shape(&expression_plan(expr), &TaskLimits::qualification()),
            Err(expected)
        );
    }
    assert_eq!(Arc::strong_count(&op), 1);
}

#[test]
fn literal_preflight_rejects_values_width_type_and_nullability_mismatches() {
    let one = || schema(vec![StructField::not_null("x", LONG)]);
    for row in [
        vec![],
        vec![Scalar::Long(1), Scalar::Long(2)],
        vec![Scalar::Integer(1)],
        vec![Scalar::Null(LONG)],
    ] {
        let plan = values_plan(one(), vec![row]);
        // Structural measurement remains independent of literal compatibility.
        check_plan_shape(&plan, &TaskLimits::qualification()).unwrap();
        assert_eq!(
            check_literal_plan(&plan, &TaskLimits::qualification()),
            Err(PlanShapeError::InvalidLiteral)
        );
    }
    let plan = values_plan(one(), vec![vec![Scalar::Long(1)]]);
    check_literal_plan(&plan, &TaskLimits::qualification()).unwrap();
}

#[test]
fn literal_preflight_rejects_deserialized_container_invariant_violations() {
    let array = |element: Scalar| {
        Scalar::Array(Box::new(ArrayData {
            array_type: ArrayType::new(LONG, false),
            elements: vec![element],
        }))
    };
    let map = |key: Scalar, value: Scalar| {
        Scalar::Mapping(Box::new(MapData {
            map_type: MapType::new(STRING, LONG, false),
            pairs: vec![MapPair { key, value }],
        }))
    };
    let structure = |values: Vec<Scalar>| {
        Scalar::Struct(StructData {
            fields: vec![StructField::not_null("x", LONG)],
            values,
        })
    };
    let key = || Scalar::String("k".to_string());
    for valid in [
        array(Scalar::Long(1)),
        map(key(), Scalar::Long(1)),
        structure(vec![Scalar::Long(1)]),
    ] {
        let plan = expression_plan(Expression::Literal(valid));
        check_literal_plan(&plan, &TaskLimits::qualification()).unwrap();
    }
    for malformed in [
        array(Scalar::Integer(1)),
        array(Scalar::Null(LONG)),
        structure(vec![Scalar::Integer(1)]),
        structure(vec![Scalar::Null(LONG)]),
        map(key(), Scalar::Integer(1)),
        map(key(), Scalar::Null(LONG)),
        map(Scalar::Null(STRING), Scalar::Long(1)),
        structure(vec![]),
    ] {
        let plan = expression_plan(Expression::Literal(malformed));
        assert_eq!(
            check_literal_plan(&plan, &TaskLimits::qualification()),
            Err(PlanShapeError::InvalidLiteral)
        );
    }
}

#[test]
fn literal_preflight_rejects_deserialized_decimal_precision_and_scale() {
    let decimal = |bits: i128, precision: u8, scale: u8| {
        expression_plan(Expression::Literal(Scalar::Decimal(DecimalData {
            bits,
            precision,
            scale,
        })))
    };
    for (precision, scale, bits) in [
        (0, 0, 0),
        (39, 0, 0),
        (3, 4, 1),
        (3, 0, 1000),
        (38, 0, i128::MIN),
    ] {
        assert_eq!(
            check_literal_plan(&decimal(bits, precision, scale), &TaskLimits::qualification()),
            Err(PlanShapeError::InvalidLiteral)
        );
    }
    check_literal_plan(&decimal(999, 3, 0), &TaskLimits::qualification()).unwrap();
}

#[test]
fn literal_preflight_checks_scan_constant_names_width_types_and_metadata() {
    for parquet in [false, true] {
        for (names, constants, valid) in [
            (vec!["x"], vec![Scalar::Long(1)], true),
            (vec!["x"], vec![], false),
            (vec!["missing"], vec![Scalar::Long(1)], false),
            (
                vec!["x", "x"],
                vec![Scalar::Long(1), Scalar::Long(2)],
                false,
            ),
            (vec!["row_index"], vec![Scalar::Long(1)], false),
            (vec!["x"], vec![Scalar::Integer(1)], false),
            (vec!["x"], vec![Scalar::Null(LONG)], false),
        ] {
            let has_metadata = names.as_slice() == ["row_index"];
            let mut row_index = StructField::not_null("row_index", LONG);
            if has_metadata {
                row_index.metadata.push(entry(
                    "delta.metadataSpec",
                    MetadataValue::String("row_index".to_string()),
                ));
            }
            let scan = FileScan {
                files: vec![file(constants)],
                file_constant_columns: names.into_iter().map(str::to_string).collect(),
                schema: schema(vec![StructField::not_null("x", LONG), row_index]),
            };
            let op = if parquet {
                Operator::ScanParquet(scan)
            } else {
                Operator::ScanJson(scan)
            };
            let plan = Plan {
                nodes: vec![node(op, vec![])],
            };
            let result = check_literal_plan(&plan, &TaskLimits::qualification());
            if valid {
                result.unwrap();
            } else {
                assert_eq!(
                    result,
                    Err(if has_metadata {
                        PlanShapeError::UnadmittedMap
                    } else {
                        PlanShapeError::InvalidLiteral
                    })
                );
            }
        }
    }
}

#[test]
fn literal_preflight_preserves_nested_field_order() {
    let a = || StructField::nullable("a", LONG);
    let b = || StructField::nullable("b", LONG);
    let expected = || structure(vec![a(), b()]);
    let outer = || schema(vec![StructField::nullable("s", expected())]);
    let pair = |fields: Vec<StructField>, first: i64, second: i64| {
        Scalar::Struct(StructData {
            fields,
            values: vec![Scalar::Long(first), Scalar::Long(second)],
        })
    };
    let ordered = pair(vec![a(), b()], 1, 2);
    let reversed = pair(vec![b(), a()], 2, 1);
    let changed = described(
        a(),
        vec![entry("tag", MetadataValue::String("changed".to_string()))],
    );
    let wrong_metadata = pair(vec![changed, b()], 1, 2);
    for (value, valid) in [(ordered, true), (reversed, false)] {
        let plan = values_plan(outer(), vec![vec![value]]);
        let result = check_literal_plan(&plan, &TaskLimits::qualification());
        if valid {
            result.unwrap();
        } else {
            assert_eq!(result, Err(PlanShapeError::InvalidLiteral));
        }
    }
    assert_unadmitted_map(&values_plan(outer(), vec![vec![wrong_metadata]]));
    // A typed null must obey nested ordering even inside an array descriptor.
    let reversed = array(structure(vec![b(), a()]), true);
    let plan = values_plan(
        schema(vec![StructField::nullable("a", array(expected(), true))]),
        vec![vec![Scalar::Null(reversed)]],
    );
    assert_eq!(
        check_literal_plan(&plan, &TaskLimits::qualification()),
        Err(PlanShapeError::InvalidLiteral)
    );
}

#[test]
fn literal_preflight_checks_tags_duplicates_and_comparison_work_boundaries() {
    let mut array = ArrayType::new(LONG, true);
    array.tag = "not-array".to_string();
    let mut map = MapType::new(STRING, LONG, true);
    map.tag = "not-map".to_string();
    for ty in [
        DataType::Array(Box::new(array)),
        DataType::Mapping(Box::new(map)),
    ] {
        let plan = expression_plan(Expression::Literal(Scalar::Null(ty)));
        assert_eq!(
            check_literal_plan(&plan, &TaskLimits::qualification()),
            Err(PlanShapeError::InvalidLiteral)
        );
    }
    let field = || StructField::nullable("same", LONG);
    let duplicate = Scalar::Struct(StructData {
        fields: vec![field(), field()],
        values: vec![Scalar::Long(1), Scalar::Long(2)],
    });
    assert_eq!(
        check_literal_plan(
            &expression_plan(Expression::Literal(duplicate)),
            &TaskLimits::qualification()
        ),
        Err(PlanShapeError::InvalidLiteral)
    );

    let literal = Scalar::Struct(StructData {
        fields: vec![StructField::nullable("x", STRING)],
        values: vec![Scalar::String("value".to_string())],
    });
    let plan = expression_plan(Expression::Literal(literal));
    let limits = TaskLimits::qualification();
    let shape = check_plan_shape(&plan, &limits).unwrap();
    let literals = check_literal_plan(&plan, &limits).unwrap();
    assert_eq!(
        (shape.nodes(), shape.depth(), shape.encoded_bytes()),
        (literals.nodes(), literals.depth(), literals.encoded_bytes())
    );
    assert!(literals.work_units() > shape.work_units());
    check_literal_plan(
        &plan,
        &limits.with_limit(Resource::WorkUnits, literals.work_units()),
    )
    .unwrap();
    assert!(
        matches!(check_literal_plan(&plan, &limits.with_limit(Resource::WorkUnits, literals.work_units() - 1)), Err(PlanShapeError::ResourceExhausted(e)) if e.resource == Resource::WorkUnits)
    );
}

#[test]
fn literal_preflight_does_not_scan_empty_reserved_metadata() {
    let mut extra = Vec::new();
    for reserve in [0, 8192] {
        let mut field = StructField::nullable("x", LONG);
        field.metadata.reserve(reserve);
        let capacity = field.metadata.capacity();
        let plan = Plan {
            nodes: vec![node(
                Operator::ScanJson(FileScan {
                    schema: schema(vec![field]),
                    file_constant_columns: vec!["x".to_string()],
                    files: vec![file(vec![Scalar::Long(1)])],
                }),
                vec![],
            )],
        };
        let limits = TaskLimits::qualification();
        let shape = check_plan_shape(&plan, &limits).unwrap();
        let literals = check_literal_plan(&plan, &limits).unwrap();
        check_literal_plan(
            &plan,
            &limits.with_limit(Resource::WorkUnits, literals.work_units()),
        )
        .unwrap();
        assert!(
            matches!(check_literal_plan(&plan, &limits.with_limit(Resource::WorkUnits, literals.work_units() - 1)), Err(PlanShapeError::ResourceExhausted(e)) if e.resource == Resource::WorkUnits)
        );
        extra.push((literals.work_units() - shape.work_units(), capacity));
    }
    assert_eq!(extra[1].0, extra[0].0);
    assert!(extra[1].1 > extra[0].1);
}

#[test]
fn literal_preflight_requires_producer_admission_for_nested_metadata() {
    let fields = |reversed: bool| -> Vec<StructField> {
        (0..32)
            .map(|i| {
                let mut metadata = vec![
                    entry(
                        "json",
                        MetadataValue::Other(JsonValue::Object(vec![
                            property(
                                "first",
                                JsonValue::Array(vec![
                                    JsonValue::Bool(true),
                                    JsonValue::Null,
                                    JsonValue::Object(vec![
                                        property("nested", JsonValue::String("value".to_string())),
                                        property("number", JsonValue::Number("1.25".to_string())),
                                    ]),
                                ]),
                            ),
                            property("second", one_two_three()),
                        ])),
                    ),
                    entry("tag", MetadataValue::String("kept".to_string())),
                ];
                if i == 0 {
                    for key in 0..64 {
                        metadata.push(entry(&format!("key{key}"), MetadataValue::Number(key)));
                    }
                }
                if reversed {
                    metadata.reverse();
                }
                described(StructField::nullable(&format!("f{i}"), LONG), metadata)
            })
            .collect()
    };
    let scalar = Scalar::Struct(StructData {
        fields: fields(true),
        values: (0..32).map(Scalar::Long).collect(),
    });
    let expected = schema(vec![StructField::nullable("s", structure(fields(false)))]);
    assert_unadmitted_map(&values_plan(expected, vec![vec![scalar]]));
}

#[test]
fn borrowed_plan_rejects_unadmitted_hash_maps_before_scanning() {
    let field = described(
        StructField::nullable("x", LONG),
        vec![entry("key", MetadataValue::Number(1))],
    );
    let metadata = values_plan(schema(vec![field]), vec![vec![Scalar::Long(1)]]);
    let patches = expression_plan(Expression::StructPatch(patch(vec![field_patch("x")])));
    for plan in [metadata, patches] {
        assert_unadmitted_map(&plan);
    }
}

#[test]
fn borrowed_plan_rejects_nested_unadmitted_metadata() {
    let nested = || {
        schema(vec![described(
            StructField::nullable("x", LONG),
            vec![entry("key", MetadataValue::Number(1))],
        )])
    };
    let nested_type = || DataType::Struct(Box::new(nested()));
    let expressions = [
        Expression::Literal(Scalar::Null(nested_type())),
        Expression::Literal(Scalar::Null(array(nested_type(), true))),
        Expression::Literal(Scalar::Null(map(STRING, nested_type(), true))),
        Expression::ParseJson(
            Box::new(Expression::Literal(Scalar::String("{}".to_string()))),
            nested(),
        ),
        Expression::Cast(Box::new(lit(1)), nested_type()),
    ];
    for expression in expressions {
        assert_unadmitted_map(&expression_plan(expression));
    }
}

#[test]
fn borrowed_plan_accepts_empty_maps_with_retained_backing_without_charging_it() {
    let plan = expression_plan(Expression::StructPatch(patch(Vec::with_capacity(8192))));
    let limits = TaskLimits::qualification();
    let shape = check_plan_shape(&plan, &limits).unwrap();
    let literal_shape = check_literal_plan(&plan, &limits).unwrap();
    assert_eq!(shape, literal_shape);
}

/// A list with room for many items, of which one is left.
fn sparse<T>(make: impl Fn(usize) -> T) -> Vec<T> {
    let mut items: Vec<T> = (0..1024).map(make).collect();
    items.truncate(1);
    assert!(items.capacity() >= 1024);
    items
}

#[test]
fn borrowed_plan_rejects_tombstone_metadata_without_scanning_or_lookup() {
    let metadata = sparse(|i| entry(&format!("collision-{i}"), MetadataValue::Number(1)));
    let field = described(StructField::nullable("x", LONG), metadata);
    assert_unadmitted_map(&values_plan(schema(vec![field]), vec![]));
}

#[test]
fn borrowed_plan_rejects_tombstone_field_patches_without_scanning() {
    let patches = sparse(|i| field_patch(&format!("collision-{i}")));
    assert_unadmitted_map(&expression_plan(Expression::StructPatch(patch(patches))));
}

#[test]
fn admitted_fixed_width_producer_preflights_metadata_and_allocations() {
    let text = MetadataValue::String("physical_value".to_string());
    let number = MetadataValue::Number(i64::MIN);
    let boolean = MetadataValue::Boolean(true);
    let metadata = [
        PlanMetadataEntry::new("physical", &text),
        PlanMetadataEntry::new("id", &number),
        PlanMetadataEntry::new("enabled", &boolean),
    ];
    let values = [i64::MIN, -1, i64::MAX];
    let limits = TaskLimits::qualification();
    let admitted = AdmittedPlan::try_i64_values("value", &metadata, &values, &limits).unwrap();

    assert_eq!(admitted.shape().nodes(), 1);
    assert_eq!(admitted.shape().depth(), 1);
    assert_eq!(admitted.metadata_entries(), metadata.len());
    assert!(admitted.retained_bytes() > 0);
    assert!(admitted.metadata_bytes() > 0);
    assert_eq!(admitted.field_metadata("physical"), Some(&text));
    assert_eq!(admitted.field_metadata("id"), Some(&number));
    assert_eq!(admitted.field_metadata("enabled"), Some(&boolean));
    assert_eq!(admitted.field_metadata("missing"), None);
    assert!(admitted.log_identity_manifest().is_none());

    let too_small = limits.with_limit(Resource::TaskStateBytes, admitted.retained_bytes() - 1);
    let result = AdmittedPlan::try_i64_values("value", &metadata, &values, &too_small);
    assert!(matches!(
        result,
        Err(PlanAdmissionError::ResourceExhausted(error))
            if error.resource == Resource::TaskStateBytes
    ));

    let metadata_too_small = limits.with_limit(
        Resource::MetadataAllocatedBytes,
        admitted.metadata_bytes() - 1,
    );
    let result = AdmittedPlan::try_i64_values("value", &metadata, &values, &metadata_too_small);
    assert!(matches!(
        result,
        Err(PlanAdmissionError::ResourceExhausted(error))
            if error.resource == Resource::MetadataAllocatedBytes
    ));

    for resource in [
        Resource::PlanNodes,
        Resource::PlanDepth,
        Resource::SchemaNodes,
        Resource::SchemaDepth,
        Resource::WorkUnits,
        Resource::PlanEncodedBytes,
        Resource::TaskStateBytes,
    ] {
        let zero = limits.with_limit(resource, 0);
        let result = AdmittedPlan::try_i64_values("value", &[], &values, &zero);
        assert!(matches!(
            result,
            Err(PlanAdmissionError::ResourceExhausted(error)) if error.resource == resource
        ));
    }

    let duplicate = [
        PlanMetadataEntry::new("id", &number),
        PlanMetadataEntry::new("id", &boolean),
    ];
    let result = AdmittedPlan::try_i64_values("value", &duplicate, &values, &limits);
    assert_eq!(result.err(), Some(PlanAdmissionError::DuplicateMetadata));

    let other = MetadataValue::Other(JsonValue::Object(vec![property("nested", one_two_three())]));
    let unsupported = [PlanMetadataEntry::new("other", &other)];
    let result = AdmittedPlan::try_i64_values("value", &unsupported, &values, &limits);
    assert_eq!(result.err(), Some(PlanAdmissionError::UnsupportedMetadata));

    let metadata_spec = MetadataValue::String("row_index".to_string());
    let reserved = [PlanMetadataEntry::new("delta.metadataSpec", &metadata_spec)];
    let result = AdmittedPlan::try_i64_values("value", &reserved, &values, &limits);
    assert_eq!(result.err(), Some(PlanAdmissionError::UnsupportedMetadata));

    let encoded_limit = limits.with_limit(
        Resource::PlanEncodedBytes,
        admitted.shape().encoded_bytes() - 1,
    );
    let result = AdmittedPlan::try_i64_values("value", &metadata, &values, &encoded_limit);
    assert!(matches!(
        result,
        Err(PlanAdmissionError::ResourceExhausted(error))
            if error.resource == Resource::PlanEncodedBytes
    ));

    let plan = admitted.into_plan();
    let Operator::Values(produced) = &plan.nodes[0].op else {
        panic!("expected Values source")
    };
    assert_eq!(produced.schema.fields[0].name, "value");
    assert_eq!(produced.rows.len(), 3);
    assert_eq!(produced.rows[0][0], Scalar::Long(i64::MIN));
    assert_eq!(produced.rows[2][0], Scalar::Long(i64::MAX));
}

#[test]
fn admitted_string_values_preflight_variable_width_storage() {
    let values = ["", "nul\0snow 雪", "tail"];
    let limits = TaskLimits::qualification();
    let admitted = AdmittedPlan::try_string_values("text", &[], &values, &limits).unwrap();
    let retained_bytes = admitted.retained_bytes();
    let shape = admitted.shape();
    let too_small = limits.with_limit(Resource::TaskStateBytes, retained_bytes - 1);
    let result = AdmittedPlan::try_string_values("text", &[], &values, &too_small);
    assert!(matches!(
        result,
        Err(PlanAdmissionError::ResourceExhausted(error))
            if error.resource == Resource::TaskStateBytes
    ));

    let encoded_limit = limits.with_limit(Resource::PlanEncodedBytes, shape.encoded_bytes() - 1);
    let result = AdmittedPlan::try_string_values("text", &[], &values, &encoded_limit);
    assert!(matches!(
        result,
        Err(PlanAdmissionError::ResourceExhausted(error))
            if error.resource == Resource::PlanEncodedBytes
    ));

    let plan = admitted.into_plan();
    let Operator::Values(values) = &plan.nodes[0].op else {
        panic!("expected Values source")
    };
    assert_eq!(values.schema.fields.len(), 1);
    let field = &values.schema.fields[0];
    assert_eq!(field.data_type, STRING);
    assert!(!field.nullable);
    assert_eq!(
        values.rows[1][0],
        Scalar::String("nul\0snow 雪".to_string())
    );
}
