//! Structural measurements of borrowed plans.
//!
//! What inspecting a plan costs is a sequence of steps, one for each charge, check and refusal in
//! the order of the traversal. Inspection runs the steps of its plan against the limits and stops
//! at the first that fails.

use crate::accounting::{Resource, TaskLimits};
use crate::bytes::{byte_len, utf8};
use crate::failure::ResourceExhausted;
use crate::inspection::{
    flat, flat_stops, run, within, PlanShapeError, Step, Tally, FIELD_BOUND,
    MAX_NESTING,
};
use crate::plan::{
    Agg, Aggregate, DynamicScan, Expression, FileScan, MapPair, Operator, Plan, PlanNode,
    Predicate, Scalar, ScanFile,
};
use crate::schema::{
    ArrayType, ColumnName, DataType, MapType, PrimitiveType, StructField, StructType,
};
use vstd::prelude::*;

verus! {

broadcast use crate::inspection::group_run;

/// Work is charged.
pub open spec fn work(amount: nat) -> Seq<Step> {
    seq![Step::Work(amount)]
}

/// Encoded bytes are charged.
pub open spec fn bytes(amount: nat) -> Seq<Step> {
    seq![Step::Bytes(amount)]
}

/// One wire field is charged.
pub open spec fn wire_field() -> Seq<Step> {
    bytes(FIELD_BOUND as nat)
}

/// The plan is refused.
pub open spec fn refuse(error: PlanShapeError) -> Seq<Step> {
    seq![Step::Refuse(error)]
}

/// The steps of entering a part at a nesting depth.
#[verifier::opaque]
pub open spec fn enter_steps(depth: nat) -> Seq<Step> {
    seq![Step::Nest(depth)] + work(1) + wire_field()
}

/// The steps of entering a schema part at a nesting depth.
#[verifier::opaque]
pub open spec fn schema_enter_steps(depth: nat) -> Seq<Step> {
    seq![Step::SchemaNode] + enter_steps(depth)
}

/// The steps of a text field.
#[verifier::opaque]
pub open spec fn text_steps(text: Seq<char>) -> Seq<Step> {
    wire_field() + bytes(utf8(text).len())
}

/// The steps of each text.
pub open spec fn each_text(texts: Seq<String>) -> spec_fn(int) -> Seq<Step> {
    |i: int| text_steps(texts[i]@)
}

/// The steps of a column.
#[verifier::opaque]
pub open spec fn column_steps(column: ColumnName) -> Seq<Step> {
    wire_field() + work(column.path@.len()) + flat(
        each_text(column.path@),
        column.path@.len(),
    )
}

/// The steps of each column.
pub open spec fn each_column(columns: Seq<ColumnName>) -> spec_fn(int) -> Seq<Step> {
    |i: int| column_steps(columns[i])
}

/// The steps of a primitive type.
#[verifier::opaque]
pub open spec fn primitive_steps(ty: PrimitiveType) -> Seq<Step> {
    match ty {
        PrimitiveType::Decimal { .. } => wire_field() + bytes(3 * FIELD_BOUND as nat),
        PrimitiveType::Geometry { crs } => wire_field() + wire_field()
            + text_steps(crs@),
        PrimitiveType::Geography { crs } => wire_field() + bytes(2 * FIELD_BOUND as nat)
            + text_steps(crs@),
        _ => wire_field() + wire_field(),
    }
}

/// The steps of a type.
pub open spec fn type_steps(ty: DataType, depth: nat) -> Seq<Step>
    decreases ty, 1nat,
{
    schema_enter_steps(depth) + type_body(ty, depth)
}

/// The steps of what a type consists of.
pub open spec fn type_body(ty: DataType, depth: nat) -> Seq<Step>
    decreases ty, 0nat,
{
    match ty {
        DataType::Primitive(p) => primitive_steps(p),
        DataType::Array(a) => array_steps(*a, depth),
        DataType::Mapping(m) => map_steps(*m, depth),
        DataType::Struct(s) => schema_steps(*s, depth + 1),
        DataType::Variant(s) => schema_steps(*s, depth + 1),
    }
}

/// The steps of a list type.
pub open spec fn array_steps(ty: ArrayType, depth: nat) -> Seq<Step>
    decreases ty, 0nat,
{
    schema_enter_steps(depth) + wire_field() + type_steps(
        ty.element_type,
        depth + 1,
    )
}

/// The steps of a map type.
pub open spec fn map_steps(ty: MapType, depth: nat) -> Seq<Step>
    decreases ty, 0nat,
{
    schema_enter_steps(depth) + wire_field() + type_steps(
        ty.key_type,
        depth + 1,
    ) + type_steps(ty.value_type, depth + 1)
}

/// The steps of a field. Metadata has no admitted owner and refuses the plan before it is read.
pub open spec fn field_steps(field: StructField, depth: nat) -> Seq<Step>
    decreases field, 0nat,
{
    schema_enter_steps(depth) + text_steps(field.name@) + type_steps(field.data_type, depth)
        + wire_field() + unless(
        field.metadata@.len() == 0,
        PlanShapeError::UnadmittedMap,
    )
}

/// A refusal, unless the condition holds.
pub open spec fn unless(holds: bool, error: PlanShapeError) -> Seq<Step> {
    if holds {
        Seq::empty()
    } else {
        refuse(error)
    }
}

/// The steps of each field.
pub open spec fn each_field(fields: Seq<StructField>, depth: nat) -> spec_fn(int) -> Seq<Step>
    decreases fields, 0nat,
{
    |i: int|
        if 0 <= i < fields.len() {
            field_steps(fields[i], depth)
        } else {
            Seq::empty()
        }
}

/// The steps of a schema.
pub open spec fn schema_steps(schema: StructType, depth: nat) -> Seq<Step>
    decreases schema, 0nat,
{
    schema_enter_steps(depth) + flat(
        each_field(schema.fields@, depth),
        schema.fields@.len(),
    )
}

/// The steps of a literal.
pub open spec fn scalar_steps(value: Scalar, depth: nat) -> Seq<Step>
    decreases value, 1nat,
{
    enter_steps(depth) + scalar_body(value, depth)
}

/// The steps of what a literal holds.
pub open spec fn scalar_body(value: Scalar, depth: nat) -> Seq<Step>
    decreases value, 0nat,
{
    match value {
        Scalar::String(s) => text_steps(s@),
        Scalar::Binary(b) => wire_field() + bytes(b@.len()),
        Scalar::Decimal(_) => bytes(5 * FIELD_BOUND as nat + 16),
        Scalar::Null(ty) => type_steps(ty, depth + 1),
        Scalar::Struct(s) => wire_field() + flat(
            each_field(s.fields@, depth + 1),
            s.fields@.len(),
        ) + flat(each_scalar(s.values@, depth + 1), s.values@.len()),
        Scalar::Array(a) => wire_field() + array_steps(a.array_type, depth + 1) + flat(
            each_scalar(a.elements@, depth + 1),
            a.elements@.len(),
        ),
        Scalar::Mapping(m) => wire_field() + map_steps(m.map_type, depth + 1) + flat(
            each_pair(m.pairs@, depth + 1),
            m.pairs@.len(),
        ),
        _ => wire_field(),
    }
}

/// The steps of each literal.
pub open spec fn each_scalar(values: Seq<Scalar>, depth: nat) -> spec_fn(int) -> Seq<Step>
    decreases values, 0nat,
{
    |i: int|
        if 0 <= i < values.len() {
            scalar_steps(values[i], depth)
        } else {
            Seq::empty()
        }
}

/// The steps of each entry of a map literal.
pub open spec fn each_pair(pairs: Seq<MapPair>, depth: nat) -> spec_fn(int) -> Seq<Step>
    decreases pairs, 0nat,
{
    |i: int|
        if 0 <= i < pairs.len() {
            wire_field() + scalar_steps(pairs[i].key, depth)
                + scalar_steps(pairs[i].value, depth)
        } else {
            Seq::empty()
        }
}

/// The steps of one formatting write.
#[verifier::opaque]
pub open spec fn write_steps(text: Seq<char>) -> Seq<Step> {
    work(1) + bytes(utf8(text).len())
}

/// The digits of a small number.
pub open spec fn digits(n: u8) -> nat {
    if n < 10 {
        1
    } else if n < 100 {
        2
    } else {
        3
    }
}

/// How a primitive type without parameters is displayed.
pub open spec fn primitive_text(ty: PrimitiveType) -> Seq<char> {
    match ty {
        PrimitiveType::String => "string"@,
        PrimitiveType::Long => "long"@,
        PrimitiveType::Integer => "integer"@,
        PrimitiveType::Short => "short"@,
        PrimitiveType::Byte => "byte"@,
        PrimitiveType::Float => "float"@,
        PrimitiveType::Double => "double"@,
        PrimitiveType::Boolean => "boolean"@,
        PrimitiveType::Binary => "binary"@,
        PrimitiveType::Date => "date"@,
        PrimitiveType::Timestamp => "timestamp"@,
        PrimitiveType::TimestampNtz => "timestamp_ntz"@,
        PrimitiveType::TimestampNanos => "timestamp_nanos"@,
        PrimitiveType::Void => "void"@,
        PrimitiveType::IntervalYearMonth => "interval year to month"@,
        PrimitiveType::IntervalDayTime => "interval day to second"@,
        PrimitiveType::Decimal { .. } => "decimal("@,
        PrimitiveType::Geometry { .. } => "geometry("@,
        PrimitiveType::Geography { .. } => "geography("@,
    }
}

/// The steps of displaying a type, write by write.
pub open spec fn display_steps(ty: DataType) -> Seq<Step>
    decreases ty, 1nat,
{
    display_body(ty)
}

/// The steps of the pieces of a type's display.
pub open spec fn display_body(ty: DataType) -> Seq<Step>
    decreases ty, 0nat,
{
    match ty {
        DataType::Primitive(p) => write_steps(primitive_text(p)) + match p {
            PrimitiveType::Decimal { precision, scale } => work(1) + bytes(digits(precision))
                + write_steps(","@) + work(1) + bytes(digits(scale)) + write_steps(")"@),
            PrimitiveType::Geometry { crs } => write_steps(crs@) + write_steps(")"@),
            PrimitiveType::Geography { crs } => write_steps(crs@) + write_steps(")"@),
            _ => Seq::empty(),
        },
        DataType::Array(a) => write_steps("array<"@) + display_steps(a.element_type) + write_steps(
            ">"@,
        ),
        DataType::Mapping(m) => write_steps("map<"@) + display_steps(m.key_type) + write_steps(
            ", "@,
        ) + display_steps(m.value_type) + write_steps(">"@),
        DataType::Struct(s) => write_steps("struct<"@) + flat(
            each_display(s.fields@),
            s.fields@.len(),
        ) + write_steps(">"@),
        DataType::Variant(_) => write_steps("variant"@),
    }
}

/// The steps of displaying each field.
pub open spec fn each_display(fields: Seq<StructField>) -> spec_fn(int) -> Seq<Step>
    decreases fields, 0nat,
{
    |i: int|
        if 0 <= i < fields.len() {
            (if i == 0 {
                Seq::empty()
            } else {
                write_steps(", "@)
            }) + write_steps(fields[i].name@) + write_steps(": "@) + display_steps(
                fields[i].data_type,
            )
        } else {
            Seq::empty()
        }
}

/// The steps of an expression.
pub open spec fn expression_steps(expr: Expression, depth: nat) -> Seq<Step>
    decreases expr, 1nat,
{
    enter_steps(depth) + expression_body(expr, depth)
}

/// The steps of an expression's parts.
pub open spec fn expression_body(expr: Expression, depth: nat) -> Seq<Step>
    decreases expr, 0nat,
{
    match expr {
        Expression::Opaque(_) => refuse(PlanShapeError::UnsupportedExpression),
        Expression::Unknown(_) => refuse(PlanShapeError::UnsupportedExpression),
        Expression::Literal(s) => scalar_steps(s, depth + 1),
        Expression::Column(c) => column_steps(c),
        Expression::Predicate(p) => predicate_steps(*p, depth + 1),
        Expression::Struct(exprs, nullability) => wire_field() + flat(
            each_expression(exprs@, depth + 1),
            exprs@.len(),
        ) + match nullability {
            Some(expr) => expression_steps(*expr, depth + 1),
            None => Seq::empty(),
        },
        Expression::StructPatch(patch) => wire_field() + (match patch.input_path {
            Some(path) => column_steps(path),
            None => Seq::empty(),
        }) + unless(patch.field_patches@.len() == 0, PlanShapeError::UnadmittedMap) + flat(
            each_expression(patch.prepended_fields@, depth + 1),
            patch.prepended_fields@.len(),
        ) + flat(
            each_expression(patch.appended_fields@, depth + 1),
            patch.appended_fields@.len(),
        ),
        Expression::Unary(_, expr) => bytes(2 * FIELD_BOUND as nat) + expression_steps(
            *expr,
            depth + 1,
        ),
        Expression::Binary(_, left, right) => bytes(2 * FIELD_BOUND as nat) + expression_steps(
            *left,
            depth + 1,
        ) + expression_steps(*right, depth + 1),
        Expression::Variadic(_, exprs) => bytes(2 * FIELD_BOUND as nat) + flat(
            each_expression(exprs@, depth + 1),
            exprs@.len(),
        ),
        Expression::ParseJson(expr, schema) => wire_field() + expression_steps(
            *expr,
            depth + 1,
        ) + schema_steps(schema, depth + 1),
        Expression::MapToStruct(expr) => wire_field() + expression_steps(
            *expr,
            depth + 1,
        ),
        Expression::Cast(expr, target) => expression_steps(*expr, depth + 1) + type_steps(
            target,
            depth + 1,
        ) + wire_field() + write_steps("cast_to_"@) + display_steps(target),
    }
}

/// The steps of each expression.
pub open spec fn each_expression(exprs: Seq<Expression>, depth: nat) -> spec_fn(int) -> Seq<Step>
    decreases exprs, 0nat,
{
    |i: int|
        if 0 <= i < exprs.len() {
            expression_steps(exprs[i], depth)
        } else {
            Seq::empty()
        }
}

/// The steps of a predicate.
pub open spec fn predicate_steps(predicate: Predicate, depth: nat) -> Seq<Step>
    decreases predicate, 1nat,
{
    enter_steps(depth) + predicate_body(predicate, depth)
}

/// The steps of a predicate's parts.
pub open spec fn predicate_body(predicate: Predicate, depth: nat) -> Seq<Step>
    decreases predicate, 0nat,
{
    match predicate {
        Predicate::Opaque(_) => refuse(PlanShapeError::UnsupportedExpression),
        Predicate::Unknown(_) => refuse(PlanShapeError::UnsupportedExpression),
        Predicate::BooleanExpression(expr) => expression_steps(expr, depth + 1),
        Predicate::Not(inner) => predicate_steps(*inner, depth + 1),
        Predicate::Unary(_, expr) => bytes(2 * FIELD_BOUND as nat) + expression_steps(
            *expr,
            depth + 1,
        ),
        Predicate::Binary(_, left, right) => bytes(2 * FIELD_BOUND as nat) + expression_steps(
            *left,
            depth + 1,
        ) + expression_steps(*right, depth + 1),
        Predicate::Junction(_, preds) => bytes(2 * FIELD_BOUND as nat) + flat(
            each_predicate(preds@, depth + 1),
            preds@.len(),
        ),
    }
}

/// The steps of each predicate.
pub open spec fn each_predicate(preds: Seq<Predicate>, depth: nat) -> spec_fn(int) -> Seq<Step>
    decreases preds, 0nat,
{
    |i: int|
        if 0 <= i < preds.len() {
            predicate_steps(preds[i], depth)
        } else {
            Seq::empty()
        }
}

/// The steps of each row of literals.
pub open spec fn each_row(rows: Seq<Vec<Scalar>>) -> spec_fn(int) -> Seq<Step> {
    |i: int| enter_steps(1) + flat(each_scalar(rows[i]@, 1), rows[i]@.len())
}

/// The steps of each scanned file.
pub open spec fn each_file(files: Seq<ScanFile>) -> spec_fn(int) -> Seq<Step> {
    |i: int|
        enter_steps(1) + bytes(3 * FIELD_BOUND as nat) + text_steps(
            files[i].meta.location@,
        ) + flat(each_scalar(files[i].file_constants@, 1), files[i].file_constants@.len())
}

/// The steps of a file scan.
#[verifier::opaque]
pub open spec fn scan_steps(scan: FileScan) -> Seq<Step> {
    schema_steps(scan.schema, 1) + work(scan.file_constant_columns@.len()) + flat(
        each_text(scan.file_constant_columns@),
        scan.file_constant_columns@.len(),
    ) + flat(each_file(scan.files@), scan.files@.len())
}

/// The steps of a dynamic scan.
#[verifier::opaque]
pub open spec fn dynamic_scan_steps(scan: DynamicScan) -> Seq<Step> {
    schema_steps(scan.schema, 1) + wire_field() + text_steps(
        scan.base_url@,
    ) + work(scan.file_constant_columns@.len()) + flat(
        each_text(scan.file_constant_columns@),
        scan.file_constant_columns@.len(),
    ) + column_steps(scan.path_column) + column_steps(scan.file_size_column) + column_steps(
        scan.last_modified_column,
    ) + column_steps(scan.dv_column)
}

/// The steps of an aggregate function.
#[verifier::opaque]
pub open spec fn agg_steps(agg: Agg) -> Seq<Step> {
    enter_steps(1) + wire_field() + match agg {
        Agg::Min(c) => column_steps(c),
        Agg::Max(c) => column_steps(c),
        Agg::Sum(c) => column_steps(c),
        Agg::Count(c) => column_steps(c),
        Agg::CountStar => Seq::empty(),
        Agg::MinNonNullBy(a) => column_steps(a.value) + column_steps(a.null_sentinel)
            + column_steps(a.key),
        Agg::MaxNonNullBy(a) => column_steps(a.value) + column_steps(a.null_sentinel)
            + column_steps(a.key),
    }
}

/// The steps of each aggregate function.
pub open spec fn each_agg(aggs: Seq<Agg>) -> spec_fn(int) -> Seq<Step> {
    |i: int| agg_steps(aggs[i])
}

/// The steps of an aggregation.
#[verifier::opaque]
pub open spec fn aggregate_steps(aggregate: Aggregate) -> Seq<Step> {
    schema_steps(aggregate.schema, 1) + work(aggregate.group_by@.len()) + flat(
        each_column(aggregate.group_by@),
        aggregate.group_by@.len(),
    ) + flat(each_agg(aggregate.aggs@), aggregate.aggs@.len())
}

/// The steps of an operator.
#[verifier::opaque]
pub open spec fn operator_steps(op: Operator) -> Seq<Step> {
    bytes(2 * FIELD_BOUND as nat) + match op {
        Operator::ScanParquet(scan) => scan_steps(scan),
        Operator::ScanJson(scan) => scan_steps(scan),
        Operator::Values(values) => schema_steps(values.schema, 1) + flat(
            each_row(values.rows@),
            values.rows@.len(),
        ),
        Operator::Project(project) => expression_steps(project.expr, 1) + schema_steps(
            project.schema,
            1,
        ),
        Operator::Filter(filter) => predicate_steps(filter.predicate, 1),
        Operator::DynamicScan(scan) => dynamic_scan_steps(scan),
        Operator::Aggregate(aggregate) => aggregate_steps(aggregate),
        Operator::SemiJoin(join) => wire_field() + work(join.probe_keys@.len()) + work(
            join.build_keys@.len(),
        ) + flat(each_column(join.probe_keys@), join.probe_keys@.len()) + flat(
            each_column(join.build_keys@),
            join.build_keys@.len(),
        ),
        Operator::UnionAll => Seq::empty(),
    }
}

/// Sources have no input, operators over one relation have one, semi joins two and unions any
/// number but none.
pub open spec fn arity_valid(node: PlanNode) -> bool {
    match node.op {
        Operator::ScanParquet(_) => node.inputs@.len() == 0,
        Operator::ScanJson(_) => node.inputs@.len() == 0,
        Operator::Values(_) => node.inputs@.len() == 0,
        Operator::SemiJoin(_) => node.inputs@.len() == 2,
        Operator::UnionAll => node.inputs@.len() > 0,
        _ => node.inputs@.len() == 1,
    }
}

/// The longest path that ends at a node, counted in nodes. Inputs that do not precede their node
/// count for nothing.
pub open spec fn node_depth(nodes: Seq<PlanNode>, index: nat) -> nat
    decreases index, 1nat, 0nat,
{
    1 + inputs_depth(nodes, index, nodes[index as int].inputs@.len())
}

/// The greatest depth among the first `n` inputs of a node.
pub open spec fn inputs_depth(nodes: Seq<PlanNode>, index: nat, n: nat) -> nat
    decreases index, 0nat, n,
{
    if n == 0 {
        0
    } else {
        let before = inputs_depth(nodes, index, (n - 1) as nat);
        let input = nodes[index as int].inputs@[n - 1];
        if input < index && node_depth(nodes, input as nat) > before {
            node_depth(nodes, input as nat)
        } else {
            before
        }
    }
}

/// The longest path through the first `n` nodes.
pub open spec fn topology_depth(nodes: Seq<PlanNode>, n: nat) -> nat
    decreases n,
{
    if n == 0 {
        0
    } else {
        let before = topology_depth(nodes, (n - 1) as nat);
        if node_depth(nodes, (n - 1) as nat) > before {
            node_depth(nodes, (n - 1) as nat)
        } else {
            before
        }
    }
}

proof fn inputs_are_the_deepest(nodes: Seq<PlanNode>, index: nat, n: nat)
    ensures
        forall|k: int|
            0 <= k < n && (#[trigger] nodes[index as int].inputs@[k]) < index ==> node_depth(
                nodes,
                nodes[index as int].inputs@[k] as nat,
            ) <= inputs_depth(nodes, index, n),
        inputs_depth(nodes, index, n) > 0 ==> exists|k: int|
            0 <= k < n && (#[trigger] nodes[index as int].inputs@[k]) < index && node_depth(
                nodes,
                nodes[index as int].inputs@[k] as nat,
            ) == inputs_depth(nodes, index, n),
    decreases n,
{
    if n > 0 {
        inputs_are_the_deepest(nodes, index, (n - 1) as nat);
    }
}

/// A node lies one deeper than the deepest of the inputs that precede it, and at one where there is
/// none.
pub proof fn nodes_lie_behind_their_inputs(nodes: Seq<PlanNode>, index: nat)
    ensures
        forall|k: int|
            0 <= k < nodes[index as int].inputs@.len() && (
            #[trigger] nodes[index as int].inputs@[k]) < index ==> node_depth(
                nodes,
                nodes[index as int].inputs@[k] as nat,
            ) < node_depth(nodes, index),
        node_depth(nodes, index) >= 1,
        node_depth(nodes, index) > 1 ==> exists|k: int|
            0 <= k < nodes[index as int].inputs@.len() && (
            #[trigger] nodes[index as int].inputs@[k]) < index && node_depth(nodes, index) == 1
                + node_depth(nodes, nodes[index as int].inputs@[k] as nat),
{
    inputs_are_the_deepest(nodes, index, nodes[index as int].inputs@.len());
}

/// A plan's depth is the greatest of its nodes' depths.
pub proof fn plans_are_as_deep_as_their_nodes(nodes: Seq<PlanNode>, n: nat)
    ensures
        forall|i: nat| i < n ==> #[trigger] node_depth(nodes, i) <= topology_depth(nodes, n),
        n > 0 ==> exists|i: nat|
            i < n && #[trigger] node_depth(nodes, i) == topology_depth(nodes, n),
    decreases n,
{
    if n > 0 {
        plans_are_as_deep_as_their_nodes(nodes, (n - 1) as nat);
        if n == 1 {
            assert(node_depth(nodes, 0) == topology_depth(nodes, 1)) by {
                reveal_with_fuel(topology_depth, 2);
            }
        }
    }
}

/// The steps of each input of a node.
pub open spec fn each_input(inputs: Seq<usize>, index: nat) -> spec_fn(int) -> Seq<Step> {
    |i: int|
        unless(
            inputs[i] < index && inputs[i] <= u32::MAX,
            PlanShapeError::InvalidInput { node: index as usize },
        ) + bytes(5)
}

/// The steps of a node's place in the plan.
#[verifier::opaque]
pub open spec fn topology_steps(nodes: Seq<PlanNode>, index: nat) -> Seq<Step> {
    let node = nodes[index as int];
    enter_steps(1) + unless(
        arity_valid(node),
        PlanShapeError::InvalidArity { node: index as usize },
    ) + work(node.inputs@.len()) + wire_field() + flat(
        each_input(node.inputs@, index),
        node.inputs@.len(),
    ) + seq![Step::Depth(node_depth(nodes, index))]
}

/// The steps of each node.
pub open spec fn each_node(nodes: Seq<PlanNode>) -> spec_fn(int) -> Seq<Step> {
    |i: int| topology_steps(nodes, i as nat) + operator_steps(nodes[i].op)
}

/// The steps of a plan.
pub open spec fn plan_steps(nodes: Seq<PlanNode>) -> Seq<Step> {
    wire_field() + flat(each_node(nodes), nodes.len())
}

/// An inspection in progress.
pub struct Walk<'a> {
    /// The allowances.
    pub limits: &'a TaskLimits,
    /// What was counted so far.
    pub tally: Tally,
}

/// The steps of a literal follow those of the literals before it.
proof fn scalars_follow(values: Seq<Scalar>, depth: nat, i: nat)
    requires
        i < values.len(),
    ensures
        flat(each_scalar(values, depth), i + 1) == flat(each_scalar(values, depth), i)
            + scalar_steps(values[i as int], depth),
{
}

/// The steps of a pair follow those of the pairs before it.
proof fn pairs_follow(pairs: Seq<MapPair>, depth: nat, i: nat)
    requires
        i < pairs.len(),
    ensures
        flat(each_pair(pairs, depth), i + 1) == flat(each_pair(pairs, depth), i) + (wire_field()
            + scalar_steps(pairs[i as int].key, depth) + scalar_steps(
            pairs[i as int].value,
            depth,
        )),
{
}

impl<'a> Walk<'a> {
    /// The steps were run from `before` with the result `r`.
    pub open spec fn walked(
        self,
        before: Walk<'a>,
        steps: Seq<Step>,
        r: Result<(), PlanShapeError>,
    ) -> bool {
        &&& self.limits == before.limits
        &&& match run(*before.limits, before.tally, steps) {
            Ok(tally) => r == Ok::<(), PlanShapeError>(()) && self.tally == tally,
            Err(error) => r == Err::<(), PlanShapeError>(error),
        }
    }

    /// The steps were run from `before` without a failure.
    pub open spec fn passed(self, before: Walk<'a>, steps: Seq<Step>) -> bool {
        &&& self.limits == before.limits
        &&& run(*before.limits, before.tally, steps) == Ok::<Tally, PlanShapeError>(self.tally)
    }

    fn total(&self, resource: Resource, count: usize, amount: usize) -> (r: Result<
        usize,
        PlanShapeError,
    >)
        ensures
            r == within(*self.limits, resource, count as nat + amount as nat),
    {
        let limit: usize = self.limits.limit(resource);
        match count.checked_add(amount) {
            Some(total) => if total > limit {
                Err(
                    PlanShapeError::ResourceExhausted(
                        ResourceExhausted { resource, limit, observed: total },
                    ),
                )
            } else {
                Ok(total)
            },
            None => Err(
                PlanShapeError::ResourceExhausted(
                    ResourceExhausted { resource, limit, observed: usize::MAX },
                ),
            ),
        }
    }

    /// Charges work.
    pub fn work(&mut self, amount: usize) -> (r: Result<(), PlanShapeError>)
        ensures
            final(self).walked(*old(self), work(amount as nat), r),
    {
        let total: usize = self.total(Resource::WorkUnits, self.tally.work, amount)?;
        self.tally.work = total;
        Ok(())
    }

    /// Charges encoded bytes.
    pub fn add(&mut self, amount: usize) -> (r: Result<(), PlanShapeError>)
        ensures
            final(self).walked(*old(self), bytes(amount as nat), r),
    {
        let total: usize = self.total(Resource::PlanEncodedBytes, self.tally.encoded, amount)?;
        self.tally.encoded = total;
        Ok(())
    }

    fn check_depth(&mut self, depth: usize) -> (r: Result<(), PlanShapeError>)
        ensures
            final(self).walked(*old(self), seq![Step::Depth(depth as nat)], r),
    {
        self.total(Resource::PlanDepth, 0, depth)?;
        Ok(())
    }

    /// Enters a part at a nesting depth.
    pub fn enter(&mut self, depth: usize) -> (r: Result<(), PlanShapeError>)
        ensures
            final(self).walked(*old(self), enter_steps(depth as nat), r),
            r is Ok ==> depth <= MAX_NESTING,
    {
        proof {
            reveal(enter_steps);
        }
        let allowed: usize = self.limits.limit(Resource::SchemaDepth);
        let limit: usize = if allowed < MAX_NESTING {
            allowed
        } else {
            MAX_NESTING
        };
        if depth > limit {
            return Err(
                PlanShapeError::ResourceExhausted(
                    ResourceExhausted { resource: Resource::SchemaDepth, limit, observed: depth },
                ),
            );
        }
        self.work(1)?;
        self.add(FIELD_BOUND)
    }

    /// Enters a schema part at a nesting depth.
    pub fn schema_enter(&mut self, depth: usize) -> (r: Result<(), PlanShapeError>)
        ensures
            final(self).walked(*old(self), schema_enter_steps(depth as nat), r),
            r is Ok ==> depth <= MAX_NESTING,
    {
        proof {
            reveal(schema_enter_steps);
        }
        let total: usize = self.total(Resource::SchemaNodes, self.tally.schema_nodes, 1)?;
        self.tally.schema_nodes = total;
        self.enter(depth)
    }

    fn string(&mut self, value: &str) -> (r: Result<(), PlanShapeError>)
        ensures
            final(self).walked(*old(self), text_steps(value@), r),
    {
        proof {
            reveal(text_steps);
        }
        self.add(FIELD_BOUND)?;
        self.add(byte_len(value))
    }

    fn strings(&mut self, values: &Vec<String>) -> (r: Result<(), PlanShapeError>)
        ensures
            final(self).walked(*old(self), flat(each_text(values@), values@.len()), r),
    {
        let mut i: usize = 0;
        while i < values.len()
            invariant
                i <= values@.len(),
                self.passed(*old(self), flat(each_text(values@), i as nat)),
            decreases values@.len() - i,
        {
            let r = self.string(values[i].as_str());
            proof {
                flat_stops(
                    *old(self).limits,
                    old(self).tally,
                    each_text(values@),
                    (i + 1) as nat,
                    values@.len(),
                );
            }
            r?;
            i += 1;
        }
        Ok(())
    }

    fn column(&mut self, value: &ColumnName) -> (r: Result<(), PlanShapeError>)
        ensures
            final(self).walked(*old(self), column_steps(*value), r),
    {
        proof {
            reveal(column_steps);
        }
        self.add(FIELD_BOUND)?;
        self.work(value.path.len())?;
        self.strings(&value.path)
    }

    fn columns(&mut self, columns: &Vec<ColumnName>) -> (r: Result<(), PlanShapeError>)
        ensures
            final(self).walked(*old(self), flat(each_column(columns@), columns@.len()), r),
    {
        let mut i: usize = 0;
        while i < columns.len()
            invariant
                i <= columns@.len(),
                self.passed(*old(self), flat(each_column(columns@), i as nat)),
            decreases columns@.len() - i,
        {
            let r = self.column(&columns[i]);
            proof {
                flat_stops(
                    *old(self).limits,
                    old(self).tally,
                    each_column(columns@),
                    (i + 1) as nat,
                    columns@.len(),
                );
            }
            r?;
            i += 1;
        }
        Ok(())
    }

    fn fields(&mut self, fields: &Vec<StructField>, depth: usize) -> (r: Result<(), PlanShapeError>)
        ensures
            final(self).walked(*old(self), flat(each_field(fields@, depth as nat), fields@.len()), r),
        decreases fields, 0nat,
    {
        let mut i: usize = 0;
        while i < fields.len()
            invariant
                i <= fields@.len(),
                self.passed(*old(self), flat(each_field(fields@, depth as nat), i as nat)),
            decreases fields@.len() - i,
        {
            let r = self.field(&fields[i], depth);
            proof {
                flat_stops(
                    *old(self).limits,
                    old(self).tally,
                    each_field(fields@, depth as nat),
                    (i + 1) as nat,
                    fields@.len(),
                );
            }
            r?;
            i += 1;
        }
        Ok(())
    }

    fn schema(&mut self, schema: &StructType, depth: usize) -> (r: Result<(), PlanShapeError>)
        ensures
            final(self).walked(*old(self), schema_steps(*schema, depth as nat), r),
        decreases schema, 0nat,
    {
        self.schema_enter(depth)?;
        self.fields(&schema.fields, depth)
    }

    fn field(&mut self, field: &StructField, depth: usize) -> (r: Result<(), PlanShapeError>)
        ensures
            final(self).walked(*old(self), field_steps(*field, depth as nat), r),
        decreases field, 0nat,
    {
        self.schema_enter(depth)?;
        self.string(field.name.as_str())?;
        self.data_type(&field.data_type, depth)?;
        self.add(FIELD_BOUND)?;
        if field.metadata.len() > 0 {
            return Err(PlanShapeError::UnadmittedMap);
        }
        Ok(())
    }

    fn data_type(&mut self, ty: &DataType, depth: usize) -> (r: Result<(), PlanShapeError>)
        ensures
            final(self).walked(*old(self), type_steps(*ty, depth as nat), r),
        decreases ty, 1nat,
    {
        self.schema_enter(depth)?;
        self.data_type_parts(ty, depth)
    }

    fn data_type_parts(&mut self, ty: &DataType, depth: usize) -> (r: Result<(), PlanShapeError>)
        requires
            depth <= MAX_NESTING,
        ensures
            final(self).walked(*old(self), type_body(*ty, depth as nat), r),
        decreases ty, 0nat,
    {
        match ty {
            DataType::Primitive(p) => self.primitive(p),
            DataType::Array(a) => self.array_type(a, depth),
            DataType::Mapping(m) => self.map_type(m, depth),
            DataType::Struct(s) => self.schema(s, depth + 1),
            DataType::Variant(s) => self.schema(s, depth + 1),
        }
    }

    fn primitive(&mut self, ty: &PrimitiveType) -> (r: Result<(), PlanShapeError>)
        ensures
            final(self).walked(*old(self), primitive_steps(*ty), r),
    {
        proof {
            reveal(primitive_steps);
        }
        self.add(FIELD_BOUND)?;
        match ty {
            PrimitiveType::Decimal { .. } => self.add(3 * FIELD_BOUND),
            PrimitiveType::Geometry { crs } => {
                self.add(FIELD_BOUND)?;
                self.string(crs.as_str())
            },
            PrimitiveType::Geography { crs } => {
                self.add(2 * FIELD_BOUND)?;
                self.string(crs.as_str())
            },
            _ => self.add(FIELD_BOUND),
        }
    }

    fn array_type(&mut self, ty: &ArrayType, depth: usize) -> (r: Result<(), PlanShapeError>)
        ensures
            final(self).walked(*old(self), array_steps(*ty, depth as nat), r),
        decreases ty, 0nat,
    {
        self.schema_enter(depth)?;
        self.add(FIELD_BOUND)?;
        self.data_type(&ty.element_type, depth + 1)
    }

    fn map_type(&mut self, ty: &MapType, depth: usize) -> (r: Result<(), PlanShapeError>)
        ensures
            final(self).walked(*old(self), map_steps(*ty, depth as nat), r),
        decreases ty, 0nat,
    {
        self.schema_enter(depth)?;
        self.add(FIELD_BOUND)?;
        self.data_type(&ty.key_type, depth + 1)?;
        self.data_type(&ty.value_type, depth + 1)
    }

    fn scalars(&mut self, values: &Vec<Scalar>, depth: usize) -> (r: Result<(), PlanShapeError>)
        ensures
            final(self).walked(*old(self), flat(each_scalar(values@, depth as nat), values@.len()), r),
        decreases values, 0nat,
    {
        let mut i: usize = 0;
        while i < values.len()
            invariant
                i <= values@.len(),
                self.passed(*old(self), flat(each_scalar(values@, depth as nat), i as nat)),
            decreases values@.len() - i,
        {
            let r = self.scalar(&values[i], depth);
            proof {
                scalars_follow(values@, depth as nat, i as nat);
                flat_stops(
                    *old(self).limits,
                    old(self).tally,
                    each_scalar(values@, depth as nat),
                    (i + 1) as nat,
                    values@.len(),
                );
            }
            match r {
                Ok(()) => {},
                Err(error) => return Err(error),
            }
            i += 1;
        }
        Ok(())
    }

    fn pairs(&mut self, pairs: &Vec<MapPair>, depth: usize) -> (r: Result<(), PlanShapeError>)
        ensures
            final(self).walked(*old(self), flat(each_pair(pairs@, depth as nat), pairs@.len()), r),
        decreases pairs, 0nat,
    {
        let mut i: usize = 0;
        while i < pairs.len()
            invariant
                i <= pairs@.len(),
                self.passed(*old(self), flat(each_pair(pairs@, depth as nat), i as nat)),
            decreases pairs@.len() - i,
        {
            let r = self.pair(&pairs[i], depth);
            proof {
                pairs_follow(pairs@, depth as nat, i as nat);
                flat_stops(
                    *old(self).limits,
                    old(self).tally,
                    each_pair(pairs@, depth as nat),
                    (i + 1) as nat,
                    pairs@.len(),
                );
            }
            match r {
                Ok(()) => {},
                Err(error) => return Err(error),
            }
            i += 1;
        }
        Ok(())
    }

    fn pair(&mut self, pair: &MapPair, depth: usize) -> (r: Result<(), PlanShapeError>)
        ensures
            final(self).walked(
                *old(self),
                wire_field() + scalar_steps(pair.key, depth as nat)
                    + scalar_steps(pair.value, depth as nat),
                r,
            ),
        decreases pair, 0nat,
    {
        self.add(FIELD_BOUND)?;
        self.scalar(&pair.key, depth)?;
        self.scalar(&pair.value, depth)
    }

    fn scalar(&mut self, value: &Scalar, depth: usize) -> (r: Result<(), PlanShapeError>)
        ensures
            final(self).walked(*old(self), scalar_steps(*value, depth as nat), r),
        decreases value, 1nat,
    {
        self.enter(depth)?;
        self.scalar_parts(value, depth)
    }

    #[verifier::spinoff_prover]
    #[verifier::rlimit(40)]
    fn scalar_parts(&mut self, value: &Scalar, depth: usize) -> (r: Result<(), PlanShapeError>)
        requires
            depth <= MAX_NESTING,
        ensures
            final(self).walked(*old(self), scalar_body(*value, depth as nat), r),
        decreases value, 0nat,
    {
        match value {
            Scalar::String(s) => self.string(s.as_str()),
            Scalar::Binary(b) => {
                self.add(FIELD_BOUND)?;
                self.add(b.len())
            },
            Scalar::Decimal(_) => self.add(5 * FIELD_BOUND + 16),
            Scalar::Null(ty) => self.data_type(ty, depth + 1),
            Scalar::Struct(s) => {
                self.add(FIELD_BOUND)?;
                self.fields(&s.fields, depth + 1)?;
                self.scalars(&s.values, depth + 1)
            },
            Scalar::Array(a) => {
                self.add(FIELD_BOUND)?;
                self.array_type(&a.array_type, depth + 1)?;
                self.scalars(&a.elements, depth + 1)
            },
            Scalar::Mapping(m) => {
                self.add(FIELD_BOUND)?;
                self.map_type(&m.map_type, depth + 1)?;
                self.pairs(&m.pairs, depth + 1)
            },
            _ => self.add(FIELD_BOUND),
        }
    }

    fn write(&mut self, text: &str) -> (r: Result<(), PlanShapeError>)
        ensures
            final(self).walked(*old(self), write_steps(text@), r),
    {
        proof {
            reveal(write_steps);
        }
        self.work(1)?;
        self.add(byte_len(text))
    }

    fn write_number(&mut self, n: u8) -> (r: Result<(), PlanShapeError>)
        ensures
            final(self).walked(*old(self), work(1) + bytes(digits(n)), r),
    {
        self.work(1)?;
        if n < 10 {
            self.add(1)
        } else if n < 100 {
            self.add(2)
        } else {
            self.add(3)
        }
    }

    fn display_primitive(&mut self, ty: &PrimitiveType) -> (r: Result<(), PlanShapeError>)
        ensures
            final(self).walked(*old(self), display_body(DataType::Primitive(*ty)), r),
    {
        self.write(primitive_name(ty))?;
        match ty {
            PrimitiveType::Decimal { precision, scale } => {
                self.write_number(*precision)?;
                self.write(",")?;
                self.write_number(*scale)?;
                self.write(")")
            },
            PrimitiveType::Geometry { crs } => {
                self.write(crs.as_str())?;
                self.write(")")
            },
            PrimitiveType::Geography { crs } => {
                self.write(crs.as_str())?;
                self.write(")")
            },
            _ => Ok(()),
        }
    }

    fn display(&mut self, ty: &DataType) -> (r: Result<(), PlanShapeError>)
        ensures
            final(self).walked(*old(self), display_steps(*ty), r),
        decreases ty, 1nat,
    {
        self.display_parts(ty)
    }

    fn display_parts(&mut self, ty: &DataType) -> (r: Result<(), PlanShapeError>)
        ensures
            final(self).walked(*old(self), display_body(*ty), r),
        decreases ty, 0nat,
    {
        match ty {
            DataType::Primitive(p) => self.display_primitive(p),
            DataType::Array(a) => {
                self.write("array<")?;
                self.display(&a.element_type)?;
                self.write(">")
            },
            DataType::Mapping(m) => {
                self.write("map<")?;
                self.display(&m.key_type)?;
                self.write(", ")?;
                self.display(&m.value_type)?;
                self.write(">")
            },
            DataType::Struct(s) => {
                self.write("struct<")?;
                self.display_fields(&s.fields)?;
                self.write(">")
            },
            DataType::Variant(_) => self.write("variant"),
        }
    }

    fn display_fields(&mut self, fields: &Vec<StructField>) -> (r: Result<(), PlanShapeError>)
        ensures
            final(self).walked(*old(self), flat(each_display(fields@), fields@.len()), r),
        decreases fields, 0nat,
    {
        let mut i: usize = 0;
        while i < fields.len()
            invariant
                i <= fields@.len(),
                self.passed(*old(self), flat(each_display(fields@), i as nat)),
            decreases fields@.len() - i,
        {
            let r = self.display_field(i > 0, &fields[i]);
            proof {
                flat_stops(
                    *old(self).limits,
                    old(self).tally,
                    each_display(fields@),
                    (i + 1) as nat,
                    fields@.len(),
                );
            }
            r?;
            i += 1;
        }
        Ok(())
    }

    fn display_field(&mut self, separated: bool, field: &StructField) -> (r: Result<
        (),
        PlanShapeError,
    >)
        ensures
            final(self).walked(
                *old(self),
                (if !separated {
                    Seq::empty()
                } else {
                    write_steps(", "@)
                }) + write_steps(field.name@) + write_steps(": "@) + display_steps(field.data_type),
                r,
            ),
        decreases field, 0nat,
    {
        if separated {
            self.write(", ")?;
        }
        self.write(field.name.as_str())?;
        self.write(": ")?;
        self.display(&field.data_type)
    }

    fn expressions(&mut self, exprs: &Vec<Expression>, depth: usize) -> (r: Result<(), PlanShapeError>)
        ensures
            final(self).walked(*old(self), flat(each_expression(exprs@, depth as nat), exprs@.len()), r),
        decreases exprs, 0nat,
    {
        let mut i: usize = 0;
        while i < exprs.len()
            invariant
                i <= exprs@.len(),
                self.passed(*old(self), flat(each_expression(exprs@, depth as nat), i as nat)),
            decreases exprs@.len() - i,
        {
            let r = self.expression(&exprs[i], depth);
            proof {
                flat_stops(
                    *old(self).limits,
                    old(self).tally,
                    each_expression(exprs@, depth as nat),
                    (i + 1) as nat,
                    exprs@.len(),
                );
            }
            r?;
            i += 1;
        }
        Ok(())
    }

    fn predicates(&mut self, preds: &Vec<Predicate>, depth: usize) -> (r: Result<(), PlanShapeError>)
        ensures
            final(self).walked(*old(self), flat(each_predicate(preds@, depth as nat), preds@.len()), r),
        decreases preds, 0nat,
    {
        let mut i: usize = 0;
        while i < preds.len()
            invariant
                i <= preds@.len(),
                self.passed(*old(self), flat(each_predicate(preds@, depth as nat), i as nat)),
            decreases preds@.len() - i,
        {
            let r = self.predicate(&preds[i], depth);
            proof {
                flat_stops(
                    *old(self).limits,
                    old(self).tally,
                    each_predicate(preds@, depth as nat),
                    (i + 1) as nat,
                    preds@.len(),
                );
            }
            r?;
            i += 1;
        }
        Ok(())
    }

    fn expression(&mut self, expr: &Expression, depth: usize) -> (r: Result<(), PlanShapeError>)
        ensures
            final(self).walked(*old(self), expression_steps(*expr, depth as nat), r),
        decreases expr, 1nat,
    {
        self.enter(depth)?;
        self.expression_parts(expr, depth)
    }

    fn expression_parts(&mut self, expr: &Expression, depth: usize) -> (r: Result<(), PlanShapeError>)
        requires
            depth <= MAX_NESTING,
        ensures
            final(self).walked(*old(self), expression_body(*expr, depth as nat), r),
        decreases expr, 0nat,
    {
        match expr {
            Expression::Opaque(_) => Err(PlanShapeError::UnsupportedExpression),
            Expression::Unknown(_) => Err(PlanShapeError::UnsupportedExpression),
            Expression::Literal(s) => self.scalar(s, depth + 1),
            Expression::Column(c) => self.column(c),
            Expression::Predicate(p) => self.predicate(p, depth + 1),
            Expression::Struct(exprs, nullability) => {
                self.add(FIELD_BOUND)?;
                self.expressions(exprs, depth + 1)?;
                match nullability {
                    Some(expr) => self.expression(expr, depth + 1),
                    None => Ok(()),
                }
            },
            Expression::StructPatch(patch) => {
                self.add(FIELD_BOUND)?;
                if let Some(path) = &patch.input_path {
                    self.column(path)?;
                }
                if patch.field_patches.len() > 0 {
                    return Err(PlanShapeError::UnadmittedMap);
                }
                self.expressions(&patch.prepended_fields, depth + 1)?;
                self.expressions(&patch.appended_fields, depth + 1)
            },
            Expression::Unary(_, expr) => {
                self.add(2 * FIELD_BOUND)?;
                self.expression(expr, depth + 1)
            },
            Expression::Binary(_, left, right) => {
                self.add(2 * FIELD_BOUND)?;
                self.expression(left, depth + 1)?;
                self.expression(right, depth + 1)
            },
            Expression::Variadic(_, exprs) => {
                self.add(2 * FIELD_BOUND)?;
                self.expressions(exprs, depth + 1)
            },
            Expression::ParseJson(expr, schema) => {
                self.add(FIELD_BOUND)?;
                self.expression(expr, depth + 1)?;
                self.schema(schema, depth + 1)
            },
            Expression::MapToStruct(expr) => {
                self.add(FIELD_BOUND)?;
                self.expression(expr, depth + 1)
            },
            Expression::Cast(expr, target) => {
                self.expression(expr, depth + 1)?;
                self.data_type(target, depth + 1)?;
                self.add(FIELD_BOUND)?;
                self.write("cast_to_")?;
                self.display(target)
            },
        }
    }

    fn predicate(&mut self, predicate: &Predicate, depth: usize) -> (r: Result<(), PlanShapeError>)
        ensures
            final(self).walked(*old(self), predicate_steps(*predicate, depth as nat), r),
        decreases predicate, 1nat,
    {
        self.enter(depth)?;
        self.predicate_parts(predicate, depth)
    }

    fn predicate_parts(&mut self, predicate: &Predicate, depth: usize) -> (r: Result<(), PlanShapeError>)
        requires
            depth <= MAX_NESTING,
        ensures
            final(self).walked(*old(self), predicate_body(*predicate, depth as nat), r),
        decreases predicate, 0nat,
    {
        match predicate {
            Predicate::Opaque(_) => Err(PlanShapeError::UnsupportedExpression),
            Predicate::Unknown(_) => Err(PlanShapeError::UnsupportedExpression),
            Predicate::BooleanExpression(expr) => self.expression(expr, depth + 1),
            Predicate::Not(inner) => self.predicate(inner, depth + 1),
            Predicate::Unary(_, expr) => {
                self.add(2 * FIELD_BOUND)?;
                self.expression(expr, depth + 1)
            },
            Predicate::Binary(_, left, right) => {
                self.add(2 * FIELD_BOUND)?;
                self.expression(left, depth + 1)?;
                self.expression(right, depth + 1)
            },
            Predicate::Junction(_, preds) => {
                self.add(2 * FIELD_BOUND)?;
                self.predicates(preds, depth + 1)
            },
        }
    }

    fn row(&mut self, row: &Vec<Scalar>) -> (r: Result<(), PlanShapeError>)
        ensures
            final(self).walked(
                *old(self),
                enter_steps(1) + flat(each_scalar(row@, 1), row@.len()),
                r,
            ),
    {
        self.enter(1)?;
        self.scalars(row, 1)
    }

    fn rows(&mut self, rows: &Vec<Vec<Scalar>>) -> (r: Result<(), PlanShapeError>)
        ensures
            final(self).walked(*old(self), flat(each_row(rows@), rows@.len()), r),
    {
        let mut i: usize = 0;
        while i < rows.len()
            invariant
                i <= rows@.len(),
                self.passed(*old(self), flat(each_row(rows@), i as nat)),
            decreases rows@.len() - i,
        {
            let r = self.row(&rows[i]);
            proof {
                flat_stops(
                    *old(self).limits,
                    old(self).tally,
                    each_row(rows@),
                    (i + 1) as nat,
                    rows@.len(),
                );
            }
            r?;
            i += 1;
        }
        Ok(())
    }

    fn file(&mut self, file: &ScanFile) -> (r: Result<(), PlanShapeError>)
        ensures
            final(self).walked(
                *old(self),
                enter_steps(1) + bytes(3 * FIELD_BOUND as nat) + text_steps(
                    file.meta.location@,
                ) + flat(each_scalar(file.file_constants@, 1), file.file_constants@.len()),
                r,
            ),
    {
        self.enter(1)?;
        self.add(3 * FIELD_BOUND)?;
        self.string(file.meta.location.as_str())?;
        self.scalars(&file.file_constants, 1)
    }

    fn files(&mut self, files: &Vec<ScanFile>) -> (r: Result<(), PlanShapeError>)
        ensures
            final(self).walked(*old(self), flat(each_file(files@), files@.len()), r),
    {
        let mut i: usize = 0;
        while i < files.len()
            invariant
                i <= files@.len(),
                self.passed(*old(self), flat(each_file(files@), i as nat)),
            decreases files@.len() - i,
        {
            let r = self.file(&files[i]);
            proof {
                flat_stops(
                    *old(self).limits,
                    old(self).tally,
                    each_file(files@),
                    (i + 1) as nat,
                    files@.len(),
                );
            }
            r?;
            i += 1;
        }
        Ok(())
    }

    fn scan(&mut self, scan: &FileScan) -> (r: Result<(), PlanShapeError>)
        ensures
            final(self).walked(*old(self), scan_steps(*scan), r),
    {
        proof {
            reveal(scan_steps);
        }
        self.schema(&scan.schema, 1)?;
        self.work(scan.file_constant_columns.len())?;
        self.strings(&scan.file_constant_columns)?;
        self.files(&scan.files)
    }

    fn dynamic_scan(&mut self, scan: &DynamicScan) -> (r: Result<(), PlanShapeError>)
        ensures
            final(self).walked(*old(self), dynamic_scan_steps(*scan), r),
    {
        proof {
            reveal(dynamic_scan_steps);
        }
        self.schema(&scan.schema, 1)?;
        self.add(FIELD_BOUND)?;
        self.string(scan.base_url.as_str())?;
        self.work(scan.file_constant_columns.len())?;
        self.strings(&scan.file_constant_columns)?;
        self.column(&scan.path_column)?;
        self.column(&scan.file_size_column)?;
        self.column(&scan.last_modified_column)?;
        self.column(&scan.dv_column)
    }

    fn agg(&mut self, agg: &Agg) -> (r: Result<(), PlanShapeError>)
        ensures
            final(self).walked(*old(self), agg_steps(*agg), r),
    {
        proof {
            reveal(agg_steps);
        }
        self.enter(1)?;
        self.add(FIELD_BOUND)?;
        match agg {
            Agg::Min(c) => self.column(c),
            Agg::Max(c) => self.column(c),
            Agg::Sum(c) => self.column(c),
            Agg::Count(c) => self.column(c),
            Agg::CountStar => Ok(()),
            Agg::MinNonNullBy(a) => {
                self.column(&a.value)?;
                self.column(&a.null_sentinel)?;
                self.column(&a.key)
            },
            Agg::MaxNonNullBy(a) => {
                self.column(&a.value)?;
                self.column(&a.null_sentinel)?;
                self.column(&a.key)
            },
        }
    }

    fn aggs(&mut self, aggs: &Vec<Agg>) -> (r: Result<(), PlanShapeError>)
        ensures
            final(self).walked(*old(self), flat(each_agg(aggs@), aggs@.len()), r),
    {
        let mut i: usize = 0;
        while i < aggs.len()
            invariant
                i <= aggs@.len(),
                self.passed(*old(self), flat(each_agg(aggs@), i as nat)),
            decreases aggs@.len() - i,
        {
            let r = self.agg(&aggs[i]);
            proof {
                flat_stops(
                    *old(self).limits,
                    old(self).tally,
                    each_agg(aggs@),
                    (i + 1) as nat,
                    aggs@.len(),
                );
            }
            r?;
            i += 1;
        }
        Ok(())
    }

    fn aggregate(&mut self, aggregate: &Aggregate) -> (r: Result<(), PlanShapeError>)
        ensures
            final(self).walked(*old(self), aggregate_steps(*aggregate), r),
    {
        proof {
            reveal(aggregate_steps);
        }
        self.schema(&aggregate.schema, 1)?;
        self.work(aggregate.group_by.len())?;
        self.columns(&aggregate.group_by)?;
        self.aggs(&aggregate.aggs)
    }

    fn operator(&mut self, op: &Operator) -> (r: Result<(), PlanShapeError>)
        ensures
            final(self).walked(*old(self), operator_steps(*op), r),
    {
        proof {
            reveal(operator_steps);
        }
        self.add(2 * FIELD_BOUND)?;
        match op {
            Operator::ScanParquet(scan) => self.scan(scan),
            Operator::ScanJson(scan) => self.scan(scan),
            Operator::Values(values) => {
                self.schema(&values.schema, 1)?;
                self.rows(&values.rows)
            },
            Operator::Project(project) => {
                self.expression(&project.expr, 1)?;
                self.schema(&project.schema, 1)
            },
            Operator::Filter(filter) => self.predicate(&filter.predicate, 1),
            Operator::DynamicScan(scan) => self.dynamic_scan(scan),
            Operator::Aggregate(aggregate) => self.aggregate(aggregate),
            Operator::SemiJoin(join) => {
                self.add(FIELD_BOUND)?;
                self.work(join.probe_keys.len())?;
                self.work(join.build_keys.len())?;
                self.columns(&join.probe_keys)?;
                self.columns(&join.build_keys)
            },
            Operator::UnionAll => Ok(()),
        }
    }
}

fn primitive_name(ty: &PrimitiveType) -> (name: &'static str)
    ensures
        name@ == primitive_text(*ty),
{
    match ty {
        PrimitiveType::String => "string",
        PrimitiveType::Long => "long",
        PrimitiveType::Integer => "integer",
        PrimitiveType::Short => "short",
        PrimitiveType::Byte => "byte",
        PrimitiveType::Float => "float",
        PrimitiveType::Double => "double",
        PrimitiveType::Boolean => "boolean",
        PrimitiveType::Binary => "binary",
        PrimitiveType::Date => "date",
        PrimitiveType::Timestamp => "timestamp",
        PrimitiveType::TimestampNtz => "timestamp_ntz",
        PrimitiveType::TimestampNanos => "timestamp_nanos",
        PrimitiveType::Void => "void",
        PrimitiveType::IntervalYearMonth => "interval year to month",
        PrimitiveType::IntervalDayTime => "interval day to second",
        PrimitiveType::Decimal { .. } => "decimal(",
        PrimitiveType::Geometry { .. } => "geometry(",
        PrimitiveType::Geography { .. } => "geography(",
    }
}

/// What a plan measures.
pub struct ShapeView {
    /// The plan's nodes.
    pub nodes: usize,
    /// The longest path through them.
    pub depth: usize,
    /// The bound of the plan's encoding.
    pub encoded_bytes: usize,
    /// The work of inspecting it.
    pub work_units: usize,
}

/// Structural measurements of a borrowed plan, without retaining any of its allocations.
///
/// This is not an admitted plan or permission to execute one. It checks topology and bounded
/// traversal of the retained IR, rejects opaque and unknown expressions, and bounds the wire
/// representation. This size bound does not assert a lossless round-trip over the wire. Operator
/// type compatibility and canonical allocation ownership are separate requirements. The encoded
/// bound includes the query-operation envelope.
#[derive(Debug, Clone, Copy, PartialEq, Eq, Structural)]
pub struct PlanShape {
    nodes: usize,
    depth: usize,
    encoded_bytes: usize,
    work_units: usize,
}

impl View for PlanShape {
    type V = ShapeView;

    closed spec fn view(&self) -> ShapeView {
        ShapeView {
            nodes: self.nodes,
            depth: self.depth,
            encoded_bytes: self.encoded_bytes,
            work_units: self.work_units,
        }
    }
}

/// What inspecting a plan under limits gives, with a workspace of `scratch` entries.
pub open spec fn inspected(plan: Plan, limits: TaskLimits, scratch: nat) -> Result<
    ShapeView,
    PlanShapeError,
> {
    if plan.nodes@.len() == 0 {
        Err(PlanShapeError::Empty)
    } else {
        match within(limits, Resource::PlanNodes, plan.nodes@.len()) {
            Err(error) => Err(error),
            Ok(nodes) => if scratch < nodes {
                Err(PlanShapeError::ScratchTooSmall { required: nodes })
            } else {
                match run(limits, Tally::zero(), plan_steps(plan.nodes@)) {
                    Err(error) => Err(error),
                    Ok(tally) => Ok(
                        ShapeView {
                            nodes,
                            depth: topology_depth(plan.nodes@, plan.nodes@.len()) as usize,
                            encoded_bytes: tally.encoded,
                            work_units: tally.work,
                        },
                    ),
                }
            },
        }
    }
}

proof fn passed_items_pass(
    limits: TaskLimits,
    tally: Tally,
    each: spec_fn(int) -> Seq<Step>,
    i: nat,
    n: nat,
) -> (before: Tally)
    requires
        i < n,
        run(limits, tally, flat(each, n)) is Ok,
    ensures
        run(limits, before, each(i as int)) is Ok,
{
    flat_stops(limits, tally, each, i + 1, n);
    assert(flat(each, i + 1) == flat(each, i) + each(i as int));
    run(limits, tally, flat(each, i))->Ok_0
}

proof fn passed_inputs_precede(limits: TaskLimits, tally: Tally, inputs: Seq<usize>, index: nat, k: nat)
    requires
        k < inputs.len(),
        run(limits, tally, flat(each_input(inputs, index), inputs.len())) is Ok,
    ensures
        inputs[k as int] < index,
{
    let before = passed_items_pass(limits, tally, each_input(inputs, index), k, inputs.len());
    if inputs[k as int] >= index {
        let refused = refuse(PlanShapeError::InvalidInput { node: index as usize });
        assert(refused =~= Seq::<Step>::empty().push(refused[0]));
        assert(run(limits, before, refused) is Err);
        assert(each_input(inputs, index)(k as int) == refused + bytes(5));
    }
}

proof fn passed_nodes_are_ordered(limits: TaskLimits, tally: Tally, nodes: Seq<PlanNode>, index: nat)
    requires
        run(limits, tally, topology_steps(nodes, index)) is Ok,
    ensures
        arity_valid(nodes[index as int]),
        forall|k: int|
            0 <= k < nodes[index as int].inputs@.len() ==> (
            #[trigger] nodes[index as int].inputs@[k]) < index,
        node_depth(nodes, index) <= limits.allowance(Resource::PlanDepth),
{
    reveal(topology_steps);
    let node = nodes[index as int];
    let entered = enter_steps(1);
    let shaped = entered + unless(
        arity_valid(node),
        PlanShapeError::InvalidArity { node: index as usize },
    );
    let charged = shaped + work(node.inputs@.len()) + wire_field();
    let walked = charged + flat(each_input(node.inputs@, index), node.inputs@.len());
    let last = Step::Depth(node_depth(nodes, index));
    assert(topology_steps(nodes, index) =~= walked + seq![last]);
    assert(seq![last] =~= Seq::<Step>::empty().push(last));
    let before = run(limits, tally, walked)->Ok_0;
    assert(run(limits, before, seq![last]) is Ok);
    if !arity_valid(node) {
        let refused = refuse(PlanShapeError::InvalidArity { node: index as usize });
        assert(refused =~= Seq::<Step>::empty().push(refused[0]));
        assert(run(limits, run(limits, tally, entered)->Ok_0, refused) is Err);
        assert(run(limits, tally, shaped) is Err);
    }
    assert forall|k: int| 0 <= k < node.inputs@.len() implies (#[trigger] node.inputs@[k])
        < index by {
        passed_inputs_precede(
            limits,
            run(limits, tally, charged)->Ok_0,
            node.inputs@,
            index,
            k as nat,
        );
    }
}

/// An accepted plan is ordered and within its limits: it has a node, every input of a node precedes
/// it, and neither its nodes nor its depth are more than is allowed. Its depth is the greatest of its
/// nodes' depths, and a node lies at one, or one deeper than the deepest of its inputs.
pub proof fn accepted_plans_are_ordered(plan: Plan, limits: TaskLimits, scratch: nat)
    requires
        inspected(plan, limits, scratch) is Ok,
    ensures
        ({
            let nodes = plan.nodes@;
            let shape = inspected(plan, limits, scratch)->Ok_0;
            &&& 0 < nodes.len() <= limits.allowance(Resource::PlanNodes)
            &&& shape.nodes == nodes.len()
            &&& shape.depth <= limits.allowance(Resource::PlanDepth)
            &&& forall|i: nat| i < nodes.len() ==> #[trigger] node_depth(nodes, i) <= shape.depth
            &&& exists|i: nat| i < nodes.len() && #[trigger] node_depth(nodes, i) == shape.depth
            &&& forall|i: int, k: int|
                0 <= i < nodes.len() && 0 <= k < nodes[i].inputs@.len() ==> {
                    &&& (#[trigger] nodes[i].inputs@[k]) < i
                    &&& node_depth(nodes, nodes[i].inputs@[k] as nat) < node_depth(nodes, i as nat)
                }
            &&& forall|i: int|
                0 <= i < nodes.len() ==> {
                    ||| #[trigger] nodes[i].inputs@.len() == 0 && node_depth(nodes, i as nat) == 1
                    ||| exists|k: int|
                        0 <= k < nodes[i].inputs@.len() && node_depth(nodes, i as nat) == 1
                            + node_depth(nodes, (#[trigger] nodes[i].inputs@[k]) as nat)
                }
        }),
{
    let nodes = plan.nodes@;
    let start = run(limits, Tally::zero(), wire_field())->Ok_0;
    assert forall|i: nat| i < nodes.len() implies {
        &&& #[trigger] node_depth(nodes, i) <= limits.allowance(Resource::PlanDepth)
        &&& forall|k: int|
            0 <= k < nodes[i as int].inputs@.len() ==> (#[trigger] nodes[i as int].inputs@[k]) < i
    } by {
        let before = passed_items_pass(limits, start, each_node(nodes), i, nodes.len());
        assert(each_node(nodes)(i as int) == topology_steps(nodes, i) + operator_steps(
            nodes[i as int].op,
        ));
        passed_nodes_are_ordered(limits, before, nodes, i);
    }
    plans_are_as_deep_as_their_nodes(nodes, nodes.len());
    let deepest = choose|i: nat|
        i < nodes.len() && #[trigger] node_depth(nodes, i) == topology_depth(nodes, nodes.len());
    assert(node_depth(nodes, deepest) <= limits.allowance(Resource::PlanDepth));
    assert forall|i: int, k: int| 0 <= i < nodes.len() && 0 <= k < nodes[i].inputs@.len() implies {
        &&& (#[trigger] nodes[i].inputs@[k]) < i
        &&& node_depth(nodes, nodes[i].inputs@[k] as nat) < node_depth(nodes, i as nat)
    } by {
        assert(node_depth(nodes, i as nat) <= limits.allowance(Resource::PlanDepth));
        nodes_lie_behind_their_inputs(nodes, i as nat);
    }
    assert forall|i: int| 0 <= i < nodes.len() implies {
        ||| #[trigger] nodes[i].inputs@.len() == 0 && node_depth(nodes, i as nat) == 1
        ||| exists|k: int|
            0 <= k < nodes[i].inputs@.len() && node_depth(nodes, i as nat) == 1 + node_depth(
                nodes,
                (#[trigger] nodes[i].inputs@[k]) as nat,
            )
    } by {
        nodes_lie_behind_their_inputs(nodes, i as nat);
        if nodes[i].inputs@.len() > 0 {
            assert(nodes[i].inputs@[0] < i);
            nodes_lie_behind_their_inputs(nodes, nodes[i].inputs@[0] as nat);
        }
    }
}

/// No path is longer than the nodes up to its end.
proof fn depth_is_bounded(nodes: Seq<PlanNode>, index: nat)
    ensures
        1 <= node_depth(nodes, index) <= index + 1,
    decreases index, 1nat, 0nat,
{
    inputs_are_bounded(nodes, index, nodes[index as int].inputs@.len());
}

proof fn inputs_are_bounded(nodes: Seq<PlanNode>, index: nat, n: nat)
    ensures
        inputs_depth(nodes, index, n) <= index,
    decreases index, 0nat, n,
{
    if n > 0 {
        inputs_are_bounded(nodes, index, (n - 1) as nat);
        let input = nodes[index as int].inputs@[n - 1];
        if input < index {
            depth_is_bounded(nodes, input as nat);
        }
    }
}

impl<'a> Walk<'a> {
    fn inputs(&mut self, nodes: &Vec<PlanNode>, index: usize, depths: &[usize]) -> (r: Result<
        usize,
        PlanShapeError,
    >)
        requires
            index < nodes@.len() <= depths@.len(),
            forall|k: int| 0 <= k < index ==> #[trigger] depths@[k] == node_depth(nodes@, k as nat),
        ensures
            final(self).walked(
                *old(self),
                flat(
                    each_input(nodes@[index as int].inputs@, index as nat),
                    nodes@[index as int].inputs@.len(),
                ),
                match r {
                    Ok(_) => Ok(()),
                    Err(error) => Err(error),
                },
            ),
            r matches Ok(depth) ==> depth == node_depth(nodes@, index as nat),
    {
        let inputs = &nodes[index].inputs;
        let mut depth: usize = 1;
        let mut i: usize = 0;
        while i < inputs.len()
            invariant
                i <= inputs@.len(),
                inputs == &nodes@[index as int].inputs,
                index < nodes@.len() <= depths@.len(),
                forall|k: int|
                    0 <= k < index ==> #[trigger] depths@[k] == node_depth(nodes@, k as nat),
                self.passed(*old(self), flat(each_input(inputs@, index as nat), i as nat)),
                depth == 1 + inputs_depth(nodes@, index as nat, i as nat),
            decreases inputs@.len() - i,
        {
            let input: usize = inputs[i];
            proof {
                flat_stops(
                    *old(self).limits,
                    old(self).tally,
                    each_input(inputs@, index as nat),
                    (i + 1) as nat,
                    inputs@.len(),
                );
            }
            if input >= index || input > u32::MAX as usize {
                return Err(PlanShapeError::InvalidInput { node: index });
            }
            proof {
                depth_is_bounded(nodes@, input as nat);
            }
            let above: usize = depths[input] + 1;
            if above > depth {
                depth = above;
            }
            let r = self.add(5);
            match r {
                Ok(()) => {},
                Err(error) => return Err(error),
            }
            i += 1;
        }
        Ok(depth)
    }

    fn topology(&mut self, nodes: &Vec<PlanNode>, index: usize, depths: &[usize]) -> (r: Result<
        usize,
        PlanShapeError,
    >)
        requires
            index < nodes@.len() <= depths@.len(),
            forall|k: int| 0 <= k < index ==> #[trigger] depths@[k] == node_depth(nodes@, k as nat),
        ensures
            final(self).walked(
                *old(self),
                topology_steps(nodes@, index as nat),
                match r {
                    Ok(_) => Ok(()),
                    Err(error) => Err(error),
                },
            ),
            r matches Ok(depth) ==> depth == node_depth(nodes@, index as nat),
    {
        proof {
            reveal(topology_steps);
        }
        match self.enter(1) {
            Ok(()) => {},
            Err(error) => return Err(error),
        }
        let node = &nodes[index];
        let valid = match &node.op {
            Operator::ScanParquet(_) => node.inputs.len() == 0,
            Operator::ScanJson(_) => node.inputs.len() == 0,
            Operator::Values(_) => node.inputs.len() == 0,
            Operator::SemiJoin(_) => node.inputs.len() == 2,
            Operator::UnionAll => node.inputs.len() > 0,
            _ => node.inputs.len() == 1,
        };
        if !valid {
            return Err(PlanShapeError::InvalidArity { node: index });
        }
        match self.work(node.inputs.len()) {
            Ok(()) => {},
            Err(error) => return Err(error),
        }
        match self.add(FIELD_BOUND) {
            Ok(()) => {},
            Err(error) => return Err(error),
        }
        let depth: usize = self.inputs(nodes, index, depths)?;
        match self.check_depth(depth) {
            Ok(()) => Ok(depth),
            Err(error) => Err(error),
        }
    }
}

impl<'a> Walk<'a> {
    fn node(&mut self, nodes: &Vec<PlanNode>, index: usize, depths: &[usize]) -> (r: Result<
        usize,
        PlanShapeError,
    >)
        requires
            index < nodes@.len() <= depths@.len(),
            forall|k: int| 0 <= k < index ==> #[trigger] depths@[k] == node_depth(nodes@, k as nat),
        ensures
            final(self).walked(
                *old(self),
                each_node(nodes@)(index as int),
                match r {
                    Ok(_) => Ok(()),
                    Err(error) => Err(error),
                },
            ),
            r matches Ok(depth) ==> depth == node_depth(nodes@, index as nat),
    {
        let depth: usize = self.topology(nodes, index, depths)?;
        match self.operator(&nodes[index].op) {
            Ok(()) => Ok(depth),
            Err(error) => Err(error),
        }
    }

    fn nodes(&mut self, nodes: &Vec<PlanNode>, scratch: &mut [usize]) -> (r: Result<
        usize,
        PlanShapeError,
    >)
        requires
            nodes@.len() <= old(scratch)@.len(),
        ensures
            final(self).walked(
                *old(self),
                flat(each_node(nodes@), nodes@.len()),
                match r {
                    Ok(_) => Ok(()),
                    Err(error) => Err(error),
                },
            ),
            r matches Ok(depth) ==> depth == topology_depth(nodes@, nodes@.len()),
            final(scratch)@.len() == old(scratch)@.len(),
            forall|k: int|
                nodes@.len() <= k < old(scratch)@.len() ==> final(scratch)@[k]
                    == #[trigger] old(scratch)@[k],
            r is Ok ==> forall|k: int|
                0 <= k < nodes@.len() ==> #[trigger] final(scratch)@[k] == node_depth(
                    nodes@,
                    k as nat,
                ),
    {
        let mut depth: usize = 0;
        let mut index: usize = 0;
        while index < nodes.len()
            invariant
                index <= nodes@.len() <= scratch@.len(),
                scratch@.len() == old(scratch)@.len(),
                forall|k: int|
                    nodes@.len() <= k < scratch@.len() ==> scratch@[k] == #[trigger] old(scratch)@[k],
                forall|k: int|
                    0 <= k < index ==> #[trigger] scratch@[k] == node_depth(nodes@, k as nat),
                depth == topology_depth(nodes@, index as nat),
                self.passed(*old(self), flat(each_node(nodes@), index as nat)),
            decreases nodes@.len() - index,
        {
            let node = self.node(nodes, index, scratch);
            proof {
                flat_stops(
                    *old(self).limits,
                    old(self).tally,
                    each_node(nodes@),
                    (index + 1) as nat,
                    nodes@.len(),
                );
            }
            let reached: usize = node?;
            if reached > depth {
                depth = reached;
            }
            scratch[index] = reached;
            index += 1;
        }
        Ok(depth)
    }
}

impl PlanShape {
    /// Inspects `plan` under `limits`, before cloning or serializing any of its contents.
    ///
    /// `scratch` is caller-owned workspace with at least as many entries as the plan has nodes.
    /// Only that prefix is written; on failure it may be partially overwritten. This method
    /// allocates nothing. The caller is responsible for admitting the workspace's backing storage.
    /// All input indices must precede their node and fit the wire's `u32`. Sources have no inputs,
    /// unary operators one, semi joins two, and unions at least one. Disconnected earlier nodes are
    /// allowed and inspected. Nested traversal is limited by `SchemaDepth` and a hard stack-safety
    /// ceiling; topology uses `PlanDepth` independently. Field metadata and structure patches at
    /// fields have no admitted owner and refuse the plan before they are read.
    ///
    /// Successful inspection does not charge a task's cumulative ledger; a composing driver must
    /// account these reported work units and its simultaneous live storage.
    pub fn check(plan: &Plan, limits: &TaskLimits, scratch: &mut [usize]) -> (r: Result<
        PlanShape,
        PlanShapeError,
    >)
        ensures
            match inspected(*plan, *limits, old(scratch)@.len()) {
                Ok(measures) => r matches Ok(shape) && shape@ == measures,
                Err(error) => r == Err::<PlanShape, PlanShapeError>(error),
            },
            final(scratch)@.len() == old(scratch)@.len(),
            forall|k: int|
                plan.nodes@.len() <= k < old(scratch)@.len() ==> final(scratch)@[k]
                    == #[trigger] old(scratch)@[k],
            r is Ok ==> forall|k: int|
                0 <= k < plan.nodes@.len() ==> #[trigger] final(scratch)@[k] == node_depth(
                    plan.nodes@,
                    k as nat,
                ),
            plan.nodes@.len() > old(scratch)@.len() ==> final(scratch)@ == old(scratch)@,
    {
        let count: usize = plan.nodes.len();
        if count == 0 {
            return Err(PlanShapeError::Empty);
        }
        let mut walk = Walk { limits, tally: Tally { encoded: 0, work: 0, schema_nodes: 0 } };
        match walk.total(Resource::PlanNodes, 0, count) {
            Ok(_) => {},
            Err(error) => return Err(error),
        }
        if scratch.len() < count {
            return Err(PlanShapeError::ScratchTooSmall { required: count });
        }
        match walk.add(FIELD_BOUND) {
            Ok(()) => {},
            Err(error) => return Err(error),
        }
        let depth: usize = walk.nodes(&plan.nodes, scratch)?;
        Ok(
            PlanShape {
                nodes: count,
                depth,
                encoded_bytes: walk.tally.encoded,
                work_units: walk.tally.work,
            },
        )
    }

    /// The same measurements with other work.
    pub(crate) fn with_work(self, work_units: usize) -> (shape: PlanShape)
        ensures
            shape@ == (ShapeView { work_units, ..self@ }),
    {
        PlanShape { work_units, ..self }
    }

    /// Number of plan nodes inspected, including disconnected nodes.
    pub fn nodes(&self) -> (n: usize)
        ensures
            n == self@.nodes,
    {
        self.nodes
    }

    /// Longest path through the topology, with a source at depth one.
    pub fn depth(&self) -> (n: usize)
        ensures
            n == self@.depth,
    {
        self.depth
    }

    /// Conservative bound of the encoded size, including the query-operation envelope.
    pub fn encoded_bytes(&self) -> (n: usize)
        ensures
            n == self@.encoded_bytes,
    {
        self.encoded_bytes
    }

    /// Traversal work, including input edges and formatting writes.
    pub fn work_units(&self) -> (n: usize)
        ensures
            n == self@.work_units,
    {
        self.work_units
    }
}

/// The values of a plan of one literal column.
#[derive(Debug, Clone, Copy)]
pub enum FixedValues<'a> {
    /// 64-bit integers.
    I64(&'a [i64]),
    /// Texts.
    String(&'a [&'a str]),
}

impl<'a> FixedValues<'a> {
    /// The number of values.
    pub open spec fn count(self) -> nat {
        match self {
            FixedValues::I64(values) => values@.len(),
            FixedValues::String(values) => values@.len(),
        }
    }

    /// The type of the column.
    pub open spec fn column_type(self) -> PrimitiveType {
        match self {
            FixedValues::I64(_) => PrimitiveType::Long,
            FixedValues::String(_) => PrimitiveType::String,
        }
    }

    /// Returns the number of values.
    pub fn len(&self) -> (n: usize)
        ensures
            n == self.count(),
    {
        match self {
            FixedValues::I64(values) => values.len(),
            FixedValues::String(values) => values.len(),
        }
    }

    /// The literal of a value.
    pub open spec fn holds(self, i: int, value: Scalar) -> bool {
        match self {
            FixedValues::I64(values) => value == Scalar::Long(values@[i]),
            FixedValues::String(values) => value matches Scalar::String(text) && text@
                == values@[i]@,
        }
    }
}

/// The steps of each row of one value.
pub open spec fn each_fixed(values: FixedValues) -> spec_fn(int) -> Seq<Step> {
    |i: int|
        enter_steps(1) + (enter_steps(1) + match values {
            FixedValues::I64(_) => wire_field(),
            FixedValues::String(texts) => text_steps(texts@[i]@),
        })
}

/// The steps of the one field of a literal column.
pub open spec fn fixed_field_steps(name: Seq<char>, ty: PrimitiveType) -> Seq<Step> {
    schema_enter_steps(1) + (schema_enter_steps(1) + text_steps(name) + (schema_enter_steps(1)
        + primitive_steps(ty)) + wire_field())
}

/// The steps of a plan of one literal column.
pub open spec fn fixed_steps(name: Seq<char>, values: FixedValues) -> Seq<Step> {
    wire_field() + (enter_steps(1) + work(0) + wire_field() + seq![Step::Depth(1)]) + (bytes(
        2 * FIELD_BOUND as nat,
    ) + (fixed_field_steps(name, values.column_type()) + flat(each_fixed(values), values.count())))
}

/// The nodes are the plan of one literal column of this name and these values.
pub open spec fn fixed_plan(nodes: Seq<PlanNode>, name: Seq<char>, values: FixedValues) -> bool {
    &&& nodes.len() == 1
    &&& nodes[0].inputs@.len() == 0
    &&& nodes[0].op matches Operator::Values(op)
    &&& op.schema.fields@.len() == 1
    &&& op.schema.fields@[0].name@ == name
    &&& op.schema.fields@[0].data_type == DataType::Primitive(values.column_type())
    &&& !op.schema.fields@[0].nullable
    &&& op.rows@.len() == values.count()
    &&& forall|i: int|
        0 <= i < op.rows@.len() ==> (#[trigger] op.rows@[i])@.len() == 1 && values.holds(
            i,
            op.rows@[i]@[0],
        )
}

/// A plan of one literal column without metadata measures what its producer measured beforehand.
pub proof fn fixed_plans_measure_as_announced(
    limits: TaskLimits,
    nodes: Seq<PlanNode>,
    name: Seq<char>,
    values: FixedValues,
)
    requires
        fixed_plan(nodes, name, values),
        nodes[0].op matches Operator::Values(op) && op.schema.fields@[0].metadata@.len() == 0,
    ensures
        run(limits, Tally::zero(), plan_steps(nodes)) == run(
            limits,
            Tally::zero(),
            fixed_steps(name, values),
        ),
        topology_depth(nodes, 1) == 1,
{
    reveal(topology_steps);
    reveal(operator_steps);
    let op = nodes[0].op->Values_0;
    let field = op.schema.fields@[0];
    reveal_with_fuel(flat, 3);
    reveal_with_fuel(topology_depth, 2);
    assert(node_depth(nodes, 0) == 1);
    assert(flat(each_node(nodes), 1) =~= each_node(nodes)(0));
    assert(flat(each_input(nodes[0].inputs@, 0), 0) =~= Seq::<Step>::empty());
    assert(schema_steps(op.schema, 1) =~= schema_enter_steps(1) + field_steps(field, 1)) by {
        assert(flat(each_field(op.schema.fields@, 1), 1) =~= field_steps(field, 1));
    }
    assert(type_steps(field.data_type, 1) == schema_enter_steps(1) + primitive_steps(
        values.column_type(),
    ));
    assert(field_steps(field, 1) =~= schema_enter_steps(1) + text_steps(name) + (schema_enter_steps(
        1,
    ) + primitive_steps(values.column_type())) + wire_field());
    fixed_rows_measure_alike(op.rows@, values, values.count());
    assert(topology_steps(nodes, 0) =~= enter_steps(1) + work(0) + wire_field() + seq![
        Step::Depth(1),
    ]);
    assert(plan_steps(nodes) =~= fixed_steps(name, values));
}

proof fn fixed_rows_measure_alike(rows: Seq<Vec<Scalar>>, values: FixedValues, n: nat)
    requires
        rows.len() == values.count(),
        n <= rows.len(),
        forall|i: int|
            0 <= i < rows.len() ==> (#[trigger] rows[i])@.len() == 1 && values.holds(i, rows[i]@[0]),
    ensures
        flat(each_row(rows), n) == flat(each_fixed(values), n),
    decreases n,
{
    if n > 0 {
        fixed_rows_measure_alike(rows, values, (n - 1) as nat);
        let row = rows[n - 1]@;
        reveal_with_fuel(flat, 3);
        assert(flat(each_scalar(row, 1), 1) =~= scalar_steps(row[0], 1));
        assert(values.holds(n - 1, row[0]));
        assert(each_row(rows)(n - 1) =~= each_fixed(values)(n - 1));
    }
}

impl<'a> Walk<'a> {
    fn fixed_row(&mut self, values: FixedValues, i: usize) -> (r: Result<(), PlanShapeError>)
        requires
            i < values.count(),
        ensures
            final(self).walked(*old(self), each_fixed(values)(i as int), r),
    {
        self.enter(1)?;
        self.enter(1)?;
        match values {
            FixedValues::I64(_) => self.add(FIELD_BOUND),
            FixedValues::String(texts) => self.string(texts[i]),
        }
    }

    fn fixed_rows(&mut self, values: FixedValues) -> (r: Result<(), PlanShapeError>)
        ensures
            final(self).walked(*old(self), flat(each_fixed(values), values.count()), r),
    {
        let mut i: usize = 0;
        while i < values.len()
            invariant
                i <= values.count(),
                self.passed(*old(self), flat(each_fixed(values), i as nat)),
            decreases values.count() - i,
        {
            let r = self.fixed_row(values, i);
            proof {
                flat_stops(
                    *old(self).limits,
                    old(self).tally,
                    each_fixed(values),
                    (i + 1) as nat,
                    values.count(),
                );
            }
            r?;
            i += 1;
        }
        Ok(())
    }

    fn fixed_field(&mut self, name: &str, ty: &PrimitiveType) -> (r: Result<(), PlanShapeError>)
        ensures
            final(self).walked(*old(self), fixed_field_steps(name@, *ty), r),
    {
        self.schema_enter(1)?;
        self.schema_enter(1)?;
        self.string(name)?;
        self.schema_enter(1)?;
        self.primitive(ty)?;
        self.add(FIELD_BOUND)
    }

    fn fixed_column(&mut self, name: &str, values: FixedValues) -> (r: Result<(), PlanShapeError>)
        ensures
            final(self).walked(*old(self), fixed_steps(name@, values), r),
    {
        let ty = match values {
            FixedValues::I64(_) => PrimitiveType::Long,
            FixedValues::String(_) => PrimitiveType::String,
        };
        self.add(FIELD_BOUND)?;
        self.enter(1)?;
        self.work(0)?;
        self.add(FIELD_BOUND)?;
        self.check_depth(1)?;
        self.add(2 * FIELD_BOUND)?;
        self.fixed_field(name, &ty)?;
        self.fixed_rows(values)
    }
}

/// What announcing a plan of one literal column gives, with what its metadata adds.
pub open spec fn announced(
    name: Seq<char>,
    values: FixedValues,
    metadata_encoded: usize,
    comparison_work: usize,
    limits: TaskLimits,
) -> Result<ShapeView, PlanShapeError> {
    match within(limits, Resource::PlanNodes, 1) {
        Err(error) => Err(error),
        Ok(_) => match run(
            limits,
            Tally::zero(),
            fixed_steps(name, values) + bytes(metadata_encoded as nat) + work(
                comparison_work as nat,
            ),
        ) {
            Err(error) => Err(error),
            Ok(tally) => Ok(
                ShapeView {
                    nodes: 1,
                    depth: 1,
                    encoded_bytes: tally.encoded,
                    work_units: tally.work,
                },
            ),
        },
    }
}

/// What a closed producer's plan gives: its topology, with the bounds that its budget admitted.
pub open spec fn produced(nodes: Seq<PlanNode>, encoded: usize, work: usize, limits: TaskLimits) -> Result<
    ShapeView,
    PlanShapeError,
> {
    if nodes.len() == 0 {
        Err(PlanShapeError::Empty)
    } else if let Err(error) = within(limits, Resource::PlanNodes, nodes.len()) {
        Err(error)
    } else if let Err(error) = within(limits, Resource::PlanEncodedBytes, encoded as nat) {
        Err(error)
    } else if let Err(error) = within(limits, Resource::WorkUnits, work as nat) {
        Err(error)
    } else {
        match run(limits, Tally::zero(), flat(each_topology(nodes), nodes.len())) {
            Err(error) => Err(error),
            Ok(_) => Ok(
                ShapeView {
                    nodes: nodes.len() as usize,
                    depth: topology_depth(nodes, nodes.len()) as usize,
                    encoded_bytes: encoded,
                    work_units: work,
                },
            ),
        }
    }
}

/// The steps of each node's place in the plan.
pub open spec fn each_topology(nodes: Seq<PlanNode>) -> spec_fn(int) -> Seq<Step> {
    |i: int| topology_steps(nodes, i as nat)
}

impl PlanShape {
    /// Measures the plan of one literal column before any of it is built.
    ///
    /// `metadata_encoded` and `comparison_work` are what the column's admitted metadata adds.
    pub fn fixed_values(
        field_name: &str,
        values: FixedValues,
        metadata_encoded: usize,
        comparison_work: usize,
        limits: &TaskLimits,
    ) -> (r: Result<PlanShape, PlanShapeError>)
        ensures
            match announced(field_name@, values, metadata_encoded, comparison_work, *limits) {
                Ok(measures) => r matches Ok(shape) && shape@ == measures,
                Err(error) => r == Err::<PlanShape, PlanShapeError>(error),
            },
    {
        let mut walk = Walk { limits, tally: Tally { encoded: 0, work: 0, schema_nodes: 0 } };
        match walk.total(Resource::PlanNodes, 0, 1) {
            Ok(_) => {},
            Err(error) => return Err(error),
        }
        match walk.fixed_column(field_name, values) {
            Ok(()) => {},
            Err(error) => return Err(error),
        }
        match walk.add(metadata_encoded) {
            Ok(()) => {},
            Err(error) => return Err(error),
        }
        match walk.work(comparison_work) {
            Ok(()) => {},
            Err(error) => return Err(error),
        }
        Ok(
            PlanShape {
                nodes: 1,
                depth: 1,
                encoded_bytes: walk.tally.encoded,
                work_units: walk.tally.work,
            },
        )
    }

    /// Checks the topology of a closed producer's plan, whose encoding and work its budget bounds.
    pub fn json_log_producer_shape(plan: &Plan, encoded: usize, work: usize, limits: &TaskLimits) -> (r:
        Result<PlanShape, PlanShapeError>)
        ensures
            match produced(plan.nodes@, encoded, work, *limits) {
                Ok(measures) => r matches Ok(shape) && shape@ == measures,
                Err(error) => r == Err::<PlanShape, PlanShapeError>(error),
            },
    {
        let count: usize = plan.nodes.len();
        if count == 0 {
            return Err(PlanShapeError::Empty);
        }
        let mut walk = Walk { limits, tally: Tally { encoded: 0, work: 0, schema_nodes: 0 } };
        match walk.total(Resource::PlanNodes, 0, count) {
            Ok(_) => {},
            Err(error) => return Err(error),
        }
        match walk.total(Resource::PlanEncodedBytes, 0, encoded) {
            Ok(_) => {},
            Err(error) => return Err(error),
        }
        match walk.total(Resource::WorkUnits, 0, work) {
            Ok(_) => {},
            Err(error) => return Err(error),
        }
        let ghost start = walk;
        let mut depths: Vec<usize> = Vec::new();
        let mut filled: usize = 0;
        while filled < count
            invariant
                filled <= count,
                depths@.len() == filled,
            decreases count - filled,
        {
            depths.push(0);
            filled += 1;
        }
        let mut depth: usize = 0;
        let mut index: usize = 0;
        while index < count
            invariant
                index <= count,
                count == plan.nodes@.len(),
                depths@.len() == count,
                forall|k: int|
                    0 <= k < index ==> #[trigger] depths@[k] == node_depth(plan.nodes@, k as nat),
                depth == topology_depth(plan.nodes@, index as nat),
                walk.passed(start, flat(each_topology(plan.nodes@), index as nat)),
                start.tally == Tally::zero(),
                start.limits == limits,
                produced(plan.nodes@, encoded, work, *limits) == (match run(
                    *limits,
                    Tally::zero(),
                    flat(each_topology(plan.nodes@), plan.nodes@.len()),
                ) {
                    Err(error) => Err::<ShapeView, PlanShapeError>(error),
                    Ok(_) => Ok(
                        ShapeView {
                            nodes: plan.nodes@.len() as usize,
                            depth: topology_depth(plan.nodes@, plan.nodes@.len()) as usize,
                            encoded_bytes: encoded,
                            work_units: work,
                        },
                    ),
                }),
            decreases count - index,
        {
            let node = walk.topology(&plan.nodes, index, depths.as_slice());
            proof {
                flat_stops(
                    *limits,
                    Tally::zero(),
                    each_topology(plan.nodes@),
                    (index + 1) as nat,
                    count as nat,
                );
            }
            let reached: usize = node?;
            if reached > depth {
                depth = reached;
            }
            depths.set(index, reached);
            index += 1;
        }
        Ok(PlanShape { nodes: count, depth, encoded_bytes: encoded, work_units: work })
    }
}

/// A fixed plan is one node that reads nothing: its values stand in one column of the given name and
/// type that is never null, one in each row, in their order.
pub proof fn fixed_plans_hold_their_values(
    nodes: Seq<PlanNode>,
    name: Seq<char>,
    values: FixedValues,
    i: int,
)
    requires
        fixed_plan(nodes, name, values),
    ensures
        nodes.len() == 1,
        nodes[0].inputs@.len() == 0,
        nodes[0].op matches Operator::Values(op) && {
            &&& op.schema.fields@.len() == 1
            &&& op.schema.fields@[0].name@ == name
            &&& !op.schema.fields@[0].nullable
            &&& match values {
                FixedValues::I64(numbers) => {
                    &&& op.schema.fields@[0].data_type == DataType::Primitive(PrimitiveType::Long)
                    &&& op.rows@.len() == numbers@.len()
                    &&& 0 <= i < numbers@.len() ==> {
                        &&& op.rows@[i]@.len() == 1
                        &&& op.rows@[i]@[0] == Scalar::Long(numbers@[i])
                    }
                },
                FixedValues::String(texts) => {
                    &&& op.schema.fields@[0].data_type == DataType::Primitive(PrimitiveType::String)
                    &&& op.rows@.len() == texts@.len()
                    &&& 0 <= i < texts@.len() ==> {
                        &&& op.rows@[i]@.len() == 1
                        &&& op.rows@[i]@[0] matches Scalar::String(text) && text@ == texts@[i]@
                    }
                },
            }
        },
{
    if let Operator::Values(op) = nodes[0].op {
        if 0 <= i < op.rows@.len() {
            assert(op.rows@[i]@.len() == 1);
        }
    }
}

/// A node is as deep as the deepest of the nodes it reads and one more, and a plan as its deepest node.
pub proof fn nodes_are_one_deeper_than_their_inputs(nodes: Seq<PlanNode>, index: nat, n: nat)
    requires
        index < nodes.len(),
        n <= nodes[index as int].inputs@.len(),
        forall|k: int| 0 <= k < n ==> #[trigger] nodes[index as int].inputs@[k] < index,
    ensures
        forall|k: int|
            0 <= k < n ==> inputs_depth(nodes, index, n) >= node_depth(
                nodes,
                #[trigger] nodes[index as int].inputs@[k] as nat,
            ),
        n == 0 ==> inputs_depth(nodes, index, n) == 0,
        n > 0 ==> exists|k: int|
            0 <= k < n && inputs_depth(nodes, index, n) == node_depth(
                nodes,
                #[trigger] nodes[index as int].inputs@[k] as nat,
            ),
        node_depth(nodes, index) == 1 + inputs_depth(
            nodes,
            index,
            nodes[index as int].inputs@.len(),
        ),
    decreases n,
{
    if n > 0 {
        let inputs = nodes[index as int].inputs@;
        let m = (n - 1) as nat;
        nodes_are_one_deeper_than_their_inputs(nodes, index, m);
        let last = node_depth(nodes, inputs[n - 1] as nat);
        assert(inputs[n - 1] < index);
        assert(last >= 1);
        if last > inputs_depth(nodes, index, m) {
            assert(inputs_depth(nodes, index, n) == node_depth(nodes, inputs[n - 1] as nat));
        } else {
            let k = choose|k: int|
                0 <= k < m && inputs_depth(nodes, index, m) == node_depth(
                    nodes,
                    #[trigger] inputs[k] as nat,
                );
            assert(inputs_depth(nodes, index, n) == node_depth(nodes, inputs[k] as nat));
        }
    }
}

} // verus!
