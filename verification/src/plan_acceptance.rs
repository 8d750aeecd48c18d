//! Which plans an inspection accepts, said of the plans themselves.
//!
//! A plan is refused for the count or the order of a node's inputs, for a part that no producer
//! admitted, or for an allowance that it exhausts, and for nothing else.

use crate::accounting::TaskLimits;
use crate::inspection::{flat, run, PlanShapeError, Step, Tally};
use crate::plan::{
    Agg, Expression, FileScan, MapPair, Operator, Plan, PlanNode, Predicate, Scalar,
};
use crate::plan_shape::{
    agg_steps, aggregate_steps, column_steps, display_steps,
    dynamic_scan_steps, each_agg, each_column, each_display, each_expression, each_field,
    each_file, each_input, each_node, each_pair, each_predicate, each_row, each_scalar, each_text,
    enter_steps, expression_steps, field_steps, inspected, operator_steps, plan_steps, predicate_steps, primitive_steps, refuse,
    scalar_steps, scan_steps, schema_enter_steps, schema_steps, text_steps,
    topology_steps, type_steps, wire_field, write_steps,
};
use crate::schema::{ColumnName, DataType, StructField, StructType};
use vstd::prelude::*;

verus! {

broadcast use crate::inspection::group_run;

/// Each of the first `n` items holds.
pub open spec fn all_of(each: spec_fn(int) -> bool, n: nat) -> bool {
    forall|i: int| 0 <= i < n ==> #[trigger] each(i)
}

/// No part of the type has metadata.
pub open spec fn plain_type(ty: DataType) -> bool
    decreases ty, 1nat,
{
    match ty {
        DataType::Primitive(_) => true,
        DataType::Array(a) => plain_type(a.element_type),
        DataType::Mapping(m) => plain_type(m.key_type) && plain_type(m.value_type),
        DataType::Struct(s) => plain_schema(*s),
        DataType::Variant(s) => plain_schema(*s),
    }
}

/// No field has metadata.
pub open spec fn plain_schema(schema: StructType) -> bool
    decreases schema, 0nat,
{
    all_of(each_plain_field(schema.fields@), schema.fields@.len())
}

/// Whether each field is plain.
pub open spec fn each_plain_field(fields: Seq<StructField>) -> spec_fn(int) -> bool
    decreases fields, 0nat,
{
    |i: int|
        if 0 <= i < fields.len() {
            plain_field(fields[i])
        } else {
            true
        }
}

/// Neither the field nor a part of its type has metadata.
pub open spec fn plain_field(field: StructField) -> bool
    decreases field, 0nat,
{
    field.metadata@.len() == 0 && plain_type(field.data_type)
}

/// No type of the literal has metadata.
pub open spec fn plain_scalar(value: Scalar) -> bool
    decreases value, 1nat,
{
    match value {
        Scalar::Null(ty) => plain_type(ty),
        Scalar::Struct(s) => all_of(each_plain_field(s.fields@), s.fields@.len()) && all_of(
            each_plain_scalar(s.values@),
            s.values@.len(),
        ),
        Scalar::Array(a) => plain_type(a.array_type.element_type) && all_of(
            each_plain_scalar(a.elements@),
            a.elements@.len(),
        ),
        Scalar::Mapping(m) => plain_type(m.map_type.key_type) && plain_type(m.map_type.value_type)
            && all_of(each_plain_pair(m.pairs@), m.pairs@.len()),
        _ => true,
    }
}

/// Whether each literal is plain.
pub open spec fn each_plain_scalar(values: Seq<Scalar>) -> spec_fn(int) -> bool
    decreases values, 0nat,
{
    |i: int|
        if 0 <= i < values.len() {
            plain_scalar(values[i])
        } else {
            true
        }
}

/// Whether each entry of a map literal is plain.
pub open spec fn each_plain_pair(pairs: Seq<MapPair>) -> spec_fn(int) -> bool
    decreases pairs, 0nat,
{
    |i: int|
        if 0 <= i < pairs.len() {
            plain_scalar(pairs[i].key) && plain_scalar(pairs[i].value)
        } else {
            true
        }
}

/// The expression has no opaque or unknown part, no patch of a field, and no metadata.
pub open spec fn plain_expression(expr: Expression) -> bool
    decreases expr, 1nat,
{
    match expr {
        Expression::Opaque(_) => false,
        Expression::Unknown(_) => false,
        Expression::Literal(value) => plain_scalar(value),
        Expression::Column(_) => true,
        Expression::Predicate(predicate) => plain_predicate(*predicate),
        Expression::Struct(exprs, nullability) => all_of(
            each_plain_expression(exprs@),
            exprs@.len(),
        ) && (match nullability {
            Some(expr) => plain_expression(*expr),
            None => true,
        }),
        Expression::StructPatch(patch) => patch.field_patches@.len() == 0 && all_of(
            each_plain_expression(patch.prepended_fields@),
            patch.prepended_fields@.len(),
        ) && all_of(
            each_plain_expression(patch.appended_fields@),
            patch.appended_fields@.len(),
        ),
        Expression::Unary(_, expr) => plain_expression(*expr),
        Expression::Binary(_, left, right) => plain_expression(*left) && plain_expression(*right),
        Expression::Variadic(_, exprs) => all_of(each_plain_expression(exprs@), exprs@.len()),
        Expression::ParseJson(expr, schema) => plain_expression(*expr) && plain_schema(schema),
        Expression::MapToStruct(expr) => plain_expression(*expr),
        Expression::Cast(expr, target) => plain_expression(*expr) && plain_type(target),
    }
}

/// Whether each expression is plain.
pub open spec fn each_plain_expression(exprs: Seq<Expression>) -> spec_fn(int) -> bool
    decreases exprs, 0nat,
{
    |i: int|
        if 0 <= i < exprs.len() {
            plain_expression(exprs[i])
        } else {
            true
        }
}

/// The predicate has no opaque or unknown part, no patch of a field, and no metadata.
pub open spec fn plain_predicate(predicate: Predicate) -> bool
    decreases predicate, 1nat,
{
    match predicate {
        Predicate::Opaque(_) => false,
        Predicate::Unknown(_) => false,
        Predicate::BooleanExpression(expr) => plain_expression(expr),
        Predicate::Not(inner) => plain_predicate(*inner),
        Predicate::Unary(_, expr) => plain_expression(*expr),
        Predicate::Binary(_, left, right) => plain_expression(*left) && plain_expression(*right),
        Predicate::Junction(_, preds) => all_of(each_plain_predicate(preds@), preds@.len()),
    }
}

/// Whether each predicate is plain.
pub open spec fn each_plain_predicate(preds: Seq<Predicate>) -> spec_fn(int) -> bool
    decreases preds, 0nat,
{
    |i: int|
        if 0 <= i < preds.len() {
            plain_predicate(preds[i])
        } else {
            true
        }
}

/// The constants of scanned files have no metadata, nor has their schema.
pub open spec fn plain_scan(scan: FileScan) -> bool {
    &&& plain_schema(scan.schema)
    &&& forall|i: int|
        0 <= i < scan.files@.len() ==> all_of(
            each_plain_scalar((#[trigger] scan.files@[i]).file_constants@),
            scan.files@[i].file_constants@.len(),
        )
}

/// The operator has no opaque or unknown part, no patch of a field, and no metadata.
pub open spec fn plain_operator(op: Operator) -> bool {
    match op {
        Operator::ScanParquet(scan) => plain_scan(scan),
        Operator::ScanJson(scan) => plain_scan(scan),
        Operator::Values(values) => plain_schema(values.schema) && forall|i: int|
            0 <= i < values.rows@.len() ==> all_of(
                each_plain_scalar((#[trigger] values.rows@[i])@),
                values.rows@[i]@.len(),
            ),
        Operator::Project(project) => plain_expression(project.expr) && plain_schema(
            project.schema,
        ),
        Operator::Filter(filter) => plain_predicate(filter.predicate),
        Operator::DynamicScan(scan) => plain_schema(scan.schema),
        Operator::Aggregate(aggregate) => plain_schema(aggregate.schema),
        Operator::SemiJoin(_) => true,
        Operator::UnionAll => true,
    }
}

/// The node reads as many nodes as its operator takes, and all of them precede it.
pub open spec fn ordered_node(node: PlanNode, index: int) -> bool {
    let count = node.inputs@.len();
    &&& match node.op {
        Operator::ScanParquet(_) | Operator::ScanJson(_) | Operator::Values(_) => count == 0,
        Operator::Project(_) | Operator::Filter(_) | Operator::DynamicScan(_)
        | Operator::Aggregate(_) => count == 1,
        Operator::SemiJoin(_) => count == 2,
        Operator::UnionAll => count >= 1,
    }
    &&& forall|k: int| 0 <= k < count ==> (#[trigger] node.inputs@[k]) < index
}

/// Nothing is refused.
pub open spec fn clean(steps: Seq<Step>) -> bool {
    forall|i: int| 0 <= i < steps.len() ==> !(#[trigger] steps[i] is Refuse)
}

/// Nothing is refused but for a part that no producer admitted.
pub open spec fn mild(steps: Seq<Step>) -> bool {
    forall|i: int|
        0 <= i < steps.len() ==> (#[trigger] steps[i] matches Step::Refuse(error) ==> error
            == PlanShapeError::UnsupportedExpression || error == PlanShapeError::UnadmittedMap)
}

/// Steps that follow each other refuse what either of them refuses.
pub broadcast proof fn joined_steps(a: Seq<Step>, b: Seq<Step>)
    ensures
        #![trigger clean(a + b)]
        #![trigger mild(a + b)]
        clean(a + b) <==> clean(a) && clean(b),
        mild(a + b) <==> mild(a) && mild(b),
{
    let both = a + b;
    assert forall|i: int| 0 <= i < a.len() implies a[i] == #[trigger] both[i] by {}
    assert forall|i: int| 0 <= i < b.len() implies b[i] == #[trigger] both[a.len() + i] by {}
    if clean(both) {
        assert forall|i: int| 0 <= i < a.len() implies !(#[trigger] a[i] is Refuse) by {
            assert(!(both[i] is Refuse));
        }
        assert forall|i: int| 0 <= i < b.len() implies !(#[trigger] b[i] is Refuse) by {
            assert(!(both[a.len() + i] is Refuse));
        }
    }
    if mild(both) {
        assert forall|i: int| 0 <= i < a.len() implies (#[trigger] a[i] matches Step::Refuse(error)
            ==> error == PlanShapeError::UnsupportedExpression || error
            == PlanShapeError::UnadmittedMap) by {
            assert(both[i] == a[i]);
        }
        assert forall|i: int| 0 <= i < b.len() implies (#[trigger] b[i] matches Step::Refuse(error)
            ==> error == PlanShapeError::UnsupportedExpression || error
            == PlanShapeError::UnadmittedMap) by {
            assert(both[a.len() + i] == b[i]);
        }
    }
}

/// The steps of a list refuse what those of an item refuse.
pub proof fn flat_steps(each: spec_fn(int) -> Seq<Step>, n: nat)
    ensures
        clean(flat(each, n)) <==> forall|i: int| 0 <= i < n ==> clean(#[trigger] each(i)),
        mild(flat(each, n)) <==> forall|i: int| 0 <= i < n ==> mild(#[trigger] each(i)),
    decreases n,
{
    broadcast use joined_steps;

    if n > 0 {
        flat_steps(each, (n - 1) as nat);
        assert(flat(each, n) == flat(each, (n - 1) as nat) + each(n - 1));
        if clean(flat(each, n)) {
            assert forall|i: int| 0 <= i < n implies clean(#[trigger] each(i)) by {
                if i < n - 1 {
                } else {
                    assert(i == n - 1);
                }
            }
        }
        if mild(flat(each, n)) {
            assert forall|i: int| 0 <= i < n implies mild(#[trigger] each(i)) by {
                if i < n - 1 {
                } else {
                    assert(i == n - 1);
                }
            }
        }
    }
}

proof fn small_steps(text: Seq<char>, column: ColumnName, depth: nat)
    ensures
        clean(enter_steps(depth)) && mild(enter_steps(depth)),
        clean(schema_enter_steps(depth)) && mild(schema_enter_steps(depth)),
        clean(text_steps(text)) && mild(text_steps(text)),
        clean(write_steps(text)) && mild(write_steps(text)),
        clean(column_steps(column)) && mild(column_steps(column)),
{
    reveal(enter_steps);
    reveal(schema_enter_steps);
    reveal(text_steps);
    reveal(write_steps);
    reveal(column_steps);
    assert forall|i: int| 0 <= i < column.path@.len() implies clean(
        #[trigger] each_text(column.path@)(i),
    ) && mild(each_text(column.path@)(i)) by {}
    flat_steps(each_text(column.path@), column.path@.len());
}

proof fn text_list_steps(texts: Seq<String>, columns: Seq<ColumnName>)
    ensures
        clean(flat(each_text(texts), texts.len())) && mild(flat(each_text(texts), texts.len())),
        clean(flat(each_column(columns), columns.len())) && mild(
            flat(each_column(columns), columns.len()),
        ),
{
    assert forall|i: int| 0 <= i < texts.len() implies clean(#[trigger] each_text(texts)(i))
        && mild(each_text(texts)(i)) by {
        reveal(text_steps);
    }
    flat_steps(each_text(texts), texts.len());
    assert forall|i: int| 0 <= i < columns.len() implies clean(#[trigger] each_column(columns)(i))
        && mild(each_column(columns)(i)) by {
        small_steps(Seq::empty(), columns[i], 0);
    }
    flat_steps(each_column(columns), columns.len());
}

proof fn type_is_plain(ty: DataType, depth: nat)
    ensures
        mild(type_steps(ty, depth)),
        clean(type_steps(ty, depth)) <==> plain_type(ty),
    decreases ty, 1nat,
{
    broadcast use joined_steps;

    let column: ColumnName = arbitrary();
    small_steps(Seq::empty(), column, depth);
    match ty {
        DataType::Primitive(p) => {
            reveal(primitive_steps);
            reveal(text_steps);
        },
        DataType::Array(a) => {
            small_steps(Seq::empty(), column, depth);
            type_is_plain(a.element_type, depth + 1);
        },
        DataType::Mapping(m) => {
            type_is_plain(m.key_type, depth + 1);
            type_is_plain(m.value_type, depth + 1);
        },
        DataType::Struct(s) => {
            schema_is_plain(*s, depth + 1);
        },
        DataType::Variant(s) => {
            schema_is_plain(*s, depth + 1);
        },
    }
}

proof fn schema_is_plain(schema: StructType, depth: nat)
    ensures
        mild(schema_steps(schema, depth)),
        clean(schema_steps(schema, depth)) <==> plain_schema(schema),
    decreases schema, 0nat,
{
    broadcast use joined_steps;

    small_steps(Seq::empty(), arbitrary(), depth);
    fields_are_plain(schema.fields@, depth);
}

proof fn fields_are_plain(fields: Seq<StructField>, depth: nat)
    ensures
        mild(flat(each_field(fields, depth), fields.len())),
        clean(flat(each_field(fields, depth), fields.len())) <==> all_of(each_plain_field(fields), fields.len()),
    decreases fields, 0nat,
{
    let each = each_field(fields, depth);
    let plain = each_plain_field(fields);
    assert forall|i: int| 0 <= i < fields.len() implies mild(#[trigger] each(i)) && (clean(each(i))
        <==> plain(i)) by {
        field_is_plain(fields[i], depth);
    }
    flat_steps(each, fields.len());
    if clean(flat(each, fields.len())) {
        assert forall|i: int| 0 <= i < fields.len() implies #[trigger] plain(i) by {
            assert(clean(each(i)));
        }
    }
    if all_of(plain, fields.len()) {
        assert forall|i: int| 0 <= i < fields.len() implies clean(#[trigger] each(i)) by {
            assert(plain(i));
        }
    }
}

proof fn field_is_plain(field: StructField, depth: nat)
    ensures
        mild(field_steps(field, depth)),
        clean(field_steps(field, depth)) <==> plain_field(field),
    decreases field, 0nat,
{
    broadcast use joined_steps;

    small_steps(field.name@, arbitrary(), depth);
    type_is_plain(field.data_type, depth);
    let refused = refuse(PlanShapeError::UnadmittedMap);
    assert(refused[0] is Refuse);
}

proof fn scalar_is_plain(value: Scalar, depth: nat)
    ensures
        mild(scalar_steps(value, depth)),
        clean(scalar_steps(value, depth)) <==> plain_scalar(value),
    decreases value, 1nat,
{
    broadcast use joined_steps;

    small_steps(Seq::empty(), arbitrary(), depth);
    match value {
        Scalar::String(s) => {
            small_steps(s@, arbitrary(), depth);
        },
        Scalar::Null(ty) => {
            type_is_plain(ty, depth + 1);
        },
        Scalar::Struct(s) => {
            fields_are_plain(s.fields@, depth + 1);
            scalars_are_plain(s.values@, depth + 1);
        },
        Scalar::Array(a) => {
            type_is_plain(a.array_type.element_type, depth + 1 + 1);
            small_steps(Seq::empty(), arbitrary(), depth + 1);
            scalars_are_plain(a.elements@, depth + 1);
        },
        Scalar::Mapping(m) => {
            type_is_plain(m.map_type.key_type, depth + 1 + 1);
            type_is_plain(m.map_type.value_type, depth + 1 + 1);
            small_steps(Seq::empty(), arbitrary(), depth + 1);
            let pairs = m.pairs@;
            let each = each_pair(pairs, depth + 1);
            let plain = each_plain_pair(pairs);
            assert forall|i: int| 0 <= i < pairs.len() implies mild(#[trigger] each(i)) && (clean(
                each(i),
            ) <==> plain(i)) by {
                scalar_is_plain(pairs[i].key, depth + 1);
                scalar_is_plain(pairs[i].value, depth + 1);
            }
            flat_steps(each, pairs.len());
            if clean(flat(each, pairs.len())) {
                assert forall|i: int| 0 <= i < pairs.len() implies #[trigger] plain(i) by {
                    assert(clean(each(i)));
                }
            }
            if all_of(plain, pairs.len()) {
                assert forall|i: int| 0 <= i < pairs.len() implies clean(#[trigger] each(i)) by {
                    assert(plain(i));
                }
            }
        },
        _ => {},
    }
}

proof fn scalars_are_plain(values: Seq<Scalar>, depth: nat)
    ensures
        mild(flat(each_scalar(values, depth), values.len())),
        clean(flat(each_scalar(values, depth), values.len())) <==> all_of(each_plain_scalar(values), values.len()),
    decreases values, 0nat,
{
    let each = each_scalar(values, depth);
    let plain = each_plain_scalar(values);
    assert forall|i: int| 0 <= i < values.len() implies mild(#[trigger] each(i)) && (clean(each(i))
        <==> plain(i)) by {
        scalar_is_plain(values[i], depth);
    }
    flat_steps(each, values.len());
    if clean(flat(each, values.len())) {
        assert forall|i: int| 0 <= i < values.len() implies #[trigger] plain(i) by {
            assert(clean(each(i)));
        }
    }
    if all_of(plain, values.len()) {
        assert forall|i: int| 0 <= i < values.len() implies clean(#[trigger] each(i)) by {
            assert(plain(i));
        }
    }
}

proof fn display_is_clean(ty: DataType)
    ensures
        mild(display_steps(ty)),
        clean(display_steps(ty)),
    decreases ty, 1nat,
{
    broadcast use joined_steps;

    reveal(write_steps);
    match ty {
        DataType::Array(a) => {
            display_is_clean(a.element_type);
        },
        DataType::Mapping(m) => {
            display_is_clean(m.key_type);
            display_is_clean(m.value_type);
        },
        DataType::Struct(s) => {
            displays_are_clean(s.fields@);
        },
        _ => {},
    }
}

proof fn displays_are_clean(fields: Seq<StructField>)
    ensures
        mild(flat(each_display(fields), fields.len())),
        clean(flat(each_display(fields), fields.len())),
    decreases fields, 0nat,
{
    broadcast use joined_steps;

    let each = each_display(fields);
    assert forall|i: int| 0 <= i < fields.len() implies mild(#[trigger] each(i)) && clean(
        each(i),
    ) by {
        reveal(write_steps);
        display_is_clean(fields[i].data_type);
    }
    flat_steps(each, fields.len());
}

proof fn expression_is_plain(expr: Expression, depth: nat)
    ensures
        mild(expression_steps(expr, depth)),
        clean(expression_steps(expr, depth)) <==> plain_expression(expr),
    decreases expr, 1nat,
{
    broadcast use joined_steps;

    small_steps(Seq::empty(), arbitrary(), depth);
    let refused = refuse(PlanShapeError::UnsupportedExpression);
    assert(refused[0] is Refuse);
    let unadmitted = refuse(PlanShapeError::UnadmittedMap);
    assert(unadmitted[0] is Refuse);
    match expr {
        Expression::Literal(value) => {
            scalar_is_plain(value, depth + 1);
        },
        Expression::Column(column) => {
            small_steps(Seq::empty(), column, depth);
        },
        Expression::Predicate(predicate) => {
            predicate_is_plain(*predicate, depth + 1);
        },
        Expression::Struct(exprs, nullability) => {
            expressions_are_plain(exprs@, depth + 1);
            if let Some(inner) = nullability {
                expression_is_plain(*inner, depth + 1);
            }
        },
        Expression::StructPatch(patch) => {
            if let Some(path) = patch.input_path {
                small_steps(Seq::empty(), path, depth);
            }
            expressions_are_plain(patch.prepended_fields@, depth + 1);
            expressions_are_plain(patch.appended_fields@, depth + 1);
        },
        Expression::Unary(_, inner) => {
            expression_is_plain(*inner, depth + 1);
        },
        Expression::Binary(_, left, right) => {
            expression_is_plain(*left, depth + 1);
            expression_is_plain(*right, depth + 1);
        },
        Expression::Variadic(_, exprs) => {
            expressions_are_plain(exprs@, depth + 1);
        },
        Expression::ParseJson(inner, schema) => {
            expression_is_plain(*inner, depth + 1);
            schema_is_plain(schema, depth + 1);
        },
        Expression::MapToStruct(inner) => {
            expression_is_plain(*inner, depth + 1);
        },
        Expression::Cast(inner, target) => {
            expression_is_plain(*inner, depth + 1);
            type_is_plain(target, depth + 1);
            small_steps("cast_to_"@, arbitrary(), depth);
            display_is_clean(target);
        },
        _ => {},
    }
}

proof fn expressions_are_plain(exprs: Seq<Expression>, depth: nat)
    ensures
        mild(flat(each_expression(exprs, depth), exprs.len())),
        clean(flat(each_expression(exprs, depth), exprs.len())) <==> all_of(each_plain_expression(exprs), exprs.len()),
    decreases exprs, 0nat,
{
    let each = each_expression(exprs, depth);
    let plain = each_plain_expression(exprs);
    assert forall|i: int| 0 <= i < exprs.len() implies mild(#[trigger] each(i)) && (clean(each(i))
        <==> plain(i)) by {
        expression_is_plain(exprs[i], depth);
    }
    flat_steps(each, exprs.len());
    if clean(flat(each, exprs.len())) {
        assert forall|i: int| 0 <= i < exprs.len() implies #[trigger] plain(i) by {
            assert(clean(each(i)));
        }
    }
    if all_of(plain, exprs.len()) {
        assert forall|i: int| 0 <= i < exprs.len() implies clean(#[trigger] each(i)) by {
            assert(plain(i));
        }
    }
}

proof fn predicate_is_plain(predicate: Predicate, depth: nat)
    ensures
        mild(predicate_steps(predicate, depth)),
        clean(predicate_steps(predicate, depth)) <==> plain_predicate(predicate),
    decreases predicate, 1nat,
{
    broadcast use joined_steps;

    small_steps(Seq::empty(), arbitrary(), depth);
    let refused = refuse(PlanShapeError::UnsupportedExpression);
    assert(refused[0] is Refuse);
    match predicate {
        Predicate::BooleanExpression(expr) => {
            expression_is_plain(expr, depth + 1);
        },
        Predicate::Not(inner) => {
            predicate_is_plain(*inner, depth + 1);
        },
        Predicate::Unary(_, expr) => {
            expression_is_plain(*expr, depth + 1);
        },
        Predicate::Binary(_, left, right) => {
            expression_is_plain(*left, depth + 1);
            expression_is_plain(*right, depth + 1);
        },
        Predicate::Junction(_, preds) => {
            predicates_are_plain(preds@, depth + 1);
        },
        _ => {},
    }
}

proof fn predicates_are_plain(preds: Seq<Predicate>, depth: nat)
    ensures
        mild(flat(each_predicate(preds, depth), preds.len())),
        clean(flat(each_predicate(preds, depth), preds.len())) <==> all_of(each_plain_predicate(preds), preds.len()),
    decreases preds, 0nat,
{
    let each = each_predicate(preds, depth);
    let plain = each_plain_predicate(preds);
    assert forall|i: int| 0 <= i < preds.len() implies mild(#[trigger] each(i)) && (clean(each(i))
        <==> plain(i)) by {
        predicate_is_plain(preds[i], depth);
    }
    flat_steps(each, preds.len());
    if clean(flat(each, preds.len())) {
        assert forall|i: int| 0 <= i < preds.len() implies #[trigger] plain(i) by {
            assert(clean(each(i)));
        }
    }
    if all_of(plain, preds.len()) {
        assert forall|i: int| 0 <= i < preds.len() implies clean(#[trigger] each(i)) by {
            assert(plain(i));
        }
    }
}

proof fn scan_is_plain(scan: FileScan)
    ensures
        mild(scan_steps(scan)),
        clean(scan_steps(scan)) <==> plain_scan(scan),
{
    broadcast use joined_steps;

    reveal(scan_steps);
    schema_is_plain(scan.schema, 1);
    text_list_steps(scan.file_constant_columns@, Seq::empty());
    let files = scan.files@;
    let each = each_file(files);
    assert forall|i: int| 0 <= i < files.len() implies mild(#[trigger] each(i)) && (clean(each(i))
        <==> all_of(
        each_plain_scalar(files[i].file_constants@),
        files[i].file_constants@.len(),
    )) by {
        small_steps(files[i].meta.location@, arbitrary(), 1);
        scalars_are_plain(files[i].file_constants@, 1);
    }
    flat_steps(each, files.len());
    if clean(flat(each, files.len())) {
        assert forall|i: int| 0 <= i < files.len() implies all_of(
            each_plain_scalar((#[trigger] files[i]).file_constants@),
            files[i].file_constants@.len(),
        ) by {
            assert(clean(each(i)));
        }
    }
}

proof fn rows_are_plain(rows: Seq<Vec<Scalar>>)
    ensures
        mild(flat(each_row(rows), rows.len())),
        clean(flat(each_row(rows), rows.len())) <==> forall|i: int|
            0 <= i < rows.len() ==> all_of(each_plain_scalar((#[trigger] rows[i])@), rows[i]@.len()),
{
    broadcast use joined_steps;

    let each = each_row(rows);
    assert forall|i: int| 0 <= i < rows.len() implies mild(#[trigger] each(i)) && (clean(each(i))
        <==> all_of(each_plain_scalar(rows[i]@), rows[i]@.len())) by {
        small_steps(Seq::empty(), arbitrary(), 1);
        scalars_are_plain(rows[i]@, 1);
    }
    flat_steps(each, rows.len());
    if clean(flat(each, rows.len())) {
        assert forall|i: int| 0 <= i < rows.len() implies all_of(
            each_plain_scalar((#[trigger] rows[i])@),
            rows[i]@.len(),
        ) by {
            assert(clean(each(i)));
        }
    }
}

proof fn agg_is_clean(agg: Agg)
    ensures
        mild(agg_steps(agg)) && clean(agg_steps(agg)),
{
    broadcast use joined_steps;

    reveal(agg_steps);
    small_steps(Seq::empty(), arbitrary(), 1);
    match agg {
        Agg::Min(c) | Agg::Max(c) | Agg::Sum(c) | Agg::Count(c) => {
            small_steps(Seq::empty(), c, 1);
        },
        Agg::CountStar => {},
        Agg::MinNonNullBy(a) | Agg::MaxNonNullBy(a) => {
            small_steps(Seq::empty(), a.value, 1);
            small_steps(Seq::empty(), a.null_sentinel, 1);
            small_steps(Seq::empty(), a.key, 1);
        },
    }
}

proof fn operator_is_plain(op: Operator)
    ensures
        mild(operator_steps(op)),
        clean(operator_steps(op)) <==> plain_operator(op),
{
    broadcast use joined_steps;

    reveal(operator_steps);
    match op {
        Operator::ScanParquet(scan) => {
            scan_is_plain(scan);
        },
        Operator::ScanJson(scan) => {
            scan_is_plain(scan);
        },
        Operator::Values(values) => {
            schema_is_plain(values.schema, 1);
            rows_are_plain(values.rows@);
        },
        Operator::Project(project) => {
            expression_is_plain(project.expr, 1);
            schema_is_plain(project.schema, 1);
        },
        Operator::Filter(filter) => {
            predicate_is_plain(filter.predicate, 1);
        },
        Operator::DynamicScan(scan) => {
            reveal(dynamic_scan_steps);
            schema_is_plain(scan.schema, 1);
            text_list_steps(scan.file_constant_columns@, Seq::empty());
            small_steps(scan.base_url@, scan.path_column, 1);
            small_steps(scan.base_url@, scan.file_size_column, 1);
            small_steps(scan.base_url@, scan.last_modified_column, 1);
            small_steps(scan.base_url@, scan.dv_column, 1);
        },
        Operator::Aggregate(aggregate) => {
            reveal(aggregate_steps);
            schema_is_plain(aggregate.schema, 1);
            text_list_steps(Seq::empty(), aggregate.group_by@);
            let aggs = aggregate.aggs@;
            assert forall|i: int| 0 <= i < aggs.len() implies mild(#[trigger] each_agg(aggs)(i))
                && clean(each_agg(aggs)(i)) by {
                agg_is_clean(aggs[i]);
            }
            flat_steps(each_agg(aggs), aggs.len());
        },
        Operator::SemiJoin(join) => {
            text_list_steps(Seq::empty(), join.probe_keys@);
            text_list_steps(Seq::empty(), join.build_keys@);
        },
        Operator::UnionAll => {},
    }
}

proof fn topology_is_clean(nodes: Seq<PlanNode>, index: nat)
    requires
        index < nodes.len() <= u32::MAX,
    ensures
        clean(topology_steps(nodes, index)) <==> ordered_node(nodes[index as int], index as int),
{
    broadcast use joined_steps;

    reveal(topology_steps);
    let node = nodes[index as int];
    small_steps(Seq::empty(), arbitrary(), 1);
    let arity = refuse(PlanShapeError::InvalidArity { node: index as usize });
    assert(arity[0] is Refuse);
    let inputs = node.inputs@;
    let each = each_input(inputs, index);
    let order = refuse(PlanShapeError::InvalidInput { node: index as usize });
    assert(order[0] is Refuse);
    assert forall|k: int| 0 <= k < inputs.len() implies (clean(#[trigger] each(k)) <==> inputs[k]
        < index) by {}
    flat_steps(each, inputs.len());
    if clean(flat(each, inputs.len())) {
        assert forall|k: int| 0 <= k < inputs.len() implies (#[trigger] inputs[k]) < index by {
            assert(clean(each(k)));
        }
    }
}

/// Steps that refuse nothing fail only where an allowance is exhausted, and steps that refuse something
/// fail.
pub proof fn clean_runs_exhaust(limits: TaskLimits, tally: Tally, steps: Seq<Step>)
    ensures
        clean(steps) ==> (run(limits, tally, steps) matches Err(error) ==> error is ResourceExhausted),
        run(limits, tally, steps) matches Err(error) ==> error is ResourceExhausted || exists|i: int|
            0 <= i < steps.len() && #[trigger] steps[i] == Step::Refuse(error),
        !clean(steps) ==> run(limits, tally, steps) is Err,
    decreases steps.len(),
{
    if steps.len() > 0 {
        let before = steps.drop_last();
        clean_runs_exhaust(limits, tally, before);
        assert forall|i: int| 0 <= i < before.len() implies before[i] == #[trigger] steps[i] by {}
        if clean(steps) {
            assert forall|i: int| 0 <= i < before.len() implies !(#[trigger] before[i]
                is Refuse) by {
                assert(!(steps[i] is Refuse));
            }
            assert(!(steps[steps.len() - 1] is Refuse));
        } else if clean(before) {
            let i = choose|i: int| 0 <= i < steps.len() && #[trigger] steps[i] is Refuse;
            if i < before.len() {
                assert(!(before[i] is Refuse));
            }
            assert(steps.last() is Refuse);
        }
        if let Err(error) = run(limits, tally, before) {
            if !(error is ResourceExhausted) {
                let i = choose|i: int|
                    0 <= i < before.len() && #[trigger] before[i] == Step::Refuse(error);
                assert(steps[i] == Step::Refuse(error));
            }
        } else if run(limits, tally, steps) is Err {
            assert(steps[steps.len() - 1] == steps.last());
        }
    }
}

/// A plan is accepted where every node has the inputs that its operator takes, all of them before it,
/// nothing in it is opaque, unknown, patched or annotated, and no allowance is exhausted. A plan that
/// breaks any of this is refused, and only an exhausted allowance refuses one that keeps it.
pub proof fn ordered_plain_plans_are_accepted(plan: Plan, limits: TaskLimits, scratch: nat)
    requires
        0 < plan.nodes@.len() <= scratch,
        plan.nodes@.len() <= u32::MAX,
    ensures
        ({
            let nodes = plan.nodes@;
            let kept = forall|i: int|
                0 <= i < nodes.len() ==> ordered_node(#[trigger] nodes[i], i) && plain_operator(
                    nodes[i].op,
                );
            &&& kept ==> (inspected(plan, limits, scratch) matches Err(error) ==> error
                is ResourceExhausted)
            &&& !kept ==> inspected(plan, limits, scratch) is Err
        }),
{
    plans_refuse_what_is_out_of_order(plan.nodes@);
    clean_runs_exhaust(limits, Tally::zero(), plan_steps(plan.nodes@));
}

/// The steps of a plan refuse something exactly where a node is out of order or not plain.
pub proof fn plans_refuse_what_is_out_of_order(nodes: Seq<PlanNode>)
    requires
        nodes.len() <= u32::MAX,
    ensures
        clean(plan_steps(nodes)) <==> forall|i: int|
            0 <= i < nodes.len() ==> ordered_node(#[trigger] nodes[i], i) && plain_operator(
                nodes[i].op,
            ),
{
    broadcast use joined_steps;

    let each = each_node(nodes);
    assert forall|i: int| 0 <= i < nodes.len() implies (clean(#[trigger] each(i)) <==> ordered_node(
        nodes[i],
        i,
    ) && plain_operator(nodes[i].op)) by {
        topology_is_clean(nodes, i as nat);
        operator_is_plain(nodes[i].op);
    }
    flat_steps(each, nodes.len());
    if clean(flat(each, nodes.len())) {
        assert forall|i: int| 0 <= i < nodes.len() implies ordered_node(#[trigger] nodes[i], i)
            && plain_operator(nodes[i].op) by {
            assert(clean(each(i)));
        }
    }
    assert(clean(wire_field()));
}

/// A plan is refused for the inputs of a node only where that node has another number of inputs than
/// its operator takes, or one that does not precede it.
pub proof fn refused_nodes_are_out_of_order(plan: Plan, limits: TaskLimits, scratch: nat)
    requires
        plan.nodes@.len() <= u32::MAX,
    ensures
        inspected(plan, limits, scratch) matches Err(PlanShapeError::InvalidArity { node })
            ==> exists|i: int|
            0 <= i < plan.nodes@.len() && !ordered_node(#[trigger] plan.nodes@[i], i),
        inspected(plan, limits, scratch) matches Err(PlanShapeError::InvalidInput { node })
            ==> exists|i: int|
            0 <= i < plan.nodes@.len() && !ordered_node(#[trigger] plan.nodes@[i], i),
{
    broadcast use joined_steps;

    let nodes = plan.nodes@;
    if forall|i: int| 0 <= i < nodes.len() ==> ordered_node(#[trigger] nodes[i], i) {
        let each = each_node(nodes);
        assert forall|i: int| 0 <= i < nodes.len() implies mild(#[trigger] each(i)) by {
            topology_is_clean(nodes, i as nat);
            operator_is_plain(nodes[i].op);
        }
        flat_steps(each, nodes.len());
        assert(mild(wire_field()));
        let steps = plan_steps(nodes);
        assert(mild(steps));
        clean_runs_exhaust(limits, Tally::zero(), steps);
        if let Err(error) = run(limits, Tally::zero(), steps) {
            if !(error is ResourceExhausted) {
                let i = choose|i: int|
                    0 <= i < steps.len() && #[trigger] steps[i] == Step::Refuse(error);
                assert(steps[i] matches Step::Refuse(_));
            }
        }
    }
}

} // verus!
