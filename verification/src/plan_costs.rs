//! What the parts of a plan cost an inspection, and how the costs of a whole plan add up.
//!
//! Every part costs what its own parts cost and a fixed amount, so that no part of an accepted plan is
//! left out of what the inspection reports.

use crate::accounting::{Resource, TaskLimits};
use crate::bytes::utf8;
use crate::inspection::{
    allowed, bytes_of, flat, inspections_add_up, nodes_of, work_of, PlanShapeError, Step, Tally,
};
use crate::plan::{
    Agg, Aggregate, DynamicScan, Expression, FileScan, MapPair, Operator, Plan, PlanNode, Predicate,
    Scalar, ScanFile,
};
use crate::plan_acceptance::{
    clean, ordered_node, plain_operator, plans_refuse_what_is_out_of_order,
};
use crate::plan_shape::{
    agg_steps, aggregate_steps, column_steps, digits, display_steps, dynamic_scan_steps, each_agg,
    each_column, each_display, each_expression, each_field, each_file, each_input, each_node,
    each_pair, each_predicate, each_row, each_scalar, each_text, enter_steps, expression_steps,
    field_steps, inspected, node_depth, operator_steps, plan_steps, predicate_steps,
    primitive_steps, primitive_text, scalar_steps, scan_steps, schema_enter_steps, schema_steps,
    text_steps, topology_steps, type_steps, unless, write_steps,
};
use crate::schema::{ColumnName, DataType, PrimitiveType, StructField, StructType};
use vstd::prelude::*;

verus! {

/// What steps cost: their work, the bytes that they encode, the schema nodes that they enter, how deep
/// they nest, and how deep the plan is behind them.
pub struct Cost {
    /// Work.
    pub work: nat,
    /// Encoded bytes.
    pub bytes: nat,
    /// Schema nodes.
    pub nodes: nat,
    /// The deepest nesting.
    pub nesting: nat,
    /// The deepest node.
    pub depth: nat,
}

/// The cost of a part of a node.
pub open spec fn cost(work: nat, bytes: nat, nodes: nat, nesting: nat) -> Cost {
    Cost { work, bytes, nodes, nesting, depth: 0 }
}

/// The cost of a node at a depth.
pub open spec fn at_depth(depth: nat) -> Cost {
    Cost { work: 0, bytes: 0, nodes: 0, nesting: 0, depth }
}

/// The greater of two amounts.
pub open spec fn deeper(left: nat, right: nat) -> nat {
    if left >= right {
        left
    } else {
        right
    }
}

impl Cost {
    /// Both costs: the sums, and the deeper of both.
    pub open spec fn and(self, other: Cost) -> Cost {
        Cost {
            work: self.work + other.work,
            bytes: self.bytes + other.bytes,
            nodes: self.nodes + other.nodes,
            nesting: deeper(self.nesting, other.nesting),
            depth: deeper(self.depth, other.depth),
        }
    }
}

/// The costs of the first `n` items.
pub open spec fn total(each: spec_fn(int) -> Cost, n: nat) -> Cost
    decreases n,
{
    if n == 0 {
        cost(0, 0, 0, 0)
    } else {
        total(each, (n - 1) as nat).and(each(n - 1))
    }
}

/// The deepest nesting that steps enter.
pub open spec fn nesting_of(steps: Seq<Step>) -> nat
    decreases steps.len(),
{
    if steps.len() == 0 {
        0
    } else {
        deeper(
            nesting_of(steps.drop_last()),
            match steps.last() {
                Step::Nest(depth) => depth,
                _ => 0,
            },
        )
    }
}

/// The deepest node that steps tell of.
pub open spec fn depth_of(steps: Seq<Step>) -> nat
    decreases steps.len(),
{
    if steps.len() == 0 {
        0
    } else {
        deeper(
            depth_of(steps.drop_last()),
            match steps.last() {
                Step::Depth(depth) => depth,
                _ => 0,
            },
        )
    }
}

/// What steps cost.
pub open spec fn cost_of(steps: Seq<Step>) -> Cost {
    Cost {
        work: work_of(steps),
        bytes: bytes_of(steps),
        nodes: nodes_of(steps),
        nesting: nesting_of(steps),
        depth: depth_of(steps),
    }
}

/// No steps cost nothing.
pub broadcast proof fn no_steps_cost_nothing()
    ensures
        #[trigger] cost_of(Seq::<Step>::empty()) == cost(0, 0, 0, 0),
{
}

/// A step costs itself.
pub broadcast proof fn single_steps_cost_themselves(step: Step)
    ensures
        #[trigger] cost_of(Seq::<Step>::empty().push(step)) == (match step {
            Step::Work(amount) => cost(amount, 0, 0, 0),
            Step::Bytes(amount) => cost(0, amount, 0, 0),
            Step::SchemaNode => cost(0, 0, 1, 0),
            Step::Nest(depth) => cost(0, 0, 0, depth),
            Step::Depth(depth) => at_depth(depth),
            Step::Refuse(_) => cost(0, 0, 0, 0),
        }),
{
    let steps = Seq::<Step>::empty().push(step);
    assert(steps.drop_last() =~= Seq::<Step>::empty());
}

/// Steps that follow each other cost both.
pub broadcast proof fn joined_steps_cost_both(a: Seq<Step>, b: Seq<Step>)
    ensures
        #[trigger] cost_of(a + b) == cost_of(a).and(cost_of(b)),
    decreases b.len(),
{
    if b.len() == 0 {
        assert(a + b =~= a);
    } else {
        joined_steps_cost_both(a, b.drop_last());
        assert((a + b).drop_last() =~= a + b.drop_last());
        assert((a + b).last() == b.last());
    }
}

/// A refusal costs nothing.
pub broadcast proof fn refusals_cost_nothing(holds: bool, error: PlanShapeError)
    ensures
        #[trigger] cost_of(unless(holds, error)) == cost(0, 0, 0, 0),
{
    broadcast use {no_steps_cost_nothing, single_steps_cost_themselves};

}

/// How steps cost.
pub broadcast group group_cost {
    no_steps_cost_nothing,
    single_steps_cost_themselves,
    joined_steps_cost_both,
    refusals_cost_nothing,
}

/// The steps of a list cost what those of its items cost.
pub proof fn lists_cost_their_items(each: spec_fn(int) -> Seq<Step>, costs: spec_fn(int) -> Cost, n: nat)
    requires
        forall|i: int| 0 <= i < n ==> cost_of(#[trigger] each(i)) == costs(i),
    ensures
        cost_of(flat(each, n)) == total(costs, n),
    decreases n,
{
    broadcast use group_cost;

    if n > 0 {
        lists_cost_their_items(each, costs, (n - 1) as nat);
        assert(cost_of(each(n - 1)) == costs(n - 1));
    }
}

/// What each text costs.
pub open spec fn text_costs(texts: Seq<String>) -> spec_fn(int) -> Cost {
    |i: int| cost(0, 12 + utf8(texts[i]@).len(), 0, 0)
}

/// A column costs a wire field, and a step, a wire field and its bytes for each name of its path.
pub open spec fn column_cost(column: ColumnName) -> Cost {
    cost(column.path@.len(), 12, 0, 0).and(total(text_costs(column.path@), column.path@.len()))
}

/// What each column costs.
pub open spec fn column_costs(columns: Seq<ColumnName>) -> spec_fn(int) -> Cost {
    |i: int| column_cost(columns[i])
}

broadcast proof fn entered_parts_cost_a_step(depth: nat)
    ensures
        #![trigger enter_steps(depth)]
        #![trigger schema_enter_steps(depth)]
        cost_of(enter_steps(depth)) == cost(1, 12, 0, depth),
        cost_of(schema_enter_steps(depth)) == cost(1, 12, 1, depth),
{
    broadcast use group_cost;

    reveal(enter_steps);
    reveal(schema_enter_steps);
}

broadcast proof fn texts_cost_their_bytes(text: Seq<char>)
    ensures
        #![trigger text_steps(text)]
        #![trigger write_steps(text)]
        cost_of(text_steps(text)) == cost(0, 12 + utf8(text).len(), 0, 0),
        cost_of(write_steps(text)) == cost(1, utf8(text).len(), 0, 0),
{
    broadcast use group_cost;

    reveal(text_steps);
    reveal(write_steps);
}

proof fn text_lists_cost_their_texts(texts: Seq<String>)
    ensures
        cost_of(flat(each_text(texts), texts.len())) == total(text_costs(texts), texts.len()),
{
    let each = each_text(texts);
    assert forall|i: int| 0 <= i < texts.len() implies cost_of(#[trigger] each(i)) == text_costs(
        texts,
    )(i) by {
        texts_cost_their_bytes(texts[i]@);
    }
    lists_cost_their_items(each, text_costs(texts), texts.len());
}

broadcast proof fn columns_cost_their_paths(column: ColumnName)
    ensures
        cost_of(#[trigger] column_steps(column)) == column_cost(column),
{
    broadcast use group_cost;

    reveal(column_steps);
    text_lists_cost_their_texts(column.path@);
}

proof fn column_lists_cost_their_columns(columns: Seq<ColumnName>)
    ensures
        cost_of(flat(each_column(columns), columns.len())) == total(
            column_costs(columns),
            columns.len(),
        ),
{
    let each = each_column(columns);
    assert forall|i: int| 0 <= i < columns.len() implies cost_of(#[trigger] each(i))
        == column_costs(columns)(i) by {
        columns_cost_their_paths(columns[i]);
    }
    lists_cost_their_items(each, column_costs(columns), columns.len());
}

broadcast group group_parts {
    group_cost,
    entered_parts_cost_a_step,
    texts_cost_their_bytes,
    columns_cost_their_paths,
}

/// What each field costs.
pub open spec fn field_costs(fields: Seq<StructField>, depth: nat) -> spec_fn(int) -> Cost {
    |i: int| cost_of(field_steps(fields[i], depth))
}

proof fn field_lists_cost_their_fields(fields: Seq<StructField>, depth: nat)
    ensures
        cost_of(flat(each_field(fields, depth), fields.len())) == total(
            field_costs(fields, depth),
            fields.len(),
        ),
{
    lists_cost_their_items(each_field(fields, depth), field_costs(fields, depth), fields.len());
}

/// A type costs what its parts cost: a primitive two wire fields and its parameters, a list or a map
/// its element types one level deeper, and a structure its fields.
pub proof fn types_cost_their_parts(ty: DataType, depth: nat)
    ensures
        cost_of(type_steps(ty, depth)) == (match ty {
            DataType::Primitive(PrimitiveType::Decimal { .. }) => cost(1, 60, 1, depth),
            DataType::Primitive(PrimitiveType::Geometry { crs }) => cost(
                1,
                48 + utf8(crs@).len(),
                1,
                depth,
            ),
            DataType::Primitive(PrimitiveType::Geography { crs }) => cost(
                1,
                60 + utf8(crs@).len(),
                1,
                depth,
            ),
            DataType::Primitive(_) => cost(1, 36, 1, depth),
            DataType::Array(a) => cost(2, 36, 2, depth).and(
                cost_of(type_steps(a.element_type, depth + 1)),
            ),
            DataType::Mapping(m) => cost(2, 36, 2, depth).and(
                cost_of(type_steps(m.key_type, depth + 1)),
            ).and(cost_of(type_steps(m.value_type, depth + 1))),
            DataType::Struct(s) => cost(1, 12, 1, depth).and(
                cost_of(schema_steps(*s, depth + 1)),
            ),
            DataType::Variant(s) => cost(1, 12, 1, depth).and(
                cost_of(schema_steps(*s, depth + 1)),
            ),
        }),
{
    broadcast use group_parts;

    reveal(primitive_steps);
}

/// A field costs its name, its type and a wire field, and a schema costs its fields.
pub proof fn schemas_cost_their_fields(schema: StructType, field: StructField, depth: nat)
    ensures
        cost_of(schema_steps(schema, depth)) == cost(1, 12, 1, depth).and(
            total(field_costs(schema.fields@, depth), schema.fields@.len()),
        ),
        cost_of(field_steps(field, depth)) == cost(1, 36 + utf8(field.name@).len(), 1, depth).and(
            cost_of(type_steps(field.data_type, depth)),
        ),
{
    broadcast use group_parts;

    field_lists_cost_their_fields(schema.fields@, depth);
}

/// What each literal costs.
pub open spec fn scalar_costs(values: Seq<Scalar>, depth: nat) -> spec_fn(int) -> Cost {
    |i: int| cost_of(scalar_steps(values[i], depth))
}

/// What each entry of a map literal costs.
pub open spec fn pair_costs(pairs: Seq<MapPair>, depth: nat) -> spec_fn(int) -> Cost {
    |i: int|
        cost(0, 12, 0, 0).and(cost_of(scalar_steps(pairs[i].key, depth))).and(
            cost_of(scalar_steps(pairs[i].value, depth)),
        )
}

proof fn scalar_lists_cost_their_values(values: Seq<Scalar>, depth: nat)
    ensures
        cost_of(flat(each_scalar(values, depth), values.len())) == total(
            scalar_costs(values, depth),
            values.len(),
        ),
{
    lists_cost_their_items(each_scalar(values, depth), scalar_costs(values, depth), values.len());
}

/// A literal costs what it holds: a text or a byte string its bytes, a decimal its number, and anything
/// that has parts its type and each of them.
#[verifier::rlimit(80)]
pub proof fn literals_cost_their_parts(value: Scalar, depth: nat)
    ensures
        cost_of(scalar_steps(value, depth)) == (match value {
            Scalar::String(s) => cost(1, 24 + utf8(s@).len(), 0, depth),
            Scalar::Binary(b) => cost(1, 24 + b@.len(), 0, depth),
            Scalar::Decimal(_) => cost(1, 88, 0, depth),
            Scalar::Null(ty) => cost(1, 12, 0, depth).and(cost_of(type_steps(ty, depth + 1))),
            Scalar::Struct(s) => cost(1, 24, 0, depth).and(
                total(field_costs(s.fields@, depth + 1), s.fields@.len()),
            ).and(total(scalar_costs(s.values@, depth + 1), s.values@.len())),
            Scalar::Array(a) => cost(2, 48, 1, depth + 1).and(
                cost_of(type_steps(a.array_type.element_type, depth + 2)),
            ).and(total(scalar_costs(a.elements@, depth + 1), a.elements@.len())),
            Scalar::Mapping(m) => cost(2, 48, 1, depth + 1).and(
                cost_of(type_steps(m.map_type.key_type, depth + 2)),
            ).and(cost_of(type_steps(m.map_type.value_type, depth + 2))).and(
                total(pair_costs(m.pairs@, depth + 1), m.pairs@.len()),
            ),
            _ => cost(1, 24, 0, depth),
        }),
{
    broadcast use group_parts;

    match value {
        Scalar::Struct(s) => {
            field_lists_cost_their_fields(s.fields@, depth + 1);
            scalar_lists_cost_their_values(s.values@, depth + 1);
        },
        Scalar::Array(a) => {
            scalar_lists_cost_their_values(a.elements@, depth + 1);
        },
        Scalar::Mapping(m) => {
            let each = each_pair(m.pairs@, depth + 1);
            let costs = pair_costs(m.pairs@, depth + 1);
            assert forall|i: int| 0 <= i < m.pairs@.len() implies cost_of(#[trigger] each(i))
                == costs(i) by {}
            lists_cost_their_items(each, costs, m.pairs@.len());
        },
        _ => {},
    }
}

/// What writing each field of a structure's name costs.
pub open spec fn display_costs(fields: Seq<StructField>) -> spec_fn(int) -> Cost {
    |i: int|
        cost(
            if i == 0 {
                2
            } else {
                3
            },
            utf8(fields[i].name@).len() + (if i == 0 {
                2nat
            } else {
                4
            }),
            0,
            0,
        ).and(cost_of(display_steps(fields[i].data_type)))
}

proof fn punctuation()
    ensures
        utf8("array<"@).len() == 6,
        utf8("map<"@).len() == 4,
        utf8("struct<"@).len() == 7,
        utf8(">"@).len() == 1,
        utf8(", "@).len() == 2,
        utf8(": "@).len() == 2,
        utf8(","@).len() == 1,
        utf8(")"@).len() == 1,
        utf8("variant"@).len() == 7,
        utf8("cast_to_"@).len() == 8,
{
    reveal_strlit("array<");
    reveal_strlit("map<");
    reveal_strlit("struct<");
    reveal_strlit(">");
    reveal_strlit(", ");
    reveal_strlit(": ");
    reveal_strlit(",");
    reveal_strlit(")");
    reveal_strlit("variant");
    reveal_strlit("cast_to_");
    vstd::utf8::is_ascii_chars_encode_utf8("array<"@);
    vstd::utf8::is_ascii_chars_encode_utf8("map<"@);
    vstd::utf8::is_ascii_chars_encode_utf8("struct<"@);
    vstd::utf8::is_ascii_chars_encode_utf8(">"@);
    vstd::utf8::is_ascii_chars_encode_utf8(", "@);
    vstd::utf8::is_ascii_chars_encode_utf8(": "@);
    vstd::utf8::is_ascii_chars_encode_utf8(","@);
    vstd::utf8::is_ascii_chars_encode_utf8(")"@);
    vstd::utf8::is_ascii_chars_encode_utf8("variant"@);
    vstd::utf8::is_ascii_chars_encode_utf8("cast_to_"@);
}

/// Writing a type's name costs a step for each piece of it, and its bytes.
pub proof fn names_cost_their_bytes(ty: DataType)
    ensures
        cost_of(display_steps(ty)) == (match ty {
            DataType::Primitive(PrimitiveType::Decimal { precision, scale }) => cost(
                5,
                utf8(primitive_text(ty->Primitive_0)).len() + digits(precision) + digits(scale) + 2,
                0,
                0,
            ),
            DataType::Primitive(PrimitiveType::Geometry { crs }) => cost(
                3,
                utf8(primitive_text(ty->Primitive_0)).len() + utf8(crs@).len() + 1,
                0,
                0,
            ),
            DataType::Primitive(PrimitiveType::Geography { crs }) => cost(
                3,
                utf8(primitive_text(ty->Primitive_0)).len() + utf8(crs@).len() + 1,
                0,
                0,
            ),
            DataType::Primitive(p) => cost(1, utf8(primitive_text(p)).len(), 0, 0),
            DataType::Array(a) => cost(2, 7, 0, 0).and(cost_of(display_steps(a.element_type))),
            DataType::Mapping(m) => cost(3, 7, 0, 0).and(cost_of(display_steps(m.key_type))).and(
                cost_of(display_steps(m.value_type)),
            ),
            DataType::Struct(s) => cost(2, 8, 0, 0).and(
                total(display_costs(s.fields@), s.fields@.len()),
            ),
            DataType::Variant(_) => cost(1, 7, 0, 0),
        }),
{
    broadcast use group_parts;

    punctuation();
    if let DataType::Struct(s) = ty {
        let fields = s.fields@;
        let each = each_display(fields);
        let costs = display_costs(fields);
        assert forall|i: int| 0 <= i < fields.len() implies cost_of(#[trigger] each(i)) == costs(
            i,
        ) by {}
        lists_cost_their_items(each, costs, fields.len());
    }
}

/// What each expression costs.
pub open spec fn expression_costs(exprs: Seq<Expression>, depth: nat) -> spec_fn(int) -> Cost {
    |i: int| cost_of(expression_steps(exprs[i], depth))
}

/// What each predicate costs.
pub open spec fn predicate_costs(preds: Seq<Predicate>, depth: nat) -> spec_fn(int) -> Cost {
    |i: int| cost_of(predicate_steps(preds[i], depth))
}

proof fn expression_lists_cost_their_items(exprs: Seq<Expression>, depth: nat)
    ensures
        cost_of(flat(each_expression(exprs, depth), exprs.len())) == total(
            expression_costs(exprs, depth),
            exprs.len(),
        ),
{
    lists_cost_their_items(
        each_expression(exprs, depth),
        expression_costs(exprs, depth),
        exprs.len(),
    );
}

/// What an expression costs: a step, a few wire fields, and each of its parts one level deeper.
pub open spec fn expression_cost(expr: Expression, depth: nat) -> Cost {
    match expr {
        Expression::Opaque(_) => cost(1, 12, 0, depth),
        Expression::Unknown(_) => cost(1, 12, 0, depth),
        Expression::Literal(s) => cost(1, 12, 0, depth).and(
            cost_of(scalar_steps(s, depth + 1)),
        ),
        Expression::Column(c) => cost(1, 12, 0, depth).and(column_cost(c)),
        Expression::Predicate(p) => cost(1, 12, 0, depth).and(
            cost_of(predicate_steps(*p, depth + 1)),
        ),
        Expression::Struct(exprs, nullability) => {
            let whole = cost(1, 24, 0, depth).and(
                total(expression_costs(exprs@, depth + 1), exprs@.len()),
            );
            match nullability {
                Some(inner) => whole.and(cost_of(expression_steps(*inner, depth + 1))),
                None => whole,
            }
        },
        Expression::StructPatch(patch) => {
            let path = match patch.input_path {
                Some(path) => column_cost(path),
                None => cost(0, 0, 0, 0),
            };
            cost(1, 24, 0, depth).and(path).and(
                total(
                    expression_costs(patch.prepended_fields@, depth + 1),
                    patch.prepended_fields@.len(),
                ),
            ).and(
                total(
                    expression_costs(patch.appended_fields@, depth + 1),
                    patch.appended_fields@.len(),
                ),
            )
        },
        Expression::Unary(_, inner) => cost(1, 36, 0, depth).and(
            cost_of(expression_steps(*inner, depth + 1)),
        ),
        Expression::Binary(_, left, right) => cost(1, 36, 0, depth).and(
            cost_of(expression_steps(*left, depth + 1)),
        ).and(cost_of(expression_steps(*right, depth + 1))),
        Expression::Variadic(_, exprs) => cost(1, 36, 0, depth).and(
            total(expression_costs(exprs@, depth + 1), exprs@.len()),
        ),
        Expression::ParseJson(inner, schema) => cost(1, 24, 0, depth).and(
            cost_of(expression_steps(*inner, depth + 1)),
        ).and(cost_of(schema_steps(schema, depth + 1))),
        Expression::MapToStruct(inner) => cost(1, 24, 0, depth).and(
            cost_of(expression_steps(*inner, depth + 1)),
        ),
        Expression::Cast(inner, target) => cost(2, 32, 0, depth).and(
            cost_of(expression_steps(*inner, depth + 1)),
        ).and(cost_of(type_steps(target, depth + 1))).and(cost_of(display_steps(target))),
    }
}

proof fn leaves_cost_their_parts(expr: Expression, depth: nat)
    requires
        expr is Opaque || expr is Unknown || expr is Literal || expr is Column || expr is Predicate,
    ensures
        cost_of(expression_steps(expr, depth)) == expression_cost(expr, depth),
{
    broadcast use group_parts;

}

proof fn structures_cost_their_parts(expr: Expression, depth: nat)
    requires
        expr is Struct,
    ensures
        cost_of(expression_steps(expr, depth)) == expression_cost(expr, depth),
{
    broadcast use group_parts;

    if let Expression::Struct(exprs, nullability) = expr {
        expression_lists_cost_their_items(exprs@, depth + 1);
    }
}

proof fn patches_cost_their_parts(expr: Expression, depth: nat)
    requires
        expr is StructPatch,
    ensures
        cost_of(expression_steps(expr, depth)) == expression_cost(expr, depth),
{
    broadcast use group_parts;

    if let Expression::StructPatch(patch) = expr {
        expression_lists_cost_their_items(patch.prepended_fields@, depth + 1);
        expression_lists_cost_their_items(patch.appended_fields@, depth + 1);
    }
}

proof fn operations_cost_their_parts(expr: Expression, depth: nat)
    requires
        expr is Unary || expr is Binary || expr is Variadic,
    ensures
        cost_of(expression_steps(expr, depth)) == expression_cost(expr, depth),
{
    broadcast use group_parts;

    if let Expression::Variadic(_, exprs) = expr {
        expression_lists_cost_their_items(exprs@, depth + 1);
    }
}

proof fn conversions_cost_their_parts(expr: Expression, depth: nat)
    requires
        expr is ParseJson || expr is MapToStruct,
    ensures
        cost_of(expression_steps(expr, depth)) == expression_cost(expr, depth),
{
    broadcast use group_parts;

}

proof fn casts_cost_their_parts(expr: Expression, depth: nat)
    requires
        expr is Cast,
    ensures
        cost_of(expression_steps(expr, depth)) == expression_cost(expr, depth),
{
    broadcast use group_parts;

    punctuation();
}

/// An expression costs a step, a few wire fields, and each of its parts one level deeper.
pub proof fn expressions_cost_their_parts(expr: Expression, depth: nat)
    ensures
        cost_of(expression_steps(expr, depth)) == expression_cost(expr, depth),
{
    if expr is Struct {
        structures_cost_their_parts(expr, depth);
    } else if expr is StructPatch {
        patches_cost_their_parts(expr, depth);
    } else if expr is Unary || expr is Binary || expr is Variadic {
        operations_cost_their_parts(expr, depth);
    } else if expr is ParseJson || expr is MapToStruct {
        conversions_cost_their_parts(expr, depth);
    } else if expr is Cast {
        casts_cost_their_parts(expr, depth);
    } else {
        leaves_cost_their_parts(expr, depth);
    }
}

/// A predicate costs a step, a few wire fields, and each of its parts one level deeper.
pub proof fn predicates_cost_their_parts(predicate: Predicate, depth: nat)
    ensures
        cost_of(predicate_steps(predicate, depth)) == (match predicate {
            Predicate::Opaque(_) => cost(1, 12, 0, depth),
            Predicate::Unknown(_) => cost(1, 12, 0, depth),
            Predicate::BooleanExpression(expr) => cost(1, 12, 0, depth).and(
                cost_of(expression_steps(expr, depth + 1)),
            ),
            Predicate::Not(inner) => cost(1, 12, 0, depth).and(
                cost_of(predicate_steps(*inner, depth + 1)),
            ),
            Predicate::Unary(_, expr) => cost(1, 36, 0, depth).and(
                cost_of(expression_steps(*expr, depth + 1)),
            ),
            Predicate::Binary(_, left, right) => cost(1, 36, 0, depth).and(
                cost_of(expression_steps(*left, depth + 1)),
            ).and(cost_of(expression_steps(*right, depth + 1))),
            Predicate::Junction(_, preds) => cost(1, 36, 0, depth).and(
                total(predicate_costs(preds@, depth + 1), preds@.len()),
            ),
        }),
{
    broadcast use group_parts;

    if let Predicate::Junction(_, preds) = predicate {
        lists_cost_their_items(
            each_predicate(preds@, depth + 1),
            predicate_costs(preds@, depth + 1),
            preds@.len(),
        );
    }
}

/// What each row of literals costs.
pub open spec fn row_costs(rows: Seq<Vec<Scalar>>) -> spec_fn(int) -> Cost {
    |i: int| cost(1, 12, 0, 1).and(total(scalar_costs(rows[i]@, 1), rows[i]@.len()))
}

/// What each scanned file costs: its location, its constants, and its fixed fields.
pub open spec fn file_costs(files: Seq<ScanFile>) -> spec_fn(int) -> Cost {
    |i: int|
        cost(1, 60 + utf8(files[i].meta.location@).len(), 0, 1).and(
            total(scalar_costs(files[i].file_constants@, 1), files[i].file_constants@.len()),
        )
}

/// A scan costs its schema, the names of its constants, and its files.
pub open spec fn scan_cost(scan: FileScan) -> Cost {
    let names = scan.file_constant_columns@;
    cost_of(schema_steps(scan.schema, 1)).and(cost(names.len(), 0, 0, 0)).and(
        total(text_costs(names), names.len()),
    ).and(total(file_costs(scan.files@), scan.files@.len()))
}

/// A scan of files that rows name costs its schema, its location, the names of its constants, and four
/// columns.
pub open spec fn dynamic_scan_cost(scan: DynamicScan) -> Cost {
    let names = scan.file_constant_columns@;
    cost_of(schema_steps(scan.schema, 1)).and(
        cost(names.len(), 24 + utf8(scan.base_url@).len(), 0, 0),
    ).and(total(text_costs(names), names.len())).and(column_cost(scan.path_column)).and(
        column_cost(scan.file_size_column),
    ).and(column_cost(scan.last_modified_column)).and(column_cost(scan.dv_column))
}

/// What each aggregation costs: its columns and two wire fields.
pub open spec fn agg_costs(aggs: Seq<Agg>) -> spec_fn(int) -> Cost {
    |i: int|
        cost(1, 24, 0, 1).and(
            match aggs[i] {
                Agg::Min(c) | Agg::Max(c) | Agg::Sum(c) | Agg::Count(c) => column_cost(c),
                Agg::CountStar => cost(0, 0, 0, 0),
                Agg::MinNonNullBy(a) | Agg::MaxNonNullBy(a) => column_cost(a.value).and(
                    column_cost(a.null_sentinel),
                ).and(column_cost(a.key)),
            },
        )
}

/// An aggregation costs its schema, its groups and its functions.
pub open spec fn aggregate_cost(aggregate: Aggregate) -> Cost {
    let groups = aggregate.group_by@;
    cost_of(schema_steps(aggregate.schema, 1)).and(cost(groups.len(), 0, 0, 0)).and(
        total(column_costs(groups), groups.len()),
    ).and(total(agg_costs(aggregate.aggs@), aggregate.aggs@.len()))
}

proof fn scans_cost_their_files(scan: FileScan)
    ensures
        cost_of(scan_steps(scan)) == scan_cost(scan),
{
    broadcast use group_parts;

    reveal(scan_steps);
    text_lists_cost_their_texts(scan.file_constant_columns@);
    let files = scan.files@;
    let each = each_file(files);
    let costs = file_costs(files);
    assert forall|i: int| 0 <= i < files.len() implies cost_of(#[trigger] each(i)) == costs(i) by {
        scalar_lists_cost_their_values(files[i].file_constants@, 1);
    }
    lists_cost_their_items(each, costs, files.len());
}

proof fn aggregates_cost_their_functions(aggregate: Aggregate)
    ensures
        cost_of(aggregate_steps(aggregate)) == aggregate_cost(aggregate),
{
    broadcast use group_parts;

    reveal(aggregate_steps);
    column_lists_cost_their_columns(aggregate.group_by@);
    let aggs = aggregate.aggs@;
    let each = each_agg(aggs);
    let costs = agg_costs(aggs);
    assert forall|i: int| 0 <= i < aggs.len() implies cost_of(#[trigger] each(i)) == costs(i) by {
        reveal(agg_steps);
    }
    lists_cost_their_items(each, costs, aggs.len());
}

/// An operator costs two wire fields and all that it holds.
pub proof fn operators_cost_their_parts(op: Operator)
    ensures
        cost_of(operator_steps(op)) == cost(0, 24, 0, 0).and(
            match op {
                Operator::ScanParquet(scan) => scan_cost(scan),
                Operator::ScanJson(scan) => scan_cost(scan),
                Operator::Values(values) => cost_of(schema_steps(values.schema, 1)).and(
                    total(row_costs(values.rows@), values.rows@.len()),
                ),
                Operator::Project(project) => cost_of(expression_steps(project.expr, 1)).and(
                    cost_of(schema_steps(project.schema, 1)),
                ),
                Operator::Filter(filter) => cost_of(predicate_steps(filter.predicate, 1)),
                Operator::DynamicScan(scan) => dynamic_scan_cost(scan),
                Operator::Aggregate(aggregate) => aggregate_cost(aggregate),
                Operator::SemiJoin(join) => cost(
                    join.probe_keys@.len() + join.build_keys@.len(),
                    12,
                    0,
                    0,
                ).and(total(column_costs(join.probe_keys@), join.probe_keys@.len())).and(
                    total(column_costs(join.build_keys@), join.build_keys@.len()),
                ),
                Operator::UnionAll => cost(0, 0, 0, 0),
            },
        ),
{
    broadcast use group_parts;

    reveal(operator_steps);
    match op {
        Operator::ScanParquet(scan) => {
            scans_cost_their_files(scan);
        },
        Operator::ScanJson(scan) => {
            scans_cost_their_files(scan);
        },
        Operator::Values(values) => {
            let rows = values.rows@;
            let each = each_row(rows);
            let costs = row_costs(rows);
            assert forall|i: int| 0 <= i < rows.len() implies cost_of(#[trigger] each(i)) == costs(
                i,
            ) by {
                scalar_lists_cost_their_values(rows[i]@, 1);
            }
            lists_cost_their_items(each, costs, rows.len());
        },
        Operator::DynamicScan(scan) => {
            reveal(dynamic_scan_steps);
            text_lists_cost_their_texts(scan.file_constant_columns@);
        },
        Operator::Aggregate(aggregate) => {
            aggregates_cost_their_functions(aggregate);
        },
        Operator::SemiJoin(join) => {
            column_lists_cost_their_columns(join.probe_keys@);
            column_lists_cost_their_columns(join.build_keys@);
        },
        _ => {},
    }
}

/// What each node costs: a step and five bytes for each input, a step and two wire fields for itself,
/// and its operator.
pub open spec fn node_costs(nodes: Seq<PlanNode>) -> spec_fn(int) -> Cost {
    |i: int|
        cost(1 + nodes[i].inputs@.len(), 24 + 5 * nodes[i].inputs@.len(), 0, 1).and(
            at_depth(node_depth(nodes, i as nat)),
        ).and(cost_of(operator_steps(nodes[i].op)))
}

/// A plan costs a wire field and its nodes.
pub open spec fn plan_cost(nodes: Seq<PlanNode>) -> Cost {
    cost(0, 12, 0, 0).and(total(node_costs(nodes), nodes.len()))
}

proof fn inputs_cost_five_bytes(inputs: Seq<usize>, index: nat, n: nat)
    ensures
        cost_of(flat(each_input(inputs, index), n)) == cost(0, 5 * n, 0, 0),
    decreases n,
{
    broadcast use group_cost;

    if n > 0 {
        inputs_cost_five_bytes(inputs, index, (n - 1) as nat);
    }
}

proof fn plans_cost_their_nodes(nodes: Seq<PlanNode>)
    ensures
        cost_of(plan_steps(nodes)) == plan_cost(nodes),
{
    broadcast use group_parts;

    let each = each_node(nodes);
    let costs = node_costs(nodes);
    assert forall|i: int| 0 <= i < nodes.len() implies cost_of(#[trigger] each(i)) == costs(i) by {
        reveal(topology_steps);
        inputs_cost_five_bytes(nodes[i].inputs@, i as nat, nodes[i].inputs@.len());
    }
    lists_cost_their_items(each, costs, nodes.len());
}

/// Steps are allowed exactly where they refuse nothing and are not too deep.
pub proof fn steps_are_allowed_by_their_kinds(limits: TaskLimits, steps: Seq<Step>)
    ensures
        (forall|i: int| 0 <= i < steps.len() ==> allowed(limits, #[trigger] steps[i])) <==> {
            &&& clean(steps)
            &&& depth_of(steps) <= limits.allowance(Resource::PlanDepth)
            &&& nesting_of(steps) <= limits.allowance(Resource::SchemaDepth)
            &&& nesting_of(steps) <= 64
        },
    decreases steps.len(),
{
    if steps.len() > 0 {
        let before = steps.drop_last();
        let last = steps[steps.len() - 1];
        steps_are_allowed_by_their_kinds(limits, before);
        assert forall|i: int| 0 <= i < before.len() implies before[i] == #[trigger] steps[i] by {}
        assert((forall|i: int| 0 <= i < steps.len() ==> allowed(limits, #[trigger] steps[i])) <==> (
        forall|i: int| 0 <= i < before.len() ==> allowed(limits, #[trigger] before[i])) && allowed(
            limits,
            last,
        )) by {
            if forall|i: int| 0 <= i < steps.len() ==> allowed(limits, #[trigger] steps[i]) {
                assert forall|i: int| 0 <= i < before.len() implies allowed(
                    limits,
                    #[trigger] before[i],
                ) by {
                    assert(allowed(limits, steps[i]));
                }
            }
            if (forall|i: int| 0 <= i < before.len() ==> allowed(limits, #[trigger] before[i]))
                && allowed(limits, last) {
                assert forall|i: int| 0 <= i < steps.len() implies allowed(
                    limits,
                    #[trigger] steps[i],
                ) by {
                    if i < before.len() {
                        assert(allowed(limits, before[i]));
                    }
                }
            }
        }
        assert(clean(steps) <==> clean(before) && !(last is Refuse)) by {
            if clean(steps) {
                assert forall|i: int| 0 <= i < before.len() implies !(#[trigger] before[i]
                    is Refuse) by {
                    assert(!(steps[i] is Refuse));
                }
            }
            if clean(before) && !(last is Refuse) {
                assert forall|i: int| 0 <= i < steps.len() implies !(#[trigger] steps[i]
                    is Refuse) by {
                    if i < before.len() {
                        assert(!(before[i] is Refuse));
                    }
                }
            }
        }
    }
}

/// A plan is accepted exactly where it has nodes, no more than are allowed and than there is scratch
/// for, every node is ordered and plain, and its work, its encoding, its schema nodes, its nesting and
/// its depth are within their allowances. What the inspection reports is what the plan costs.
pub proof fn plans_are_accepted_within_their_costs(plan: Plan, limits: TaskLimits, scratch: nat)
    requires
        plan.nodes@.len() <= u32::MAX,
    ensures
        ({
            let nodes = plan.nodes@;
            let whole = plan_cost(nodes);
            &&& inspected(plan, limits, scratch) is Ok <==> {
                &&& 0 < nodes.len() <= scratch
                &&& nodes.len() <= limits.allowance(Resource::PlanNodes)
                &&& forall|i: int|
                    0 <= i < nodes.len() ==> ordered_node(#[trigger] nodes[i], i) && plain_operator(
                        nodes[i].op,
                    )
                &&& whole.work <= limits.allowance(Resource::WorkUnits)
                &&& whole.bytes <= limits.allowance(Resource::PlanEncodedBytes)
                &&& whole.nodes <= limits.allowance(Resource::SchemaNodes)
                &&& whole.nesting <= limits.allowance(Resource::SchemaDepth)
                &&& whole.nesting <= 64
                &&& whole.depth <= limits.allowance(Resource::PlanDepth)
            }
            &&& inspected(plan, limits, scratch) matches Ok(shape) ==> {
                &&& shape.nodes == nodes.len()
                &&& shape.encoded_bytes == whole.bytes
                &&& shape.work_units == whole.work
            }
        }),
{
    let nodes = plan.nodes@;
    let steps = plan_steps(nodes);
    plans_cost_their_nodes(nodes);
    plans_refuse_what_is_out_of_order(nodes);
    steps_are_allowed_by_their_kinds(limits, steps);
    inspections_add_up(limits, Tally::zero(), steps);
}

} // verus!
