//! What the preflight of literals costs, part by part: every comparison of two names takes a step and
//! the bytes of both, and every type and every literal that is looked at takes a step.

use crate::accounting::{Resource, TaskLimits};
use crate::bytes::utf8;
use crate::inspection::{flat, inspections_add_up, Tally};
use crate::literal_acceptance::{plans_refuse_other_literals, well_formed_operator};
use crate::literals::{
    demand, each_constant, each_earlier, each_earlier_name, each_element, each_entry,
    each_field_valid, each_file_constant, each_file_literals, each_literals, each_member,
    each_node_literals, each_predicate_literals, each_probe, each_row_literals, each_same_field,
    each_unique, expression_literals, fields_valid_steps, fitting_steps, inspected_literals,
    literal_steps, lookup_steps, matching_steps, operator_literals,
    predicate_literals, same_fields_steps, same_type_steps, scan_literals, text_comparison,
    type_valid_steps,
};
use crate::plan::{Expression, FileScan, MapPair, Operator, Plan, PlanNode, Predicate, Scalar};
use crate::plan_costs::{
    cost, cost_of, group_cost, lists_cost_their_items, steps_are_allowed_by_their_kinds, total, Cost,
};
use crate::plan_shape::inspected;
use crate::schema::{field_position, DataType, MapType, StructField};
use vstd::prelude::*;

verus! {

/// Work alone.
pub open spec fn steps(work: nat) -> Cost {
    cost(work, 0, 0, 0)
}

/// What comparing two texts costs.
pub open spec fn comparison(left: Seq<char>, right: Seq<char>) -> Cost {
    steps(1 + utf8(left).len() + utf8(right).len())
}

broadcast proof fn comparisons_cost_both_texts(left: Seq<char>, right: Seq<char>)
    ensures
        cost_of(#[trigger] text_comparison(left, right)) == comparison(left, right),
{
    broadcast use group_cost;

    reveal(text_comparison);
}

broadcast proof fn demands_cost_nothing(holds: bool)
    ensures
        cost_of(#[trigger] demand(holds)) == steps(0),
{
    broadcast use group_cost;

}

broadcast group group_literal_cost {
    group_cost,
    comparisons_cost_both_texts,
    demands_cost_nothing,
}

/// What comparing each field costs: its name, and its type.
pub open spec fn same_field_costs(left: Seq<StructField>, right: Seq<StructField>) -> spec_fn(
    int,
) -> Cost {
    |i: int|
        comparison(left[i].name@, right[i].name@).and(
            cost_of(same_type_steps(left[i].data_type, right[i].data_type)),
        )
}

/// Comparing two types takes a step, and the comparison of the parts that correspond.
pub proof fn type_comparisons_cost_their_parts(left: DataType, right: DataType)
    ensures
        cost_of(same_type_steps(left, right)) == steps(1).and(
            match (left, right) {
                (DataType::Array(a), DataType::Array(b)) => cost_of(
                    same_type_steps(a.element_type, b.element_type),
                ),
                (DataType::Mapping(a), DataType::Mapping(b)) => cost_of(
                    same_type_steps(a.key_type, b.key_type),
                ).and(cost_of(same_type_steps(a.value_type, b.value_type))),
                (DataType::Struct(a), DataType::Struct(b)) => cost_of(
                    same_fields_steps(a.fields@, b.fields@),
                ),
                (DataType::Variant(a), DataType::Variant(b)) => cost_of(
                    same_fields_steps(a.fields@, b.fields@),
                ),
                _ => steps(0),
            },
        ),
{
    broadcast use group_literal_cost;

}

/// Comparing fields takes the comparison of each.
pub proof fn field_comparisons_cost_their_fields(left: Seq<StructField>, right: Seq<StructField>)
    ensures
        cost_of(same_fields_steps(left, right)) == total(
            same_field_costs(left, right),
            left.len(),
        ),
{
    broadcast use group_literal_cost;

    let each = each_same_field(left, right);
    let costs = same_field_costs(left, right);
    assert forall|i: int| 0 <= i < left.len() implies cost_of(#[trigger] each(i)) == costs(i) by {}
    lists_cost_their_items(each, costs, left.len());
}

/// What comparing a field's name with each one before it costs.
pub open spec fn earlier_costs(fields: Seq<StructField>, i: int) -> spec_fn(int) -> Cost {
    |j: int| comparison(fields[i].name@, fields[j].name@)
}

/// What comparing each field's name with those before it costs.
pub open spec fn unique_costs(fields: Seq<StructField>) -> spec_fn(int) -> Cost {
    |i: int| total(earlier_costs(fields, i), i as nat)
}

/// What checking the type of each field costs.
pub open spec fn field_type_costs(fields: Seq<StructField>) -> spec_fn(int) -> Cost {
    |i: int| cost_of(type_valid_steps(fields[i].data_type))
}

/// Checking a type takes a step, and the check of its parts.
pub proof fn type_checks_cost_their_parts(ty: DataType)
    ensures
        cost_of(type_valid_steps(ty)) == steps(1).and(
            match ty {
                DataType::Primitive(_) => steps(0),
                DataType::Array(a) => cost_of(type_valid_steps(a.element_type)),
                DataType::Mapping(m) => cost_of(type_valid_steps(m.key_type)).and(
                    cost_of(type_valid_steps(m.value_type)),
                ),
                DataType::Struct(s) => cost_of(fields_valid_steps(s.fields@)),
                DataType::Variant(s) => cost_of(fields_valid_steps(s.fields@)),
            },
        ),
{
    broadcast use group_literal_cost;

}

/// Checking fields takes the comparison of each name with those before it, and the check of each type.
pub proof fn field_checks_cost_their_fields(fields: Seq<StructField>)
    ensures
        cost_of(fields_valid_steps(fields)) == total(unique_costs(fields), fields.len()).and(
            total(field_type_costs(fields), fields.len()),
        ),
{
    broadcast use group_literal_cost;

    let unique = each_unique(fields);
    assert forall|i: int| 0 <= i < fields.len() implies cost_of(#[trigger] unique(i))
        == unique_costs(fields)(i) by {
        let earlier = each_earlier(fields, i);
        let costs = earlier_costs(fields, i);
        assert forall|j: int| 0 <= j < i implies cost_of(#[trigger] earlier(j)) == costs(j) by {}
        lists_cost_their_items(earlier, costs, i as nat);
    }
    lists_cost_their_items(unique, unique_costs(fields), fields.len());
    lists_cost_their_items(each_field_valid(fields), field_type_costs(fields), fields.len());
}

/// What matching a literal with a type costs: a null, a structure, a list or a map compares its own
/// type, and anything else nothing.
pub open spec fn matching_cost(value: Scalar, ty: DataType) -> Cost {
    match (value, ty) {
        (Scalar::Null(own), _) => cost_of(same_type_steps(own, ty)),
        (Scalar::Struct(s), DataType::Struct(t)) => cost_of(same_fields_steps(s.fields@, t.fields@)),
        (Scalar::Array(a), DataType::Array(t)) => cost_of(
            same_type_steps(a.array_type.element_type, t.element_type),
        ),
        (Scalar::Mapping(m), DataType::Mapping(t)) => cost_of(
            same_type_steps(m.map_type.key_type, t.key_type),
        ).and(cost_of(same_type_steps(m.map_type.value_type, t.value_type))),
        _ => steps(0),
    }
}

/// What a literal in a place of a type costs.
pub open spec fn fitting_cost(value: Scalar, ty: DataType) -> Cost {
    cost_of(literal_steps(value)).and(matching_cost(value, ty))
}

proof fn fitting_literals_cost_both(value: Scalar, ty: DataType, nullable: bool)
    ensures
        cost_of(fitting_steps(value, ty, nullable)) == fitting_cost(value, ty),
{
    broadcast use group_literal_cost;

    reveal(matching_steps);
}

/// What each value of a structure or a row costs.
pub open spec fn member_costs(values: Seq<Scalar>, fields: Seq<StructField>) -> spec_fn(int) -> Cost {
    |i: int| fitting_cost(values[i], fields[i].data_type)
}

/// What each element of a list costs.
pub open spec fn element_costs(values: Seq<Scalar>, ty: DataType) -> spec_fn(int) -> Cost {
    |i: int| fitting_cost(values[i], ty)
}

/// What each entry of a map costs.
pub open spec fn entry_costs(pairs: Seq<MapPair>, ty: MapType) -> spec_fn(int) -> Cost {
    |i: int|
        fitting_cost(pairs[i].key, ty.key_type).and(fitting_cost(pairs[i].value, ty.value_type))
}

proof fn member_lists_cost_their_values(values: Seq<Scalar>, fields: Seq<StructField>)
    ensures
        cost_of(flat(each_member(values, fields), values.len())) == total(
            member_costs(values, fields),
            values.len(),
        ),
{
    let each = each_member(values, fields);
    let costs = member_costs(values, fields);
    assert forall|i: int| 0 <= i < values.len() implies cost_of(#[trigger] each(i)) == costs(i) by {
        fitting_literals_cost_both(values[i], fields[i].data_type, fields[i].nullable);
    }
    lists_cost_their_items(each, costs, values.len());
}

/// A literal takes a step, the check of its type, and each of its parts.
pub proof fn literal_checks_cost_their_parts(value: Scalar)
    ensures
        cost_of(literal_steps(value)) == steps(1).and(
            match value {
                Scalar::Null(ty) => cost_of(type_valid_steps(ty)),
                Scalar::Struct(s) => cost_of(fields_valid_steps(s.fields@)).and(
                    total(member_costs(s.values@, s.fields@), s.values@.len()),
                ),
                Scalar::Array(a) => cost_of(type_valid_steps(a.array_type.element_type)).and(
                    total(
                        element_costs(a.elements@, a.array_type.element_type),
                        a.elements@.len(),
                    ),
                ),
                Scalar::Mapping(m) => cost_of(type_valid_steps(m.map_type.key_type)).and(
                    cost_of(type_valid_steps(m.map_type.value_type)),
                ).and(total(entry_costs(m.pairs@, m.map_type), m.pairs@.len())),
                _ => steps(0),
            },
        ),
{
    broadcast use group_literal_cost;

    match value {
        Scalar::Struct(s) => {
            member_lists_cost_their_values(s.values@, s.fields@);
        },
        Scalar::Array(a) => {
            let ty = a.array_type.element_type;
            let nullable = a.array_type.contains_null;
            let values = a.elements@;
            let each = each_element(values, ty, nullable);
            let costs = element_costs(values, ty);
            assert forall|i: int| 0 <= i < values.len() implies cost_of(#[trigger] each(i)) == costs(
                i,
            ) by {
                fitting_literals_cost_both(values[i], ty, nullable);
            }
            lists_cost_their_items(each, costs, values.len());
        },
        Scalar::Mapping(m) => {
            let ty = m.map_type;
            let pairs = m.pairs@;
            let each = each_entry(pairs, ty);
            let costs = entry_costs(pairs, ty);
            assert forall|i: int| 0 <= i < pairs.len() implies cost_of(#[trigger] each(i)) == costs(
                i,
            ) by {
                fitting_literals_cost_both(pairs[i].key, ty.key_type, false);
                fitting_literals_cost_both(pairs[i].value, ty.value_type, ty.value_contains_null);
            }
            lists_cost_their_items(each, costs, pairs.len());
        },
        _ => {},
    }
}

/// What the literals of each expression cost.
pub open spec fn expression_literal_costs(exprs: Seq<Expression>) -> spec_fn(int) -> Cost {
    |i: int| cost_of(expression_literals(exprs[i]))
}

/// What the literals of each predicate cost.
pub open spec fn predicate_literal_costs(preds: Seq<Predicate>) -> spec_fn(int) -> Cost {
    |i: int| cost_of(predicate_literals(preds[i]))
}

/// The literals of an expression are those of its parts.
pub proof fn expressions_cost_their_literals(expr: Expression)
    ensures
        cost_of(expression_literals(expr)) == (match expr {
            Expression::Literal(value) => cost_of(literal_steps(value)),
            Expression::Predicate(p) => cost_of(predicate_literals(*p)),
            Expression::Struct(exprs, nullability) => total(
                expression_literal_costs(exprs@),
                exprs@.len(),
            ).and(
                match nullability {
                    Some(inner) => cost_of(expression_literals(*inner)),
                    None => steps(0),
                },
            ),
            Expression::StructPatch(patch) => total(
                expression_literal_costs(patch.prepended_fields@),
                patch.prepended_fields@.len(),
            ).and(
                total(
                    expression_literal_costs(patch.appended_fields@),
                    patch.appended_fields@.len(),
                ),
            ),
            Expression::Unary(_, inner) => cost_of(expression_literals(*inner)),
            Expression::Binary(_, left, right) => cost_of(expression_literals(*left)).and(
                cost_of(expression_literals(*right)),
            ),
            Expression::Variadic(_, exprs) => total(
                expression_literal_costs(exprs@),
                exprs@.len(),
            ),
            Expression::ParseJson(inner, _) => cost_of(expression_literals(*inner)),
            Expression::MapToStruct(inner) => cost_of(expression_literals(*inner)),
            Expression::Cast(inner, _) => cost_of(expression_literals(*inner)),
            _ => steps(0),
        }),
{
    broadcast use group_literal_cost;

    match expr {
        Expression::Struct(exprs, _) => {
            lists_cost_their_items(
                each_literals(exprs@),
                expression_literal_costs(exprs@),
                exprs@.len(),
            );
        },
        Expression::StructPatch(patch) => {
            let first = patch.prepended_fields@;
            let last = patch.appended_fields@;
            lists_cost_their_items(
                each_literals(first),
                expression_literal_costs(first),
                first.len(),
            );
            lists_cost_their_items(each_literals(last), expression_literal_costs(last), last.len());
        },
        Expression::Variadic(_, exprs) => {
            lists_cost_their_items(
                each_literals(exprs@),
                expression_literal_costs(exprs@),
                exprs@.len(),
            );
        },
        _ => {},
    }
}

/// The literals of a predicate are those of its parts.
pub proof fn predicates_cost_their_literals(predicate: Predicate)
    ensures
        cost_of(predicate_literals(predicate)) == (match predicate {
            Predicate::BooleanExpression(expr) => cost_of(expression_literals(expr)),
            Predicate::Not(inner) => cost_of(predicate_literals(*inner)),
            Predicate::Unary(_, expr) => cost_of(expression_literals(*expr)),
            Predicate::Binary(_, left, right) => cost_of(expression_literals(*left)).and(
                cost_of(expression_literals(*right)),
            ),
            Predicate::Junction(_, preds) => total(predicate_literal_costs(preds@), preds@.len()),
            _ => steps(0),
        }),
{
    broadcast use group_literal_cost;

    if let Predicate::Junction(_, preds) = predicate {
        lists_cost_their_items(
            each_predicate_literals(preds@),
            predicate_literal_costs(preds@),
            preds@.len(),
        );
    }
}

/// What comparing a name with each field costs.
pub open spec fn probe_costs(fields: Seq<StructField>, name: Seq<char>) -> spec_fn(int) -> Cost {
    |i: int| comparison(name, fields[i].name@)
}

/// A lookup compares the name with every field up to the one it finds, or with all.
pub open spec fn lookup_cost(fields: Seq<StructField>, name: Seq<char>) -> Cost {
    let at = field_position(fields, name);
    total(
        probe_costs(fields, name),
        (if at < fields.len() {
            at + 1
        } else {
            fields.len() as int
        }) as nat,
    )
}

proof fn lookups_cost_their_probes(fields: Seq<StructField>, name: Seq<char>)
    ensures
        cost_of(lookup_steps(fields, name)) == lookup_cost(fields, name),
{
    broadcast use group_literal_cost;

    reveal(lookup_steps);
    let at = field_position(fields, name);
    let n = (if at < fields.len() {
        at + 1
    } else {
        fields.len() as int
    }) as nat;
    let each = each_probe(fields, name);
    let costs = probe_costs(fields, name);
    assert forall|i: int| 0 <= i < n implies cost_of(#[trigger] each(i)) == costs(i) by {}
    lists_cost_their_items(each, costs, n);
}

/// What comparing a constant's name with each one before it costs.
pub open spec fn earlier_name_costs(names: Seq<String>, i: int) -> spec_fn(int) -> Cost {
    |j: int| comparison(names[i]@, names[j]@)
}

/// What the name of each constant costs: the names before it, and its lookup.
pub open spec fn constant_costs(names: Seq<String>, fields: Seq<StructField>) -> spec_fn(int) -> Cost {
    |i: int| total(earlier_name_costs(names, i), i as nat).and(lookup_cost(fields, names[i]@))
}

/// What each constant of a file costs: its lookup, and the literal in its field's place.
pub open spec fn file_constant_costs(
    values: Seq<Scalar>,
    names: Seq<String>,
    fields: Seq<StructField>,
) -> spec_fn(int) -> Cost {
    |i: int|
        lookup_cost(fields, names[i]@).and(
            fitting_cost(values[i], fields[field_position(fields, names[i]@)].data_type),
        )
}

/// A scan takes the names of its constants, and the constants of every file.
pub proof fn scans_cost_their_constants(scan: FileScan)
    ensures
        ({
            let fields = scan.schema.fields@;
            let names = scan.file_constant_columns@;
            let files = |i: int|
                total(
                    file_constant_costs(scan.files@[i].file_constants@, names, fields),
                    scan.files@[i].file_constants@.len(),
                );
            cost_of(scan_literals(scan)) == total(constant_costs(names, fields), names.len()).and(
                total(files, scan.files@.len()),
            )
        }),
{
    broadcast use group_literal_cost;

    reveal(scan_literals);
    let fields = scan.schema.fields@;
    let names = scan.file_constant_columns@;
    let named = each_constant(names, fields);
    assert forall|i: int| 0 <= i < names.len() implies cost_of(#[trigger] named(i))
        == constant_costs(names, fields)(i) by {
        let earlier = each_earlier_name(names, i);
        let costs = earlier_name_costs(names, i);
        assert forall|j: int| 0 <= j < i implies cost_of(#[trigger] earlier(j)) == costs(j) by {}
        lists_cost_their_items(earlier, costs, i as nat);
        lookups_cost_their_probes(fields, names[i]@);
    }
    lists_cost_their_items(named, constant_costs(names, fields), names.len());
    let files = |i: int|
        total(
            file_constant_costs(scan.files@[i].file_constants@, names, fields),
            scan.files@[i].file_constants@.len(),
        );
    let each = each_file_literals(scan.files@, names, fields);
    assert forall|i: int| 0 <= i < scan.files@.len() implies cost_of(#[trigger] each(i)) == files(
        i,
    ) by {
        let values = scan.files@[i].file_constants@;
        let held = each_file_constant(values, names, fields);
        let costs = file_constant_costs(values, names, fields);
        assert forall|k: int| 0 <= k < values.len() implies cost_of(#[trigger] held(k)) == costs(
            k,
        ) by {
            let field = fields[field_position(fields, names[k]@)];
            lookups_cost_their_probes(fields, names[k]@);
            fitting_literals_cost_both(values[k], field.data_type, field.nullable);
        }
        lists_cost_their_items(held, costs, values.len());
    }
    lists_cost_their_items(each, files, scan.files@.len());
}

/// What each row of literals costs.
pub open spec fn row_literal_costs(rows: Seq<Vec<Scalar>>, fields: Seq<StructField>) -> spec_fn(
    int,
) -> Cost {
    |i: int| total(member_costs(rows[i]@, fields), rows[i]@.len())
}

/// The literals of an operator are those of its files, its rows, its expression or its predicate.
pub proof fn operators_cost_their_literals(op: Operator)
    ensures
        cost_of(operator_literals(op)) == (match op {
            Operator::ScanParquet(scan) => cost_of(scan_literals(scan)),
            Operator::ScanJson(scan) => cost_of(scan_literals(scan)),
            Operator::Values(values) => total(
                row_literal_costs(values.rows@, values.schema.fields@),
                values.rows@.len(),
            ),
            Operator::Project(project) => cost_of(expression_literals(project.expr)),
            Operator::Filter(filter) => cost_of(predicate_literals(filter.predicate)),
            _ => steps(0),
        }),
{
    broadcast use group_literal_cost;

    reveal(operator_literals);
    if let Operator::Values(values) = op {
        let rows = values.rows@;
        let fields = values.schema.fields@;
        let each = each_row_literals(rows, fields);
        let costs = row_literal_costs(rows, fields);
        assert forall|i: int| 0 <= i < rows.len() implies cost_of(#[trigger] each(i)) == costs(
            i,
        ) by {
            member_lists_cost_their_values(rows[i]@, fields);
        }
        lists_cost_their_items(each, costs, rows.len());
    }
}

/// What the literals of each node cost.
pub open spec fn node_literal_costs(nodes: Seq<PlanNode>) -> spec_fn(int) -> Cost {
    |i: int| cost_of(operator_literals(nodes[i].op))
}

/// The literals of an inspected plan pass exactly where each is well formed and the work of all of them,
/// with that of the inspection, is within the allowance. Just that work is added.
pub proof fn literals_pass_within_their_costs(plan: Plan, limits: TaskLimits, scratch: nat)
    requires
        inspected(plan, limits, scratch) is Ok,
    ensures
        ({
            let nodes = plan.nodes@;
            let shape = inspected(plan, limits, scratch)->Ok_0;
            let whole = total(node_literal_costs(nodes), nodes.len());
            &&& inspected_literals(plan, limits, scratch) is Ok <==> {
                &&& forall|i: int|
                    0 <= i < nodes.len() ==> well_formed_operator((#[trigger] nodes[i]).op)
                &&& shape.work_units + whole.work <= limits.allowance(Resource::WorkUnits)
                &&& whole.bytes <= limits.allowance(Resource::PlanEncodedBytes)
                &&& whole.nodes <= limits.allowance(Resource::SchemaNodes)
                &&& whole.nesting <= limits.allowance(Resource::SchemaDepth)
                &&& whole.nesting <= 64
                &&& whole.depth <= limits.allowance(Resource::PlanDepth)
            }
            &&& inspected_literals(plan, limits, scratch) matches Ok(passed) ==> passed.work_units
                == shape.work_units + whole.work
        }),
{
    let nodes = plan.nodes@;
    let shape = inspected(plan, limits, scratch)->Ok_0;
    let each = each_node_literals(nodes);
    let tally = Tally { encoded: 0, work: shape.work_units, schema_nodes: 0 };
    lists_cost_their_items(each, node_literal_costs(nodes), nodes.len());
    plans_refuse_other_literals(nodes);
    steps_are_allowed_by_their_kinds(limits, flat(each, nodes.len()));
    inspections_add_up(limits, Tally::zero(), crate::plan_shape::plan_steps(nodes));
    inspections_add_up(limits, tally, flat(each, nodes.len()));
}

} // verus!
