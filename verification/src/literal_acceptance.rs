//! Which literals a preflight accepts, said of the literals and their types themselves.

use crate::accounting::TaskLimits;
use crate::bytes::utf8;
use crate::inspection::{flat, PlanShapeError, Step, Tally};
use crate::literals::{
    demand, each_constant, each_earlier,
    each_earlier_name, each_element, each_entry, each_field_valid, each_file_constant,
    each_file_literals, each_literals, each_member, each_node_literals, each_predicate_literals,
    each_probe, each_row_literals, each_same_field, each_unique, expression_literals,
    fields_valid_steps, fitting_steps, inspected_literals, kind_matches, literal_steps,
    lookup_steps, matching_steps, operator_literals, power_of_ten,
    predicate_literals, same, same_fields_steps, same_primitive,
    same_type_steps, scan_literals, text_comparison, type_valid_steps,
};
use crate::plan::{
    DecimalData, Expression, FileScan, MapPair, Operator, Plan, PlanNode, Predicate, Scalar,
};
use crate::plan_acceptance::{all_of, clean, clean_runs_exhaust, flat_steps, joined_steps};
use crate::plan_shape::inspected;
use crate::schema::{field_position, DataType, MapType, PrimitiveType, StructField};
use vstd::arithmetic::power::{lemma_pow0, pow};
use vstd::prelude::*;

verus! {

/// Two primitive types are the same, a reference system by its name.
pub open spec fn equal_primitives(left: PrimitiveType, right: PrimitiveType) -> bool {
    match left {
        PrimitiveType::Geometry { crs } => right matches PrimitiveType::Geometry { crs: other }
            && crs@ == other@,
        PrimitiveType::Geography { crs } => right matches PrimitiveType::Geography { crs: other }
            && crs@ == other@,
        _ => left == right,
    }
}

/// Two types are the same in all but metadata.
pub open spec fn equal_types(left: DataType, right: DataType) -> bool
    decreases left, 2nat,
{
    match left {
        DataType::Primitive(p) => right matches DataType::Primitive(q) && equal_primitives(p, q),
        DataType::Array(a) => right matches DataType::Array(b) && a.contains_null == b.contains_null
            && equal_types(a.element_type, b.element_type),
        DataType::Mapping(a) => right matches DataType::Mapping(b) && a.value_contains_null
            == b.value_contains_null && equal_types(a.key_type, b.key_type) && equal_types(
            a.value_type,
            b.value_type,
        ),
        DataType::Struct(a) => right matches DataType::Struct(b) && equal_fields(
            a.fields@,
            b.fields@,
        ),
        DataType::Variant(a) => right matches DataType::Variant(b) && equal_fields(
            a.fields@,
            b.fields@,
        ),
    }
}

/// Two lists of fields are the same in all but metadata.
pub open spec fn equal_fields(left: Seq<StructField>, right: Seq<StructField>) -> bool
    decreases left, 1nat,
{
    left.len() == right.len() && all_of(each_equal_field(left, right), left.len())
}

/// Whether each field is that of the other list.
pub open spec fn each_equal_field(left: Seq<StructField>, right: Seq<StructField>) -> spec_fn(
    int,
) -> bool
    decreases left, 0nat,
{
    |i: int|
        if 0 <= i < left.len() {
            &&& left[i].name@ == right[i].name@
            &&& left[i].nullable == right[i].nullable
            &&& equal_types(left[i].data_type, right[i].data_type)
        } else {
            true
        }
}

/// The number has a precision from one to thirty-eight, a scale within it, and no more digits than its
/// precision.
pub open spec fn well_formed_decimal(value: DecimalData) -> bool {
    &&& 1 <= value.precision <= 38
    &&& value.scale <= value.precision
    &&& -pow(10, value.precision as nat) < value.bits < pow(10, value.precision as nat)
}

/// The type has possible decimals, its own tags, and fields of distinct names.
pub open spec fn well_formed_type(ty: DataType) -> bool
    decreases ty, 2nat,
{
    match ty {
        DataType::Primitive(PrimitiveType::Decimal { precision, scale }) => 1 <= precision <= 38
            && scale <= precision,
        DataType::Primitive(_) => true,
        DataType::Array(a) => a.tag@ == "array"@ && well_formed_type(a.element_type),
        DataType::Mapping(m) => m.tag@ == "map"@ && well_formed_type(m.key_type)
            && well_formed_type(m.value_type),
        DataType::Struct(s) => well_formed_fields(s.fields@),
        DataType::Variant(s) => well_formed_fields(s.fields@),
    }
}

/// No two fields share a name.
pub open spec fn distinct_names(fields: Seq<StructField>) -> bool {
    forall|i: int, j: int|
        0 <= j < i < fields.len() ==> (#[trigger] fields[i]).name@ != (#[trigger] fields[j]).name@
}

/// The fields have distinct names and well-formed types.
pub open spec fn well_formed_fields(fields: Seq<StructField>) -> bool
    decreases fields, 1nat,
{
    distinct_names(fields) && all_of(each_well_formed_field(fields), fields.len())
}

/// Whether each field has a well-formed type.
pub open spec fn each_well_formed_field(fields: Seq<StructField>) -> spec_fn(int) -> bool
    decreases fields, 0nat,
{
    |i: int|
        if 0 <= i < fields.len() {
            well_formed_type(fields[i].data_type)
        } else {
            true
        }
}

/// The primitive type of a literal that has one.
pub open spec fn primitive_of(value: Scalar) -> Option<PrimitiveType> {
    match value {
        Scalar::Integer(_) => Some(PrimitiveType::Integer),
        Scalar::Long(_) => Some(PrimitiveType::Long),
        Scalar::Short(_) => Some(PrimitiveType::Short),
        Scalar::Byte(_) => Some(PrimitiveType::Byte),
        Scalar::Float(_) => Some(PrimitiveType::Float),
        Scalar::Double(_) => Some(PrimitiveType::Double),
        Scalar::String(_) => Some(PrimitiveType::String),
        Scalar::Boolean(_) => Some(PrimitiveType::Boolean),
        Scalar::Timestamp(_) => Some(PrimitiveType::Timestamp),
        Scalar::TimestampNtz(_) => Some(PrimitiveType::TimestampNtz),
        Scalar::TimestampNanos(_) => Some(PrimitiveType::TimestampNanos),
        Scalar::Date(_) => Some(PrimitiveType::Date),
        Scalar::Binary(_) => Some(PrimitiveType::Binary),
        Scalar::IntervalYearMonth(_) => Some(PrimitiveType::IntervalYearMonth),
        Scalar::IntervalDayTime(_) => Some(PrimitiveType::IntervalDayTime),
        Scalar::Decimal(d) => Some(
            PrimitiveType::Decimal { precision: d.precision, scale: d.scale },
        ),
        _ => None,
    }
}

/// The literal is of the type: a null only where one may stand, and anything else by its own type.
pub open spec fn of_type(value: Scalar, ty: DataType, nullable: bool) -> bool {
    match value {
        Scalar::Null(own) => nullable && equal_types(own, ty),
        Scalar::Struct(s) => ty matches DataType::Struct(t) && equal_fields(s.fields@, t.fields@),
        Scalar::Array(a) => ty matches DataType::Array(t) && a.array_type.contains_null
            == t.contains_null && equal_types(a.array_type.element_type, t.element_type),
        Scalar::Mapping(m) => ty matches DataType::Mapping(t) && m.map_type.value_contains_null
            == t.value_contains_null && equal_types(m.map_type.key_type, t.key_type) && equal_types(
            m.map_type.value_type,
            t.value_type,
        ),
        _ => ty matches DataType::Primitive(p) && primitive_of(value) == Some(p),
    }
}

/// The literal and all its parts are of their declared types, which are well formed.
pub open spec fn well_formed(value: Scalar) -> bool
    decreases value, 2nat,
{
    match value {
        Scalar::Null(ty) => well_formed_type(ty),
        Scalar::Decimal(d) => well_formed_decimal(d),
        Scalar::Struct(s) => s.fields@.len() == s.values@.len() && well_formed_fields(s.fields@)
            && all_of(each_well_formed_member(s.values@, s.fields@), s.values@.len()),
        Scalar::Array(a) => a.array_type.tag@ == "array"@ && well_formed_type(
            a.array_type.element_type,
        ) && all_of(
            each_well_formed_element(
                a.elements@,
                a.array_type.element_type,
                a.array_type.contains_null,
            ),
            a.elements@.len(),
        ),
        Scalar::Mapping(m) => m.map_type.tag@ == "map"@ && well_formed_type(m.map_type.key_type)
            && well_formed_type(m.map_type.value_type) && all_of(
            each_well_formed_entry(m.pairs@, m.map_type),
            m.pairs@.len(),
        ),
        _ => true,
    }
}

/// Whether each value is well formed and of its field's type.
pub open spec fn each_well_formed_member(values: Seq<Scalar>, fields: Seq<StructField>) -> spec_fn(
    int,
) -> bool
    decreases values, 0nat,
{
    |i: int|
        if 0 <= i < values.len() {
            well_formed(values[i]) && of_type(values[i], fields[i].data_type, fields[i].nullable)
        } else {
            true
        }
}

/// Whether each element is well formed and of the list's type.
pub open spec fn each_well_formed_element(values: Seq<Scalar>, ty: DataType, nullable: bool) -> spec_fn(
    int,
) -> bool
    decreases values, 0nat,
{
    |i: int|
        if 0 <= i < values.len() {
            well_formed(values[i]) && of_type(values[i], ty, nullable)
        } else {
            true
        }
}

/// Whether each entry is well formed and of the map's types, with a key that is not null.
pub open spec fn each_well_formed_entry(pairs: Seq<MapPair>, ty: MapType) -> spec_fn(int) -> bool
    decreases pairs, 0nat,
{
    |i: int|
        if 0 <= i < pairs.len() {
            &&& well_formed(pairs[i].key)
            &&& of_type(pairs[i].key, ty.key_type, false)
            &&& well_formed(pairs[i].value)
            &&& of_type(pairs[i].value, ty.value_type, ty.value_contains_null)
        } else {
            true
        }
}

/// Every literal of the expression is well formed.
pub open spec fn well_formed_expression(expr: Expression) -> bool
    decreases expr, 1nat,
{
    match expr {
        Expression::Literal(value) => well_formed(value),
        Expression::Column(_) => true,
        Expression::Predicate(p) => well_formed_predicate(*p),
        Expression::Struct(exprs, nullability) => all_of(
            each_well_formed_expression(exprs@),
            exprs@.len(),
        ) && (match nullability {
            Some(expr) => well_formed_expression(*expr),
            None => true,
        }),
        Expression::StructPatch(patch) => all_of(
            each_well_formed_expression(patch.prepended_fields@),
            patch.prepended_fields@.len(),
        ) && all_of(
            each_well_formed_expression(patch.appended_fields@),
            patch.appended_fields@.len(),
        ),
        Expression::Unary(_, expr) => well_formed_expression(*expr),
        Expression::Binary(_, left, right) => well_formed_expression(*left)
            && well_formed_expression(*right),
        Expression::Variadic(_, exprs) => all_of(each_well_formed_expression(exprs@), exprs@.len()),
        Expression::ParseJson(expr, _) => well_formed_expression(*expr),
        Expression::MapToStruct(expr) => well_formed_expression(*expr),
        Expression::Cast(expr, _) => well_formed_expression(*expr),
        Expression::Opaque(_) => true,
        Expression::Unknown(_) => true,
    }
}

/// Whether the literals of each expression are well formed.
pub open spec fn each_well_formed_expression(exprs: Seq<Expression>) -> spec_fn(int) -> bool
    decreases exprs, 0nat,
{
    |i: int|
        if 0 <= i < exprs.len() {
            well_formed_expression(exprs[i])
        } else {
            true
        }
}

/// Every literal of the predicate is well formed.
pub open spec fn well_formed_predicate(predicate: Predicate) -> bool
    decreases predicate, 1nat,
{
    match predicate {
        Predicate::BooleanExpression(expr) => well_formed_expression(expr),
        Predicate::Not(inner) => well_formed_predicate(*inner),
        Predicate::Unary(_, expr) => well_formed_expression(*expr),
        Predicate::Binary(_, left, right) => well_formed_expression(*left)
            && well_formed_expression(*right),
        Predicate::Junction(_, preds) => all_of(each_well_formed_predicate(preds@), preds@.len()),
        Predicate::Opaque(_) => true,
        Predicate::Unknown(_) => true,
    }
}

/// Whether the literals of each predicate are well formed.
pub open spec fn each_well_formed_predicate(preds: Seq<Predicate>) -> spec_fn(int) -> bool
    decreases preds, 0nat,
{
    |i: int|
        if 0 <= i < preds.len() {
            well_formed_predicate(preds[i])
        } else {
            true
        }
}

/// Some field has the name.
pub open spec fn has_field(fields: Seq<StructField>, name: Seq<char>) -> bool {
    !(forall|i: int| 0 <= i < fields.len() ==> (#[trigger] fields[i]).name@ != name)
}

/// The constants of a scan have names of their own, each that of a field, and each file has one of the
/// field's type for each name.
pub open spec fn well_formed_scan(scan: FileScan) -> bool {
    let fields = scan.schema.fields@;
    let names = scan.file_constant_columns@;
    &&& forall|i: int| 0 <= i < names.len() ==> has_field(fields, (#[trigger] names[i])@)
    &&& forall|i: int, j: int|
        0 <= j < i < names.len() ==> (#[trigger] names[i])@ != (#[trigger] names[j])@
    &&& forall|i: int|
        0 <= i < scan.files@.len() ==> well_formed_constants(
            (#[trigger] scan.files@[i]).file_constants@,
            names,
            fields,
        )
}

/// There is one constant for each name, well formed and of the type of the first field of that name.
pub open spec fn well_formed_constants(
    values: Seq<Scalar>,
    names: Seq<String>,
    fields: Seq<StructField>,
) -> bool {
    &&& values.len() == names.len()
    &&& forall|i: int|
        0 <= i < values.len() ==> {
            let field = fields[field_position(fields, names[i]@)];
            well_formed(#[trigger] values[i]) && of_type(values[i], field.data_type, field.nullable)
        }
}

/// Every literal of the operator is well formed, and of its column's type where it stands in one.
pub open spec fn well_formed_operator(op: Operator) -> bool {
    match op {
        Operator::ScanParquet(scan) => well_formed_scan(scan),
        Operator::ScanJson(scan) => well_formed_scan(scan),
        Operator::Values(values) => forall|i: int|
            0 <= i < values.rows@.len() ==> (#[trigger] values.rows@[i])@.len()
                == values.schema.fields@.len() && all_of(
                each_well_formed_member(values.rows@[i]@, values.schema.fields@),
                values.rows@[i]@.len(),
            ),
        Operator::Project(project) => well_formed_expression(project.expr),
        Operator::Filter(filter) => well_formed_predicate(filter.predicate),
        _ => true,
    }
}

/// Texts of the same bytes are the same.
pub broadcast proof fn same_bytes_are_same_texts(left: Seq<char>, right: Seq<char>)
    ensures
        #[trigger] same(left, right) <==> left == right,
{
    vstd::utf8::encode_utf8_decode_utf8(left);
    vstd::utf8::encode_utf8_decode_utf8(right);
}

broadcast proof fn demands_refuse(holds: bool)
    ensures
        #[trigger] clean(demand(holds)) <==> holds,
{
    let refused = crate::plan_shape::refuse(PlanShapeError::InvalidLiteral);
    assert(refused[0] is Refuse);
}

broadcast proof fn comparisons_refuse_nothing(left: Seq<char>, right: Seq<char>)
    ensures
        #[trigger] clean(text_comparison(left, right)),
{
    broadcast use joined_steps;

    reveal(text_comparison);
}

broadcast proof fn steps_of_work_refuse_nothing(amount: nat)
    ensures
        #[trigger] clean(crate::plan_shape::work(amount)),
{
}

broadcast group group_clean {
    joined_steps,
    same_bytes_are_same_texts,
    demands_refuse,
    comparisons_refuse_nothing,
    steps_of_work_refuse_nothing,
}

/// The steps of a list are clean exactly where each item holds what its steps ask.
proof fn clean_lists(each: spec_fn(int) -> Seq<Step>, holds: spec_fn(int) -> bool, n: nat)
    requires
        forall|i: int| 0 <= i < n ==> (clean(#[trigger] each(i)) <==> holds(i)),
    ensures
        clean(flat(each, n)) <==> all_of(holds, n),
{
    flat_steps(each, n);
    if clean(flat(each, n)) {
        assert forall|i: int| 0 <= i < n implies #[trigger] holds(i) by {
            assert(clean(each(i)));
        }
    }
    if all_of(holds, n) {
        assert forall|i: int| 0 <= i < n implies clean(#[trigger] each(i)) by {
            assert(holds(i));
        }
    }
}

/// Two primitive types are compared by what they are, and a decimal by its powers of ten.
proof fn primitives_and_powers(left: PrimitiveType, right: PrimitiveType, n: nat)
    ensures
        same_primitive(left, right) <==> equal_primitives(left, right),
        power_of_ten(n) == pow(10, n),
    decreases n,
{
    broadcast use same_bytes_are_same_texts;

    if n == 0 {
        lemma_pow0(10);
    } else {
        primitives_and_powers(left, right, (n - 1) as nat);
        reveal(pow);
    }
}

proof fn types_are_compared(left: DataType, right: DataType)
    ensures
        clean(same_type_steps(left, right)) <==> equal_types(left, right),
    decreases left, 2nat,
{
    broadcast use group_clean;

    match (left, right) {
        (DataType::Primitive(p), DataType::Primitive(q)) => {
            primitives_and_powers(p, q, 0);
        },
        (DataType::Array(a), DataType::Array(b)) => {
            types_are_compared(a.element_type, b.element_type);
        },
        (DataType::Mapping(a), DataType::Mapping(b)) => {
            types_are_compared(a.key_type, b.key_type);
            types_are_compared(a.value_type, b.value_type);
        },
        (DataType::Struct(a), DataType::Struct(b)) => {
            fields_are_compared(a.fields@, b.fields@);
        },
        (DataType::Variant(a), DataType::Variant(b)) => {
            fields_are_compared(a.fields@, b.fields@);
        },
        _ => {},
    }
}

proof fn fields_are_compared(left: Seq<StructField>, right: Seq<StructField>)
    ensures
        clean(same_fields_steps(left, right)) <==> equal_fields(left, right),
    decreases left, 1nat,
{
    broadcast use group_clean;

    let each = each_same_field(left, right);
    let holds = each_equal_field(left, right);
    assert forall|i: int| 0 <= i < left.len() implies (clean(#[trigger] each(i)) <==> holds(i)) by {
        types_are_compared(left[i].data_type, right[i].data_type);
    }
    clean_lists(each, holds, left.len());
}

proof fn names_are_compared(fields: Seq<StructField>)
    ensures
        clean(flat(each_unique(fields), fields.len())) <==> distinct_names(fields),
{
    broadcast use group_clean;

    let each = each_unique(fields);
    let holds = |i: int|
        forall|j: int| 0 <= j < i ==> fields[i].name@ != (#[trigger] fields[j]).name@;
    assert forall|i: int| 0 <= i < fields.len() implies (clean(#[trigger] each(i)) <==> holds(i)) by {
        let earlier = each_earlier(fields, i);
        let other = |j: int| fields[i].name@ != fields[j].name@;
        assert forall|j: int| 0 <= j < i implies (clean(#[trigger] earlier(j)) <==> other(j)) by {}
        clean_lists(earlier, other, i as nat);
        if all_of(other, i as nat) {
            assert forall|j: int| 0 <= j < i implies fields[i].name@ != (#[trigger] fields[j]).name@ by {
                assert(other(j));
            }
        }
    }
    clean_lists(each, holds, fields.len());
    if all_of(holds, fields.len()) {
        assert forall|i: int, j: int| 0 <= j < i < fields.len() implies (#[trigger] fields[i]).name@
            != (#[trigger] fields[j]).name@ by {
            assert(holds(i));
        }
    }
}

proof fn types_are_checked(ty: DataType)
    ensures
        clean(type_valid_steps(ty)) <==> well_formed_type(ty),
    decreases ty, 2nat,
{
    broadcast use group_clean;

    match ty {
        DataType::Primitive(_) => {},
        DataType::Array(a) => {
            types_are_checked(a.element_type);
        },
        DataType::Mapping(m) => {
            types_are_checked(m.key_type);
            types_are_checked(m.value_type);
        },
        DataType::Struct(s) => {
            fields_are_checked(s.fields@);
        },
        DataType::Variant(s) => {
            fields_are_checked(s.fields@);
        },
    }
}

proof fn fields_are_checked(fields: Seq<StructField>)
    ensures
        clean(fields_valid_steps(fields)) <==> well_formed_fields(fields),
    decreases fields, 1nat,
{
    broadcast use group_clean;

    names_are_compared(fields);
    let each = each_field_valid(fields);
    let holds = each_well_formed_field(fields);
    assert forall|i: int| 0 <= i < fields.len() implies (clean(#[trigger] each(i)) <==> holds(i)) by {
        types_are_checked(fields[i].data_type);
    }
    clean_lists(each, holds, fields.len());
}

proof fn literals_are_matched(value: Scalar, ty: DataType, nullable: bool)
    ensures
        clean(matching_steps(value, ty, nullable)) <==> of_type(value, ty, nullable),
{
    broadcast use group_clean;

    reveal(matching_steps);
    match value {
        Scalar::Null(own) => {
            types_are_compared(own, ty);
        },
        Scalar::Struct(s) => {
            if let DataType::Struct(t) = ty {
                fields_are_compared(s.fields@, t.fields@);
            }
        },
        Scalar::Array(a) => {
            if let DataType::Array(t) = ty {
                types_are_compared(a.array_type.element_type, t.element_type);
            }
        },
        Scalar::Mapping(m) => {
            if let DataType::Mapping(t) = ty {
                types_are_compared(m.map_type.key_type, t.key_type);
                types_are_compared(m.map_type.value_type, t.value_type);
            }
        },
        _ => {
            if let DataType::Primitive(p) = ty {
                assert(kind_matches(value, p) <==> primitive_of(value) == Some(p));
            }
        },
    }
}

proof fn fitting_literals(value: Scalar, ty: DataType, nullable: bool)
    ensures
        clean(fitting_steps(value, ty, nullable)) <==> well_formed(value) && of_type(
            value,
            ty,
            nullable,
        ),
    decreases value, 3nat,
{
    broadcast use group_clean;

    literals_are_checked(value);
    literals_are_matched(value, ty, nullable);
}

proof fn literals_are_checked(value: Scalar)
    ensures
        clean(literal_steps(value)) <==> well_formed(value),
    decreases value, 2nat,
{
    broadcast use group_clean;

    match value {
        Scalar::Null(ty) => {
            types_are_checked(ty);
        },
        Scalar::Decimal(d) => {
            primitives_and_powers(PrimitiveType::Void, PrimitiveType::Void, d.precision as nat);
        },
        Scalar::Struct(s) => {
            fields_are_checked(s.fields@);
            members_are_checked(s.values@, s.fields@);
        },
        Scalar::Array(a) => {
            types_are_checked(a.array_type.element_type);
            let ty = a.array_type.element_type;
            let nullable = a.array_type.contains_null;
            let values = a.elements@;
            let each = each_element(values, ty, nullable);
            let holds = each_well_formed_element(values, ty, nullable);
            assert forall|i: int| 0 <= i < values.len() implies (clean(#[trigger] each(i)) <==> holds(
                i,
            )) by {
                fitting_literals(values[i], ty, nullable);
            }
            clean_lists(each, holds, values.len());
        },
        Scalar::Mapping(m) => {
            types_are_checked(m.map_type.key_type);
            types_are_checked(m.map_type.value_type);
            let ty = m.map_type;
            let pairs = m.pairs@;
            let each = each_entry(pairs, ty);
            let holds = each_well_formed_entry(pairs, ty);
            assert forall|i: int| 0 <= i < pairs.len() implies (clean(#[trigger] each(i)) <==> holds(
                i,
            )) by {
                fitting_literals(pairs[i].key, ty.key_type, false);
                fitting_literals(pairs[i].value, ty.value_type, ty.value_contains_null);
            }
            clean_lists(each, holds, pairs.len());
        },
        _ => {},
    }
}

proof fn members_are_checked(values: Seq<Scalar>, fields: Seq<StructField>)
    ensures
        clean(flat(each_member(values, fields), values.len())) <==> all_of(
            each_well_formed_member(values, fields),
            values.len(),
        ),
    decreases values, 0nat,
{
    let each = each_member(values, fields);
    let holds = each_well_formed_member(values, fields);
    assert forall|i: int| 0 <= i < values.len() implies (clean(#[trigger] each(i)) <==> holds(i)) by {
        fitting_literals(values[i], fields[i].data_type, fields[i].nullable);
    }
    clean_lists(each, holds, values.len());
}

proof fn expressions_are_checked(expr: Expression)
    ensures
        clean(expression_literals(expr)) <==> well_formed_expression(expr),
    decreases expr, 1nat,
{
    broadcast use group_clean;

    match expr {
        Expression::Literal(value) => {
            literals_are_checked(value);
        },
        Expression::Predicate(p) => {
            predicates_are_checked(*p);
        },
        Expression::Struct(exprs, nullability) => {
            expression_lists_are_checked(exprs@);
            if let Some(inner) = nullability {
                expressions_are_checked(*inner);
            }
        },
        Expression::StructPatch(patch) => {
            expression_lists_are_checked(patch.prepended_fields@);
            expression_lists_are_checked(patch.appended_fields@);
        },
        Expression::Unary(_, inner) => {
            expressions_are_checked(*inner);
        },
        Expression::Binary(_, left, right) => {
            expressions_are_checked(*left);
            expressions_are_checked(*right);
        },
        Expression::Variadic(_, exprs) => {
            expression_lists_are_checked(exprs@);
        },
        Expression::ParseJson(inner, _) => {
            expressions_are_checked(*inner);
        },
        Expression::MapToStruct(inner) => {
            expressions_are_checked(*inner);
        },
        Expression::Cast(inner, _) => {
            expressions_are_checked(*inner);
        },
        _ => {},
    }
}

proof fn expression_lists_are_checked(exprs: Seq<Expression>)
    ensures
        clean(flat(each_literals(exprs), exprs.len())) <==> all_of(
            each_well_formed_expression(exprs),
            exprs.len(),
        ),
    decreases exprs, 0nat,
{
    let each = each_literals(exprs);
    let holds = each_well_formed_expression(exprs);
    assert forall|i: int| 0 <= i < exprs.len() implies (clean(#[trigger] each(i)) <==> holds(i)) by {
        expressions_are_checked(exprs[i]);
    }
    clean_lists(each, holds, exprs.len());
}

proof fn predicates_are_checked(predicate: Predicate)
    ensures
        clean(predicate_literals(predicate)) <==> well_formed_predicate(predicate),
    decreases predicate, 1nat,
{
    broadcast use group_clean;

    match predicate {
        Predicate::BooleanExpression(expr) => {
            expressions_are_checked(expr);
        },
        Predicate::Not(inner) => {
            predicates_are_checked(*inner);
        },
        Predicate::Unary(_, expr) => {
            expressions_are_checked(*expr);
        },
        Predicate::Binary(_, left, right) => {
            expressions_are_checked(*left);
            expressions_are_checked(*right);
        },
        Predicate::Junction(_, preds) => {
            let each = each_predicate_literals(preds@);
            let holds = each_well_formed_predicate(preds@);
            assert forall|i: int| 0 <= i < preds@.len() implies (clean(#[trigger] each(i))
                <==> holds(i)) by {
                predicates_are_checked(preds@[i]);
            }
            clean_lists(each, holds, preds@.len());
        },
        _ => {},
    }
}

/// A field is found by its name exactly where some field has it, and the first one is found.
pub proof fn fields_are_found_by_their_names(fields: Seq<StructField>, name: Seq<char>)
    ensures
        ({
            let at = field_position(fields, name);
            &&& 0 <= at <= fields.len()
            &&& at < fields.len() <==> has_field(fields, name)
            &&& at < fields.len() ==> fields[at].name@ == name
            &&& forall|i: int| 0 <= i < at ==> (#[trigger] fields[i]).name@ != name
        }),
    decreases fields.len(),
{
    if fields.len() > 0 {
        vstd::utf8::encode_utf8_decode_utf8(fields[0].name@);
        vstd::utf8::encode_utf8_decode_utf8(name);
        if fields[0].name@ != name {
            let rest = fields.drop_first();
            fields_are_found_by_their_names(rest, name);
            let at = field_position(fields, name);
            assert(at == 1 + field_position(rest, name));
            assert forall|i: int| 0 <= i < at implies (#[trigger] fields[i]).name@ != name by {
                if i > 0 {
                    assert(rest[i - 1] == fields[i]);
                }
            }
            if at < fields.len() {
                assert(rest[at - 1] == fields[at]);
                assert(fields[at].name@ == name);
            }
        } else {
            assert(fields[0].name@ == name);
        }
    }
}

proof fn lookups_are_checked(fields: Seq<StructField>, name: Seq<char>)
    ensures
        clean(lookup_steps(fields, name)) <==> has_field(fields, name),
{
    broadcast use group_clean;

    reveal(lookup_steps);
    fields_are_found_by_their_names(fields, name);
    let position = field_position(fields, name);
    let n = (if position < fields.len() {
        position + 1
    } else {
        fields.len() as int
    }) as nat;
    let each = each_probe(fields, name);
    assert forall|i: int| 0 <= i < n implies clean(#[trigger] each(i)) by {}
    flat_steps(each, n);
}

proof fn constant_names_are_checked(names: Seq<String>, fields: Seq<StructField>)
    ensures
        clean(flat(each_constant(names, fields), names.len())) <==> {
            &&& forall|i: int| 0 <= i < names.len() ==> has_field(fields, (#[trigger] names[i])@)
            &&& forall|i: int, j: int|
                0 <= j < i < names.len() ==> (#[trigger] names[i])@ != (#[trigger] names[j])@
        },
{
    broadcast use group_clean;

    let each = each_constant(names, fields);
    let holds = |i: int|
        has_field(fields, names[i]@) && forall|j: int|
            0 <= j < i ==> names[i]@ != (#[trigger] names[j])@;
    assert forall|i: int| 0 <= i < names.len() implies (clean(#[trigger] each(i)) <==> holds(i)) by {
        let earlier = each_earlier_name(names, i);
        let other = |j: int| names[i]@ != names[j]@;
        assert forall|j: int| 0 <= j < i implies (clean(#[trigger] earlier(j)) <==> other(j)) by {}
        clean_lists(earlier, other, i as nat);
        lookups_are_checked(fields, names[i]@);
        if all_of(other, i as nat) {
            assert forall|j: int| 0 <= j < i implies names[i]@ != (#[trigger] names[j])@ by {
                assert(other(j));
            }
        }
    }
    clean_lists(each, holds, names.len());
    if all_of(holds, names.len()) {
        assert forall|i: int| 0 <= i < names.len() implies has_field(
            fields,
            (#[trigger] names[i])@,
        ) by {
            assert(holds(i));
        }
        assert forall|i: int, j: int| 0 <= j < i < names.len() implies (#[trigger] names[i])@ != (
        #[trigger] names[j])@ by {
            assert(holds(i));
        }
    }
}

proof fn constants_are_checked(values: Seq<Scalar>, names: Seq<String>, fields: Seq<StructField>)
    requires
        values.len() == names.len(),
        forall|i: int| 0 <= i < names.len() ==> has_field(fields, (#[trigger] names[i])@),
    ensures
        clean(flat(each_file_constant(values, names, fields), values.len()))
            <==> well_formed_constants(values, names, fields),
{
    broadcast use group_clean;

    let each = each_file_constant(values, names, fields);
    let holds = |i: int|
        {
            let field = fields[field_position(fields, names[i]@)];
            well_formed(values[i]) && of_type(values[i], field.data_type, field.nullable)
        };
    assert forall|i: int| 0 <= i < values.len() implies (clean(#[trigger] each(i)) <==> holds(i)) by {
        let field = fields[field_position(fields, names[i]@)];
        assert(has_field(fields, names[i]@));
        lookups_are_checked(fields, names[i]@);
        fitting_literals(values[i], field.data_type, field.nullable);
    }
    clean_lists(each, holds, values.len());
    if all_of(holds, values.len()) {
        assert forall|i: int| 0 <= i < values.len() implies ({
            let field = fields[field_position(fields, names[i]@)];
            well_formed(#[trigger] values[i]) && of_type(values[i], field.data_type, field.nullable)
        }) by {
            assert(holds(i));
        }
    }
}

proof fn scans_are_checked(scan: FileScan)
    ensures
        clean(scan_literals(scan)) <==> well_formed_scan(scan),
{
    broadcast use group_clean;

    reveal(scan_literals);
    let fields = scan.schema.fields@;
    let names = scan.file_constant_columns@;
    let files = scan.files@;
    constant_names_are_checked(names, fields);
    if forall|i: int| 0 <= i < names.len() ==> has_field(fields, (#[trigger] names[i])@) {
        let each = each_file_literals(files, names, fields);
        let holds = |i: int| well_formed_constants(files[i].file_constants@, names, fields);
        assert forall|i: int| 0 <= i < files.len() implies (clean(#[trigger] each(i)) <==> holds(
            i,
        )) by {
            if files[i].file_constants@.len() == names.len() {
                constants_are_checked(files[i].file_constants@, names, fields);
            }
        }
        clean_lists(each, holds, files.len());
        if all_of(holds, files.len()) {
            assert forall|i: int| 0 <= i < files.len() implies well_formed_constants(
                (#[trigger] files[i]).file_constants@,
                names,
                fields,
            ) by {
                assert(holds(i));
            }
        }
    }
}

proof fn operators_are_checked(op: Operator)
    ensures
        clean(operator_literals(op)) <==> well_formed_operator(op),
{
    broadcast use group_clean;

    reveal(operator_literals);
    match op {
        Operator::ScanParquet(scan) => {
            scans_are_checked(scan);
        },
        Operator::ScanJson(scan) => {
            scans_are_checked(scan);
        },
        Operator::Values(values) => {
            let rows = values.rows@;
            let fields = values.schema.fields@;
            let each = each_row_literals(rows, fields);
            let holds = |i: int|
                rows[i]@.len() == fields.len() && all_of(
                    each_well_formed_member(rows[i]@, fields),
                    rows[i]@.len(),
                );
            assert forall|i: int| 0 <= i < rows.len() implies (clean(#[trigger] each(i)) <==> holds(
                i,
            )) by {
                members_are_checked(rows[i]@, fields);
            }
            clean_lists(each, holds, rows.len());
            if all_of(holds, rows.len()) {
                assert forall|i: int| 0 <= i < rows.len() implies (#[trigger] rows[i])@.len()
                    == fields.len() && all_of(
                    each_well_formed_member(rows[i]@, fields),
                    rows[i]@.len(),
                ) by {
                    assert(holds(i));
                }
            }
        },
        Operator::Project(project) => {
            expressions_are_checked(project.expr);
        },
        Operator::Filter(filter) => {
            predicates_are_checked(filter.predicate);
        },
        _ => {},
    }
}

/// An inspected plan passes the preflight of its literals where every literal is well formed and of the
/// type of the column that it stands in, as far as the allowance of work goes. A plan that has any
/// other literal is refused.
pub proof fn well_formed_literals_are_accepted(plan: Plan, limits: TaskLimits, scratch: nat)
    requires
        inspected(plan, limits, scratch) is Ok,
    ensures
        ({
            let nodes = plan.nodes@;
            let kept = forall|i: int|
                0 <= i < nodes.len() ==> well_formed_operator((#[trigger] nodes[i]).op);
            &&& kept ==> (inspected_literals(plan, limits, scratch) matches Err(error) ==> error
                is ResourceExhausted)
            &&& !kept ==> inspected_literals(plan, limits, scratch) is Err
        }),
{
    plans_refuse_other_literals(plan.nodes@);
    let shape = inspected(plan, limits, scratch)->Ok_0;
    clean_runs_exhaust(
        limits,
        Tally { encoded: 0, work: shape.work_units, schema_nodes: 0 },
        flat(each_node_literals(plan.nodes@), plan.nodes@.len()),
    );
}

/// The steps of a plan's literals refuse something exactly where one of them is not well formed.
pub proof fn plans_refuse_other_literals(nodes: Seq<PlanNode>)
    ensures
        clean(flat(each_node_literals(nodes), nodes.len())) <==> forall|i: int|
            0 <= i < nodes.len() ==> well_formed_operator((#[trigger] nodes[i]).op),
{
    let each = each_node_literals(nodes);
    let holds = |i: int| well_formed_operator(nodes[i].op);
    assert forall|i: int| 0 <= i < nodes.len() implies (clean(#[trigger] each(i)) <==> holds(i)) by {
        operators_are_checked(nodes[i].op);
    }
    clean_lists(each, holds, nodes.len());
    if all_of(holds, nodes.len()) {
        assert forall|i: int| 0 <= i < nodes.len() implies well_formed_operator(
            (#[trigger] nodes[i]).op,
        ) by {
            assert(holds(i));
        }
    }
}

} // verus!
