//! Literal preflight: every literal of a plan fits its declared type.
//!
//! The comparisons that this takes are charged as work, behind the structural inspection.

use crate::accounting::TaskLimits;
use crate::bytes::{byte_len, same_text, utf8};
use crate::inspection::{flat, flat_stops, run, PlanShapeError, Step, Tally};
use crate::plan::{
    DecimalData, Expression, FileScan, MapPair, Operator, Plan, PlanNode, Predicate, Scalar,
    ScanFile,
};
use crate::plan_shape::{inspected, node_depth, unless, work, PlanShape, ShapeView, Walk};
use crate::schema::{field_position, ArrayType, DataType, MapType, PrimitiveType, StructField};
use vstd::prelude::*;

verus! {

broadcast use crate::inspection::group_run;

/// A literal is refused, unless the condition holds.
pub open spec fn demand(holds: bool) -> Seq<Step> {
    unless(holds, PlanShapeError::InvalidLiteral)
}

/// The steps of comparing two texts.
#[verifier::opaque]
pub open spec fn text_comparison(left: Seq<char>, right: Seq<char>) -> Seq<Step> {
    work(1) + work(utf8(left).len()) + work(utf8(right).len())
}

/// Two texts are the same bytes.
pub open spec fn same(left: Seq<char>, right: Seq<char>) -> bool {
    utf8(left) == utf8(right)
}

/// Two primitive types are the same.
pub open spec fn same_primitive(left: PrimitiveType, right: PrimitiveType) -> bool {
    match (left, right) {
        (
            PrimitiveType::Decimal { precision: p, scale: s },
            PrimitiveType::Decimal { precision: q, scale: t },
        ) => p == q && s == t,
        (PrimitiveType::Geometry { crs: a }, PrimitiveType::Geometry { crs: b }) => same(a@, b@),
        (PrimitiveType::Geography { crs: a }, PrimitiveType::Geography { crs: b }) => same(a@, b@),
        (PrimitiveType::String, PrimitiveType::String) => true,
        (PrimitiveType::Long, PrimitiveType::Long) => true,
        (PrimitiveType::Integer, PrimitiveType::Integer) => true,
        (PrimitiveType::Short, PrimitiveType::Short) => true,
        (PrimitiveType::Byte, PrimitiveType::Byte) => true,
        (PrimitiveType::Float, PrimitiveType::Float) => true,
        (PrimitiveType::Double, PrimitiveType::Double) => true,
        (PrimitiveType::Boolean, PrimitiveType::Boolean) => true,
        (PrimitiveType::Binary, PrimitiveType::Binary) => true,
        (PrimitiveType::Date, PrimitiveType::Date) => true,
        (PrimitiveType::Timestamp, PrimitiveType::Timestamp) => true,
        (PrimitiveType::TimestampNtz, PrimitiveType::TimestampNtz) => true,
        (PrimitiveType::TimestampNanos, PrimitiveType::TimestampNanos) => true,
        (PrimitiveType::Void, PrimitiveType::Void) => true,
        (PrimitiveType::IntervalYearMonth, PrimitiveType::IntervalYearMonth) => true,
        (PrimitiveType::IntervalDayTime, PrimitiveType::IntervalDayTime) => true,
        _ => false,
    }
}

/// The steps of comparing two types, down to the order of nested fields.
pub open spec fn same_type_steps(left: DataType, right: DataType) -> Seq<Step>
    decreases left, 1nat,
{
    work(1) + same_type_body(left, right)
}

/// The steps of comparing what two types consist of.
pub open spec fn same_type_body(left: DataType, right: DataType) -> Seq<Step>
    decreases left, 0nat,
{
    match (left, right) {
        (DataType::Primitive(p), DataType::Primitive(q)) => demand(same_primitive(p, q)),
        (DataType::Array(a), DataType::Array(b)) => same_array_steps(*a, *b),
        (DataType::Mapping(a), DataType::Mapping(b)) => same_map_steps(*a, *b),
        (DataType::Struct(a), DataType::Struct(b)) => same_fields_steps(a.fields@, b.fields@),
        (DataType::Variant(a), DataType::Variant(b)) => same_fields_steps(a.fields@, b.fields@),
        _ => demand(false),
    }
}

/// The steps of comparing two list types.
pub open spec fn same_array_steps(left: ArrayType, right: ArrayType) -> Seq<Step>
    decreases left, 0nat,
{
    demand(left.contains_null == right.contains_null) + same_type_steps(
        left.element_type,
        right.element_type,
    )
}

/// The steps of comparing two map types.
pub open spec fn same_map_steps(left: MapType, right: MapType) -> Seq<Step>
    decreases left, 0nat,
{
    demand(left.value_contains_null == right.value_contains_null) + same_type_steps(
        left.key_type,
        right.key_type,
    ) + same_type_steps(left.value_type, right.value_type)
}

/// The steps of comparing two lists of fields.
pub open spec fn same_fields_steps(left: Seq<StructField>, right: Seq<StructField>) -> Seq<Step>
    decreases left, 1nat,
{
    demand(left.len() == right.len()) + flat(each_same_field(left, right), left.len())
}

/// The steps of comparing each field with its partner.
pub open spec fn each_same_field(left: Seq<StructField>, right: Seq<StructField>) -> spec_fn(
    int,
) -> Seq<Step>
    decreases left, 0nat,
{
    |i: int|
        if 0 <= i < left.len() {
            text_comparison(left[i].name@, right[i].name@) + demand(
                same(left[i].name@, right[i].name@) && left[i].nullable == right[i].nullable,
            ) + same_type_steps(left[i].data_type, right[i].data_type)
        } else {
            Seq::empty()
        }
}

/// A fixed-point type that exists.
pub open spec fn decimal_type_valid(precision: u8, scale: u8) -> bool {
    1 <= precision <= 38 && scale <= precision
}

/// Ten to the power of `n`.
pub open spec fn power_of_ten(n: nat) -> int
    decreases n,
{
    if n == 0 {
        1
    } else {
        10 * power_of_ten((n - 1) as nat)
    }
}

/// A fixed-point literal whose digits fit its type.
pub open spec fn decimal_valid(value: DecimalData) -> bool {
    &&& decimal_type_valid(value.precision, value.scale)
    &&& -power_of_ten(value.precision as nat) < value.bits < power_of_ten(value.precision as nat)
}

/// The steps of checking a type: its tags, its digits and its field names.
pub open spec fn type_valid_steps(ty: DataType) -> Seq<Step>
    decreases ty, 1nat,
{
    work(1) + type_valid_body(ty)
}

/// The steps of checking what a type consists of.
pub open spec fn type_valid_body(ty: DataType) -> Seq<Step>
    decreases ty, 0nat,
{
    match ty {
        DataType::Primitive(PrimitiveType::Decimal { precision, scale }) => demand(
            decimal_type_valid(precision, scale),
        ),
        DataType::Primitive(_) => Seq::empty(),
        DataType::Array(a) => array_valid_steps(*a),
        DataType::Mapping(m) => map_valid_steps(*m),
        DataType::Struct(s) => fields_valid_steps(s.fields@),
        DataType::Variant(s) => fields_valid_steps(s.fields@),
    }
}

/// The steps of checking a list type.
pub open spec fn array_valid_steps(ty: ArrayType) -> Seq<Step>
    decreases ty, 0nat,
{
    demand(same(ty.tag@, "array"@)) + type_valid_steps(ty.element_type)
}

/// The steps of checking a map type.
pub open spec fn map_valid_steps(ty: MapType) -> Seq<Step>
    decreases ty, 0nat,
{
    demand(same(ty.tag@, "map"@)) + type_valid_steps(ty.key_type) + type_valid_steps(ty.value_type)
}

/// The steps of checking a list of fields.
pub open spec fn fields_valid_steps(fields: Seq<StructField>) -> Seq<Step>
    decreases fields, 1nat,
{
    flat(each_unique(fields), fields.len()) + flat(each_field_valid(fields), fields.len())
}

/// The steps of checking each field's type.
pub open spec fn each_field_valid(fields: Seq<StructField>) -> spec_fn(int) -> Seq<Step>
    decreases fields, 0nat,
{
    |i: int|
        if 0 <= i < fields.len() {
            type_valid_steps(fields[i].data_type)
        } else {
            Seq::empty()
        }
}

/// The steps of comparing each field's name with those before it.
pub open spec fn each_unique(fields: Seq<StructField>) -> spec_fn(int) -> Seq<Step> {
    |i: int| flat(each_earlier(fields, i), i as nat)
}

/// The steps of comparing a field's name with each before it.
pub open spec fn each_earlier(fields: Seq<StructField>, i: int) -> spec_fn(int) -> Seq<Step> {
    |j: int|
        text_comparison(fields[i].name@, fields[j].name@) + demand(
            !same(fields[i].name@, fields[j].name@),
        )
}

/// A literal without parts is of a primitive type.
pub open spec fn kind_matches(value: Scalar, ty: PrimitiveType) -> bool {
    match value {
        Scalar::Integer(_) => ty is Integer,
        Scalar::Long(_) => ty is Long,
        Scalar::Short(_) => ty is Short,
        Scalar::Byte(_) => ty is Byte,
        Scalar::Float(_) => ty is Float,
        Scalar::Double(_) => ty is Double,
        Scalar::String(_) => ty is String,
        Scalar::Boolean(_) => ty is Boolean,
        Scalar::Timestamp(_) => ty is Timestamp,
        Scalar::TimestampNtz(_) => ty is TimestampNtz,
        Scalar::TimestampNanos(_) => ty is TimestampNanos,
        Scalar::Date(_) => ty is Date,
        Scalar::Binary(_) => ty is Binary,
        Scalar::IntervalYearMonth(_) => ty is IntervalYearMonth,
        Scalar::IntervalDayTime(_) => ty is IntervalDayTime,
        Scalar::Decimal(d) => ty == (PrimitiveType::Decimal {
            precision: d.precision,
            scale: d.scale,
        }),
        _ => false,
    }
}

/// The steps of comparing a literal's own type with a declared one.
#[verifier::opaque]
pub open spec fn matching_steps(value: Scalar, ty: DataType, nullable: bool) -> Seq<Step> {
    match value {
        Scalar::Null(own) => demand(nullable) + same_type_steps(own, ty),
        Scalar::Struct(s) => match ty {
            DataType::Struct(t) => same_fields_steps(s.fields@, t.fields@),
            _ => demand(false),
        },
        Scalar::Array(a) => match ty {
            DataType::Array(t) => same_array_steps(a.array_type, *t),
            _ => demand(false),
        },
        Scalar::Mapping(m) => match ty {
            DataType::Mapping(t) => same_map_steps(m.map_type, *t),
            _ => demand(false),
        },
        _ => demand(ty matches DataType::Primitive(p) && kind_matches(value, p)),
    }
}

/// The steps of checking a literal against a declared type.
pub open spec fn fitting_steps(value: Scalar, ty: DataType, nullable: bool) -> Seq<Step>
    decreases value, 2nat,
{
    literal_steps(value) + matching_steps(value, ty, nullable)
}

/// The steps of checking a literal in itself.
pub open spec fn literal_steps(value: Scalar) -> Seq<Step>
    decreases value, 1nat,
{
    work(1) + literal_body(value)
}

/// The steps of checking what a literal holds.
pub open spec fn literal_body(value: Scalar) -> Seq<Step>
    decreases value, 0nat,
{
    match value {
        Scalar::Null(ty) => type_valid_steps(ty),
        Scalar::Decimal(d) => demand(decimal_valid(d)),
        Scalar::Struct(s) => demand(s.fields@.len() == s.values@.len()) + fields_valid_steps(
            s.fields@,
        ) + flat(each_member(s.values@, s.fields@), s.values@.len()),
        Scalar::Array(a) => array_valid_steps(a.array_type) + flat(
            each_element(a.elements@, a.array_type.element_type, a.array_type.contains_null),
            a.elements@.len(),
        ),
        Scalar::Mapping(m) => map_valid_steps(m.map_type) + flat(
            each_entry(m.pairs@, m.map_type),
            m.pairs@.len(),
        ),
        _ => Seq::empty(),
    }
}

/// The steps of checking each value against its field.
pub open spec fn each_member(values: Seq<Scalar>, fields: Seq<StructField>) -> spec_fn(int) -> Seq<
    Step,
>
    decreases values, 0nat,
{
    |i: int|
        if 0 <= i < values.len() {
            member_steps(values[i], fields[i])
        } else {
            Seq::empty()
        }
}

/// The steps of checking a value against its field.
pub open spec fn member_steps(value: Scalar, field: StructField) -> Seq<Step>
    decreases value, 3nat,
{
    fitting_steps(value, field.data_type, field.nullable)
}

/// The steps of checking each element of a list.
pub open spec fn each_element(values: Seq<Scalar>, ty: DataType, nullable: bool) -> spec_fn(int) -> Seq<
    Step,
>
    decreases values, 0nat,
{
    |i: int|
        if 0 <= i < values.len() {
            fitting_steps(values[i], ty, nullable)
        } else {
            Seq::empty()
        }
}

/// The steps of checking each entry of a map.
pub open spec fn each_entry(pairs: Seq<MapPair>, ty: MapType) -> spec_fn(int) -> Seq<Step>
    decreases pairs, 0nat,
{
    |i: int|
        if 0 <= i < pairs.len() {
            entry_steps(pairs[i], ty)
        } else {
            Seq::empty()
        }
}

/// The steps of checking an entry of a map, whose key is never null.
pub open spec fn entry_steps(pair: MapPair, ty: MapType) -> Seq<Step>
    decreases pair, 0nat,
{
    fitting_steps(pair.key, ty.key_type, false) + fitting_steps(
        pair.value,
        ty.value_type,
        ty.value_contains_null,
    )
}

/// The steps of checking the literals of an expression.
pub open spec fn expression_literals(expr: Expression) -> Seq<Step>
    decreases expr, 1nat,
{
    expression_literals_body(expr)
}

/// The steps of checking the literals of an expression's parts.
pub open spec fn expression_literals_body(expr: Expression) -> Seq<Step>
    decreases expr, 0nat,
{
    match expr {
        Expression::Literal(value) => literal_steps(value),
        Expression::Column(_) => Seq::empty(),
        Expression::Predicate(p) => predicate_literals(*p),
        Expression::Struct(exprs, nullability) => flat(each_literals(exprs@), exprs@.len()) + (
        match nullability {
            Some(expr) => expression_literals(*expr),
            None => Seq::empty(),
        }),
        Expression::StructPatch(patch) => flat(
            each_literals(patch.prepended_fields@),
            patch.prepended_fields@.len(),
        ) + flat(each_literals(patch.appended_fields@), patch.appended_fields@.len()),
        Expression::Unary(_, expr) => expression_literals(*expr),
        Expression::Binary(_, left, right) => expression_literals(*left) + expression_literals(
            *right,
        ),
        Expression::Variadic(_, exprs) => flat(each_literals(exprs@), exprs@.len()),
        Expression::ParseJson(expr, _) => expression_literals(*expr),
        Expression::MapToStruct(expr) => expression_literals(*expr),
        Expression::Cast(expr, _) => expression_literals(*expr),
        Expression::Opaque(_) => Seq::empty(),
        Expression::Unknown(_) => Seq::empty(),
    }
}

/// The steps of checking the literals of each expression.
pub open spec fn each_literals(exprs: Seq<Expression>) -> spec_fn(int) -> Seq<Step>
    decreases exprs, 0nat,
{
    |i: int|
        if 0 <= i < exprs.len() {
            expression_literals(exprs[i])
        } else {
            Seq::empty()
        }
}

/// The steps of checking the literals of a predicate.
pub open spec fn predicate_literals(predicate: Predicate) -> Seq<Step>
    decreases predicate, 1nat,
{
    predicate_literals_body(predicate)
}

/// The steps of checking the literals of a predicate's parts.
pub open spec fn predicate_literals_body(predicate: Predicate) -> Seq<Step>
    decreases predicate, 0nat,
{
    match predicate {
        Predicate::BooleanExpression(expr) => expression_literals(expr),
        Predicate::Not(inner) => predicate_literals(*inner),
        Predicate::Unary(_, expr) => expression_literals(*expr),
        Predicate::Binary(_, left, right) => expression_literals(*left) + expression_literals(
            *right,
        ),
        Predicate::Junction(_, preds) => flat(each_predicate_literals(preds@), preds@.len()),
        Predicate::Opaque(_) => Seq::empty(),
        Predicate::Unknown(_) => Seq::empty(),
    }
}

/// The steps of checking the literals of each predicate.
pub open spec fn each_predicate_literals(preds: Seq<Predicate>) -> spec_fn(int) -> Seq<Step>
    decreases preds, 0nat,
{
    |i: int|
        if 0 <= i < preds.len() {
            predicate_literals(preds[i])
        } else {
            Seq::empty()
        }
}

/// The steps of checking each row against the schema.
pub open spec fn each_row_literals(rows: Seq<Vec<Scalar>>, fields: Seq<StructField>) -> spec_fn(
    int,
) -> Seq<Step> {
    |i: int|
        demand(rows[i]@.len() == fields.len()) + flat(
            each_member(rows[i]@, fields),
            rows[i]@.len(),
        )
}

/// The steps of looking a constant column up: its name is compared with the fields in order.
#[verifier::opaque]
pub open spec fn lookup_steps(fields: Seq<StructField>, name: Seq<char>) -> Seq<Step> {
    let position = field_position(fields, name);
    flat(
        each_probe(fields, name),
        (if position < fields.len() {
            position + 1
        } else {
            fields.len() as int
        }) as nat,
    ) + demand(position < fields.len())
}

/// The steps of comparing a name with each field's.
pub open spec fn each_probe(fields: Seq<StructField>, name: Seq<char>) -> spec_fn(int) -> Seq<Step> {
    |i: int| text_comparison(name, fields[i].name@)
}

/// The steps of comparing each constant column with those before it and of looking it up.
pub open spec fn each_constant(names: Seq<String>, fields: Seq<StructField>) -> spec_fn(int) -> Seq<
    Step,
> {
    |i: int| flat(each_earlier_name(names, i), i as nat) + lookup_steps(fields, names[i]@)
}

/// The steps of comparing a constant column with each before it.
pub open spec fn each_earlier_name(names: Seq<String>, i: int) -> spec_fn(int) -> Seq<Step> {
    |j: int| text_comparison(names[i]@, names[j]@) + demand(!same(names[i]@, names[j]@))
}

/// The steps of checking each constant of a file against its column.
pub open spec fn each_file_constant(
    values: Seq<Scalar>,
    names: Seq<String>,
    fields: Seq<StructField>,
) -> spec_fn(int) -> Seq<Step> {
    |i: int|
        lookup_steps(fields, names[i]@) + member_steps(
            values[i],
            fields[field_position(fields, names[i]@)],
        )
}

/// The steps of checking each file's constants.
pub open spec fn each_file_literals(
    files: Seq<ScanFile>,
    names: Seq<String>,
    fields: Seq<StructField>,
) -> spec_fn(int) -> Seq<Step> {
    |i: int|
        demand(files[i].file_constants@.len() == names.len()) + flat(
            each_file_constant(files[i].file_constants@, names, fields),
            files[i].file_constants@.len(),
        )
}

/// The steps of checking a scan's constants.
#[verifier::opaque]
pub open spec fn scan_literals(scan: FileScan) -> Seq<Step> {
    flat(
        each_constant(scan.file_constant_columns@, scan.schema.fields@),
        scan.file_constant_columns@.len(),
    ) + flat(
        each_file_literals(scan.files@, scan.file_constant_columns@, scan.schema.fields@),
        scan.files@.len(),
    )
}

/// The steps of checking an operator's literals.
#[verifier::opaque]
pub open spec fn operator_literals(op: Operator) -> Seq<Step> {
    match op {
        Operator::ScanParquet(scan) => scan_literals(scan),
        Operator::ScanJson(scan) => scan_literals(scan),
        Operator::Values(values) => flat(
            each_row_literals(values.rows@, values.schema.fields@),
            values.rows@.len(),
        ),
        Operator::Project(project) => expression_literals(project.expr),
        Operator::Filter(filter) => predicate_literals(filter.predicate),
        _ => Seq::empty(),
    }
}

/// The steps of checking each node's literals.
pub open spec fn each_node_literals(nodes: Seq<PlanNode>) -> spec_fn(int) -> Seq<Step> {
    |i: int| operator_literals(nodes[i].op)
}

/// What inspecting a plan and then its literals gives.
pub open spec fn inspected_literals(plan: Plan, limits: TaskLimits, scratch: nat) -> Result<
    ShapeView,
    PlanShapeError,
> {
    match inspected(plan, limits, scratch) {
        Err(error) => Err(error),
        Ok(shape) => match run(
            limits,
            Tally { encoded: 0, work: shape.work_units, schema_nodes: 0 },
            flat(each_node_literals(plan.nodes@), plan.nodes@.len()),
        ) {
            Err(error) => Err(error),
            Ok(tally) => Ok(ShapeView { work_units: tally.work, ..shape }),
        },
    }
}

fn primitives_match(left: &PrimitiveType, right: &PrimitiveType) -> (r: bool)
    ensures
        r == same_primitive(*left, *right),
{
    match (left, right) {
        (
            PrimitiveType::Decimal { precision: p, scale: s },
            PrimitiveType::Decimal { precision: q, scale: t },
        ) => *p == *q && *s == *t,
        (PrimitiveType::Geometry { crs: a }, PrimitiveType::Geometry { crs: b }) => same_text(
            a.as_str(),
            b.as_str(),
        ),
        (PrimitiveType::Geography { crs: a }, PrimitiveType::Geography { crs: b }) => same_text(
            a.as_str(),
            b.as_str(),
        ),
        (PrimitiveType::String, PrimitiveType::String) => true,
        (PrimitiveType::Long, PrimitiveType::Long) => true,
        (PrimitiveType::Integer, PrimitiveType::Integer) => true,
        (PrimitiveType::Short, PrimitiveType::Short) => true,
        (PrimitiveType::Byte, PrimitiveType::Byte) => true,
        (PrimitiveType::Float, PrimitiveType::Float) => true,
        (PrimitiveType::Double, PrimitiveType::Double) => true,
        (PrimitiveType::Boolean, PrimitiveType::Boolean) => true,
        (PrimitiveType::Binary, PrimitiveType::Binary) => true,
        (PrimitiveType::Date, PrimitiveType::Date) => true,
        (PrimitiveType::Timestamp, PrimitiveType::Timestamp) => true,
        (PrimitiveType::TimestampNtz, PrimitiveType::TimestampNtz) => true,
        (PrimitiveType::TimestampNanos, PrimitiveType::TimestampNanos) => true,
        (PrimitiveType::Void, PrimitiveType::Void) => true,
        (PrimitiveType::IntervalYearMonth, PrimitiveType::IntervalYearMonth) => true,
        (PrimitiveType::IntervalDayTime, PrimitiveType::IntervalDayTime) => true,
        _ => false,
    }
}

fn kind_of(value: &Scalar, ty: &PrimitiveType) -> (r: bool)
    ensures
        r == kind_matches(*value, *ty),
{
    match value {
        Scalar::Integer(_) => matches!(ty, PrimitiveType::Integer),
        Scalar::Long(_) => matches!(ty, PrimitiveType::Long),
        Scalar::Short(_) => matches!(ty, PrimitiveType::Short),
        Scalar::Byte(_) => matches!(ty, PrimitiveType::Byte),
        Scalar::Float(_) => matches!(ty, PrimitiveType::Float),
        Scalar::Double(_) => matches!(ty, PrimitiveType::Double),
        Scalar::String(_) => matches!(ty, PrimitiveType::String),
        Scalar::Boolean(_) => matches!(ty, PrimitiveType::Boolean),
        Scalar::Timestamp(_) => matches!(ty, PrimitiveType::Timestamp),
        Scalar::TimestampNtz(_) => matches!(ty, PrimitiveType::TimestampNtz),
        Scalar::TimestampNanos(_) => matches!(ty, PrimitiveType::TimestampNanos),
        Scalar::Date(_) => matches!(ty, PrimitiveType::Date),
        Scalar::Binary(_) => matches!(ty, PrimitiveType::Binary),
        Scalar::IntervalYearMonth(_) => matches!(ty, PrimitiveType::IntervalYearMonth),
        Scalar::IntervalDayTime(_) => matches!(ty, PrimitiveType::IntervalDayTime),
        Scalar::Decimal(d) => match ty {
            PrimitiveType::Decimal { precision, scale } => *precision == d.precision && *scale
                == d.scale,
            _ => false,
        },
        _ => false,
    }
}

proof fn powers_grow(m: nat, n: nat)
    requires
        m <= n,
    ensures
        1 <= power_of_ten(m) <= power_of_ten(n),
    decreases n,
{
    if m < n {
        powers_grow(m, (n - 1) as nat);
    } else if m > 0 {
        powers_grow((m - 1) as nat, (m - 1) as nat);
    }
}

fn decimal_fits(value: &DecimalData) -> (r: bool)
    ensures
        r == decimal_valid(*value),
{
    if value.precision < 1 || value.precision > 38 || value.scale > value.precision {
        return false;
    }
    let mut bound: i128 = 1;
    let mut i: u8 = 0;
    while i < value.precision
        invariant
            i <= value.precision <= 38,
            bound == power_of_ten(i as nat),
        decreases value.precision - i,
    {
        proof {
            powers_grow((i + 1) as nat, 38);
            powers_grow(i as nat, 38);
            assert(power_of_ten(38) <= 0x7fff_ffff_ffff_ffff_ffff_ffff_ffff_ffff) by {
                reveal_with_fuel(power_of_ten, 39);
            }
        }
        bound = bound * 10;
        i += 1;
    }
    proof {
        powers_grow(value.precision as nat, value.precision as nat);
    }
    -bound < value.bits && value.bits < bound
}

impl<'a> Walk<'a> {
    fn demand(&mut self, holds: bool) -> (r: Result<(), PlanShapeError>)
        ensures
            final(self).walked(*old(self), demand(holds), r),
    {
        if holds {
            Ok(())
        } else {
            Err(PlanShapeError::InvalidLiteral)
        }
    }

    fn compare_texts(&mut self, left: &str, right: &str) -> (r: Result<(), PlanShapeError>)
        ensures
            final(self).walked(*old(self), text_comparison(left@, right@), r),
    {
        proof {
            reveal(text_comparison);
        }
        self.work(1)?;
        self.work(byte_len(left))?;
        self.work(byte_len(right))
    }

    fn same_type(&mut self, left: &DataType, right: &DataType) -> (r: Result<(), PlanShapeError>)
        ensures
            final(self).walked(*old(self), same_type_steps(*left, *right), r),
        decreases left, 1nat,
    {
        self.work(1)?;
        self.same_type_parts(left, right)
    }

    fn same_type_parts(&mut self, left: &DataType, right: &DataType) -> (r: Result<
        (),
        PlanShapeError,
    >)
        ensures
            final(self).walked(*old(self), same_type_body(*left, *right), r),
        decreases left, 0nat,
    {
        match (left, right) {
            (DataType::Primitive(p), DataType::Primitive(q)) => self.demand(primitives_match(p, q)),
            (DataType::Array(a), DataType::Array(b)) => self.same_array(a, b),
            (DataType::Mapping(a), DataType::Mapping(b)) => self.same_map(a, b),
            (DataType::Struct(a), DataType::Struct(b)) => self.same_fields(&a.fields, &b.fields),
            (DataType::Variant(a), DataType::Variant(b)) => self.same_fields(&a.fields, &b.fields),
            _ => self.demand(false),
        }
    }

    fn same_array(&mut self, left: &ArrayType, right: &ArrayType) -> (r: Result<(), PlanShapeError>)
        ensures
            final(self).walked(*old(self), same_array_steps(*left, *right), r),
        decreases left, 0nat,
    {
        self.demand(left.contains_null == right.contains_null)?;
        self.same_type(&left.element_type, &right.element_type)
    }

    fn same_map(&mut self, left: &MapType, right: &MapType) -> (r: Result<(), PlanShapeError>)
        ensures
            final(self).walked(*old(self), same_map_steps(*left, *right), r),
        decreases left, 0nat,
    {
        self.demand(left.value_contains_null == right.value_contains_null)?;
        self.same_type(&left.key_type, &right.key_type)?;
        self.same_type(&left.value_type, &right.value_type)
    }

    fn same_fields(&mut self, left: &Vec<StructField>, right: &Vec<StructField>) -> (r: Result<
        (),
        PlanShapeError,
    >)
        ensures
            final(self).walked(*old(self), same_fields_steps(left@, right@), r),
        decreases left, 1nat,
    {
        self.demand(left.len() == right.len())?;
        self.same_field_pairs(left, right)
    }

    fn same_field(&mut self, left: &StructField, right: &StructField) -> (r: Result<
        (),
        PlanShapeError,
    >)
        ensures
            final(self).walked(
                *old(self),
                text_comparison(left.name@, right.name@) + demand(
                    same(left.name@, right.name@) && left.nullable == right.nullable,
                ) + same_type_steps(left.data_type, right.data_type),
                r,
            ),
        decreases left, 0nat,
    {
        self.compare_texts(left.name.as_str(), right.name.as_str())?;
        self.demand(
            same_text(left.name.as_str(), right.name.as_str()) && left.nullable == right.nullable,
        )?;
        self.same_type(&left.data_type, &right.data_type)
    }

    #[verifier::spinoff_prover]
    #[verifier::rlimit(40)]
    fn same_field_pairs(
        &mut self,
        left: &Vec<StructField>,
        right: &Vec<StructField>,
    ) -> (r: Result<(), PlanShapeError>)
        requires
            left@.len() == right@.len(),
        ensures
            final(self).walked(*old(self), flat(each_same_field(left@, right@), left@.len()), r),
        decreases left, 0nat,
    {
        let mut i: usize = 0;
        while i < left.len()
            invariant
                i <= left@.len(),
                left@.len() == right@.len(),
                self.passed(*old(self), flat(each_same_field(left@, right@), i as nat)),
            decreases left@.len() - i,
        {
            let r = self.same_field(&left[i], &right[i]);
            proof {
                flat_stops(
                    *old(self).limits,
                    old(self).tally,
                    each_same_field(left@, right@),
                    (i + 1) as nat,
                    left@.len(),
                );
            }
            r?;
            i += 1;
        }
        Ok(())
    }

    fn type_valid(&mut self, ty: &DataType) -> (r: Result<(), PlanShapeError>)
        ensures
            final(self).walked(*old(self), type_valid_steps(*ty), r),
        decreases ty, 1nat,
    {
        self.work(1)?;
        self.type_valid_parts(ty)
    }

    fn type_valid_parts(&mut self, ty: &DataType) -> (r: Result<(), PlanShapeError>)
        ensures
            final(self).walked(*old(self), type_valid_body(*ty), r),
        decreases ty, 0nat,
    {
        match ty {
            DataType::Primitive(PrimitiveType::Decimal { precision, scale }) => self.demand(
                1 <= *precision && *precision <= 38 && *scale <= *precision,
            ),
            DataType::Primitive(_) => Ok(()),
            DataType::Array(a) => self.array_valid(a),
            DataType::Mapping(m) => self.map_valid(m),
            DataType::Struct(s) => self.fields_valid(&s.fields),
            DataType::Variant(s) => self.fields_valid(&s.fields),
        }
    }

    fn array_valid(&mut self, ty: &ArrayType) -> (r: Result<(), PlanShapeError>)
        ensures
            final(self).walked(*old(self), array_valid_steps(*ty), r),
        decreases ty, 0nat,
    {
        self.demand(same_text(ty.tag.as_str(), "array"))?;
        self.type_valid(&ty.element_type)
    }

    fn map_valid(&mut self, ty: &MapType) -> (r: Result<(), PlanShapeError>)
        ensures
            final(self).walked(*old(self), map_valid_steps(*ty), r),
        decreases ty, 0nat,
    {
        self.demand(same_text(ty.tag.as_str(), "map"))?;
        self.type_valid(&ty.key_type)?;
        self.type_valid(&ty.value_type)
    }

    fn fields_valid(&mut self, fields: &Vec<StructField>) -> (r: Result<(), PlanShapeError>)
        ensures
            final(self).walked(*old(self), fields_valid_steps(fields@), r),
        decreases fields, 1nat,
    {
        self.unique_names(fields)?;
        self.field_types_valid(fields)
    }

    fn unlike_earlier(&mut self, fields: &Vec<StructField>, i: usize) -> (r: Result<
        (),
        PlanShapeError,
    >)
        requires
            i < fields@.len(),
        ensures
            final(self).walked(*old(self), flat(each_earlier(fields@, i as int), i as nat), r),
    {
        let mut j: usize = 0;
        while j < i
            invariant
                j <= i < fields@.len(),
                self.passed(*old(self), flat(each_earlier(fields@, i as int), j as nat)),
            decreases i - j,
        {
            let r = self.unlike(fields[i].name.as_str(), fields[j].name.as_str());
            proof {
                flat_stops(
                    *old(self).limits,
                    old(self).tally,
                    each_earlier(fields@, i as int),
                    (j + 1) as nat,
                    i as nat,
                );
            }
            r?;
            j += 1;
        }
        Ok(())
    }

    fn unlike(&mut self, left: &str, right: &str) -> (r: Result<(), PlanShapeError>)
        ensures
            final(self).walked(
                *old(self),
                text_comparison(left@, right@) + demand(!same(left@, right@)),
                r,
            ),
    {
        self.compare_texts(left, right)?;
        self.demand(!same_text(left, right))
    }

    fn unique_names(&mut self, fields: &Vec<StructField>) -> (r: Result<(), PlanShapeError>)
        ensures
            final(self).walked(*old(self), flat(each_unique(fields@), fields@.len()), r),
    {
        let mut i: usize = 0;
        while i < fields.len()
            invariant
                i <= fields@.len(),
                self.passed(*old(self), flat(each_unique(fields@), i as nat)),
            decreases fields@.len() - i,
        {
            let r = self.unlike_earlier(fields, i);
            proof {
                flat_stops(
                    *old(self).limits,
                    old(self).tally,
                    each_unique(fields@),
                    (i + 1) as nat,
                    fields@.len(),
                );
            }
            r?;
            i += 1;
        }
        Ok(())
    }

    fn field_types_valid(&mut self, fields: &Vec<StructField>) -> (r: Result<(), PlanShapeError>)
        ensures
            final(self).walked(*old(self), flat(each_field_valid(fields@), fields@.len()), r),
        decreases fields, 0nat,
    {
        let mut i: usize = 0;
        while i < fields.len()
            invariant
                i <= fields@.len(),
                self.passed(*old(self), flat(each_field_valid(fields@), i as nat)),
            decreases fields@.len() - i,
        {
            let r = self.type_valid(&fields[i].data_type);
            proof {
                flat_stops(
                    *old(self).limits,
                    old(self).tally,
                    each_field_valid(fields@),
                    (i + 1) as nat,
                    fields@.len(),
                );
            }
            r?;
            i += 1;
        }
        Ok(())
    }

    fn matching(&mut self, value: &Scalar, ty: &DataType, nullable: bool) -> (r: Result<
        (),
        PlanShapeError,
    >)
        ensures
            final(self).walked(*old(self), matching_steps(*value, *ty, nullable), r),
    {
        proof {
            reveal(matching_steps);
        }
        match value {
            Scalar::Null(own) => {
                self.demand(nullable)?;
                self.same_type(own, ty)
            },
            Scalar::Struct(s) => match ty {
                DataType::Struct(t) => self.same_fields(&s.fields, &t.fields),
                _ => self.demand(false),
            },
            Scalar::Array(a) => match ty {
                DataType::Array(t) => self.same_array(&a.array_type, t),
                _ => self.demand(false),
            },
            Scalar::Mapping(m) => match ty {
                DataType::Mapping(t) => self.same_map(&m.map_type, t),
                _ => self.demand(false),
            },
            _ => {
                let fits = match ty {
                    DataType::Primitive(p) => kind_of(value, p),
                    _ => false,
                };
                self.demand(fits)
            },
        }
    }

    fn member(&mut self, value: &Scalar, field: &StructField) -> (r: Result<(), PlanShapeError>)
        ensures
            final(self).walked(*old(self), member_steps(*value, *field), r),
        decreases value, 3nat,
    {
        self.fitting(value, &field.data_type, field.nullable)
    }

    fn fitting(&mut self, value: &Scalar, ty: &DataType, nullable: bool) -> (r: Result<
        (),
        PlanShapeError,
    >)
        ensures
            final(self).walked(*old(self), fitting_steps(*value, *ty, nullable), r),
        decreases value, 2nat,
    {
        self.literal(value)?;
        self.matching(value, ty, nullable)
    }

    fn literal(&mut self, value: &Scalar) -> (r: Result<(), PlanShapeError>)
        ensures
            final(self).walked(*old(self), literal_steps(*value), r),
        decreases value, 1nat,
    {
        self.work(1)?;
        self.literal_parts(value)
    }

    fn literal_parts(&mut self, value: &Scalar) -> (r: Result<(), PlanShapeError>)
        ensures
            final(self).walked(*old(self), literal_body(*value), r),
        decreases value, 0nat,
    {
        match value {
            Scalar::Null(ty) => self.type_valid(ty),
            Scalar::Decimal(d) => self.demand(decimal_fits(d)),
            Scalar::Struct(s) => {
                self.demand(s.fields.len() == s.values.len())?;
                self.fields_valid(&s.fields)?;
                self.members(&s.values, &s.fields)
            },
            Scalar::Array(a) => {
                self.array_valid(&a.array_type)?;
                self.elements(&a.elements, &a.array_type.element_type, a.array_type.contains_null)
            },
            Scalar::Mapping(m) => {
                self.map_valid(&m.map_type)?;
                self.entries(&m.pairs, &m.map_type)
            },
            _ => Ok(()),
        }
    }

    #[verifier::spinoff_prover]
    #[verifier::rlimit(40)]
    fn members(
        &mut self,
        values: &Vec<Scalar>,
        fields: &Vec<StructField>,
    ) -> (r: Result<(), PlanShapeError>)
        requires
            values@.len() == fields@.len(),
        ensures
            final(self).walked(*old(self), flat(each_member(values@, fields@), values@.len()), r),
        decreases values, 0nat,
    {
        let mut i: usize = 0;
        while i < values.len()
            invariant
                i <= values@.len(),
                values@.len() == fields@.len(),
                self.passed(*old(self), flat(each_member(values@, fields@), i as nat)),
            decreases values@.len() - i,
        {
            let r = self.member(&values[i], &fields[i]);
            proof {
                flat_stops(
                    *old(self).limits,
                    old(self).tally,
                    each_member(values@, fields@),
                    (i + 1) as nat,
                    values@.len(),
                );
            }
            r?;
            i += 1;
        }
        Ok(())
    }

    #[verifier::spinoff_prover]
    #[verifier::rlimit(40)]
    fn elements(
        &mut self,
        values: &Vec<Scalar>,
        ty: &DataType,
        nullable: bool,
    ) -> (r: Result<(), PlanShapeError>)
        ensures
            final(self).walked(
                *old(self),
                flat(each_element(values@, *ty, nullable), values@.len()),
                r,
            ),
        decreases values, 0nat,
    {
        let mut i: usize = 0;
        while i < values.len()
            invariant
                i <= values@.len(),
                self.passed(*old(self), flat(each_element(values@, *ty, nullable), i as nat)),
            decreases values@.len() - i,
        {
            let r = self.fitting(&values[i], ty, nullable);
            proof {
                flat_stops(
                    *old(self).limits,
                    old(self).tally,
                    each_element(values@, *ty, nullable),
                    (i + 1) as nat,
                    values@.len(),
                );
            }
            r?;
            i += 1;
        }
        Ok(())
    }

    #[verifier::spinoff_prover]
    #[verifier::rlimit(40)]
    fn entries(&mut self, pairs: &Vec<MapPair>, ty: &MapType) -> (r: Result<(), PlanShapeError>)
        ensures
            final(self).walked(*old(self), flat(each_entry(pairs@, *ty), pairs@.len()), r),
        decreases pairs, 0nat,
    {
        let mut i: usize = 0;
        while i < pairs.len()
            invariant
                i <= pairs@.len(),
                self.passed(*old(self), flat(each_entry(pairs@, *ty), i as nat)),
            decreases pairs@.len() - i,
        {
            let r = self.entry(&pairs[i], ty);
            proof {
                flat_stops(
                    *old(self).limits,
                    old(self).tally,
                    each_entry(pairs@, *ty),
                    (i + 1) as nat,
                    pairs@.len(),
                );
            }
            r?;
            i += 1;
        }
        Ok(())
    }

    fn entry(&mut self, pair: &MapPair, ty: &MapType) -> (r: Result<(), PlanShapeError>)
        ensures
            final(self).walked(*old(self), entry_steps(*pair, *ty), r),
        decreases pair, 0nat,
    {
        self.fitting(&pair.key, &ty.key_type, false)?;
        self.fitting(&pair.value, &ty.value_type, ty.value_contains_null)
    }

    fn expression_literals(&mut self, expr: &Expression) -> (r: Result<(), PlanShapeError>)
        ensures
            final(self).walked(*old(self), expression_literals(*expr), r),
        decreases expr, 1nat,
    {
        self.expression_literal_parts(expr)
    }

    fn expression_literal_parts(&mut self, expr: &Expression) -> (r: Result<(), PlanShapeError>)
        ensures
            final(self).walked(*old(self), expression_literals_body(*expr), r),
        decreases expr, 0nat,
    {
        match expr {
            Expression::Literal(value) => self.literal(value),
            Expression::Column(_) => Ok(()),
            Expression::Predicate(p) => self.predicate_literals(p),
            Expression::Struct(exprs, nullability) => {
                self.literals_of_each(exprs)?;
                match nullability {
                    Some(expr) => self.expression_literals(expr),
                    None => Ok(()),
                }
            },
            Expression::StructPatch(patch) => {
                self.literals_of_each(&patch.prepended_fields)?;
                self.literals_of_each(&patch.appended_fields)
            },
            Expression::Unary(_, expr) => self.expression_literals(expr),
            Expression::Binary(_, left, right) => {
                self.expression_literals(left)?;
                self.expression_literals(right)
            },
            Expression::Variadic(_, exprs) => self.literals_of_each(exprs),
            Expression::ParseJson(expr, _) => self.expression_literals(expr),
            Expression::MapToStruct(expr) => self.expression_literals(expr),
            Expression::Cast(expr, _) => self.expression_literals(expr),
            Expression::Opaque(_) => Ok(()),
            Expression::Unknown(_) => Ok(()),
        }
    }

    fn literals_of_each(&mut self, exprs: &Vec<Expression>) -> (r: Result<(), PlanShapeError>)
        ensures
            final(self).walked(*old(self), flat(each_literals(exprs@), exprs@.len()), r),
        decreases exprs, 0nat,
    {
        let mut i: usize = 0;
        while i < exprs.len()
            invariant
                i <= exprs@.len(),
                self.passed(*old(self), flat(each_literals(exprs@), i as nat)),
            decreases exprs@.len() - i,
        {
            let r = self.expression_literals(&exprs[i]);
            proof {
                flat_stops(
                    *old(self).limits,
                    old(self).tally,
                    each_literals(exprs@),
                    (i + 1) as nat,
                    exprs@.len(),
                );
            }
            r?;
            i += 1;
        }
        Ok(())
    }

    fn predicate_literals(&mut self, predicate: &Predicate) -> (r: Result<(), PlanShapeError>)
        ensures
            final(self).walked(*old(self), predicate_literals(*predicate), r),
        decreases predicate, 1nat,
    {
        self.predicate_literal_parts(predicate)
    }

    fn predicate_literal_parts(&mut self, predicate: &Predicate) -> (r: Result<(), PlanShapeError>)
        ensures
            final(self).walked(*old(self), predicate_literals_body(*predicate), r),
        decreases predicate, 0nat,
    {
        match predicate {
            Predicate::BooleanExpression(expr) => self.expression_literals(expr),
            Predicate::Not(inner) => self.predicate_literals(inner),
            Predicate::Unary(_, expr) => self.expression_literals(expr),
            Predicate::Binary(_, left, right) => {
                self.expression_literals(left)?;
                self.expression_literals(right)
            },
            Predicate::Junction(_, preds) => self.literals_of_predicates(preds),
            Predicate::Opaque(_) => Ok(()),
            Predicate::Unknown(_) => Ok(()),
        }
    }

    fn literals_of_predicates(&mut self, preds: &Vec<Predicate>) -> (r: Result<(), PlanShapeError>)
        ensures
            final(self).walked(*old(self), flat(each_predicate_literals(preds@), preds@.len()), r),
        decreases preds, 0nat,
    {
        let mut i: usize = 0;
        while i < preds.len()
            invariant
                i <= preds@.len(),
                self.passed(*old(self), flat(each_predicate_literals(preds@), i as nat)),
            decreases preds@.len() - i,
        {
            let r = self.predicate_literals(&preds[i]);
            proof {
                flat_stops(
                    *old(self).limits,
                    old(self).tally,
                    each_predicate_literals(preds@),
                    (i + 1) as nat,
                    preds@.len(),
                );
            }
            r?;
            i += 1;
        }
        Ok(())
    }

    fn row_literals(&mut self, row: &Vec<Scalar>, fields: &Vec<StructField>) -> (r: Result<
        (),
        PlanShapeError,
    >)
        ensures
            final(self).walked(
                *old(self),
                demand(row@.len() == fields@.len()) + flat(each_member(row@, fields@), row@.len()),
                r,
            ),
    {
        self.demand(row.len() == fields.len())?;
        self.members(row, fields)
    }

    fn rows_literals(
        &mut self,
        rows: &Vec<Vec<Scalar>>,
        fields: &Vec<StructField>,
    ) -> (r: Result<(), PlanShapeError>)
        ensures
            final(self).walked(*old(self), flat(each_row_literals(rows@, fields@), rows@.len()), r),
    {
        let mut i: usize = 0;
        while i < rows.len()
            invariant
                i <= rows@.len(),
                self.passed(*old(self), flat(each_row_literals(rows@, fields@), i as nat)),
            decreases rows@.len() - i,
        {
            let r = self.row_literals(&rows[i], fields);
            proof {
                flat_stops(
                    *old(self).limits,
                    old(self).tally,
                    each_row_literals(rows@, fields@),
                    (i + 1) as nat,
                    rows@.len(),
                );
            }
            r?;
            i += 1;
        }
        Ok(())
    }

    fn lookup(&mut self, fields: &Vec<StructField>, name: &str) -> (r: Result<usize, PlanShapeError>)
        ensures
            final(self).walked(
                *old(self),
                lookup_steps(fields@, name@),
                match r {
                    Ok(_) => Ok(()),
                    Err(error) => Err(error),
                },
            ),
            r matches Ok(position) ==> position == field_position(fields@, name@) && position
                < fields@.len(),
    {
        proof {
            reveal(lookup_steps);
        }
        let mut i: usize = 0;
        proof {
            position_from(fields@, name@, 0);
        }
        while i < fields.len()
            invariant
                i <= fields@.len(),
                field_position(fields@, name@) == i + field_position(
                    fields@.skip(i as int),
                    name@,
                ),
                self.passed(*old(self), flat(each_probe(fields@, name@), i as nat)),
            decreases fields@.len() - i,
        {
            let ghost position = field_position(fields@, name@);
            let ghost probed = if position < fields@.len() {
                position + 1
            } else {
                fields@.len() as int
            };
            let r = self.compare_texts(name, fields[i].name.as_str());
            proof {
                reveal(lookup_steps);
                position_from(fields@, name@, i as int);
                flat_stops(
                    *old(self).limits,
                    old(self).tally,
                    each_probe(fields@, name@),
                    (i + 1) as nat,
                    probed as nat,
                );
            }
            match r {
                Ok(()) => {},
                Err(error) => return Err(error),
            }
            if same_text(fields[i].name.as_str(), name) {
                return Ok(i);
            }
            i += 1;
        }
        Err(PlanShapeError::InvalidLiteral)
    }

    fn constant(&mut self, names: &Vec<String>, i: usize, fields: &Vec<StructField>) -> (r: Result<
        (),
        PlanShapeError,
    >)
        requires
            i < names@.len(),
        ensures
            final(self).walked(*old(self), each_constant(names@, fields@)(i as int), r),
    {
        self.unlike_earlier_names(names, i)?;
        match self.lookup(fields, names[i].as_str()) {
            Ok(_) => Ok(()),
            Err(error) => Err(error),
        }
    }

    fn unlike_earlier_names(&mut self, names: &Vec<String>, i: usize) -> (r: Result<
        (),
        PlanShapeError,
    >)
        requires
            i < names@.len(),
        ensures
            final(self).walked(*old(self), flat(each_earlier_name(names@, i as int), i as nat), r),
    {
        let mut j: usize = 0;
        while j < i
            invariant
                j <= i < names@.len(),
                self.passed(*old(self), flat(each_earlier_name(names@, i as int), j as nat)),
            decreases i - j,
        {
            let r = self.unlike(names[i].as_str(), names[j].as_str());
            proof {
                flat_stops(
                    *old(self).limits,
                    old(self).tally,
                    each_earlier_name(names@, i as int),
                    (j + 1) as nat,
                    i as nat,
                );
            }
            r?;
            j += 1;
        }
        Ok(())
    }

    fn constants(
        &mut self,
        names: &Vec<String>,
        fields: &Vec<StructField>,
    ) -> (r: Result<(), PlanShapeError>)
        ensures
            final(self).walked(*old(self), flat(each_constant(names@, fields@), names@.len()), r),
    {
        let mut i: usize = 0;
        while i < names.len()
            invariant
                i <= names@.len(),
                self.passed(*old(self), flat(each_constant(names@, fields@), i as nat)),
            decreases names@.len() - i,
        {
            let r = self.constant(names, i, fields);
            proof {
                flat_stops(
                    *old(self).limits,
                    old(self).tally,
                    each_constant(names@, fields@),
                    (i + 1) as nat,
                    names@.len(),
                );
            }
            r?;
            i += 1;
        }
        Ok(())
    }

    fn file_constant(&mut self, value: &Scalar, name: &str, fields: &Vec<StructField>) -> (r: Result<
        (),
        PlanShapeError,
    >)
        ensures
            final(self).walked(
                *old(self),
                lookup_steps(fields@, name@) + member_steps(
                    *value,
                    fields@[field_position(fields@, name@)],
                ),
                r,
            ),
    {
        let position: usize = self.lookup(fields, name)?;
        self.member(value, &fields[position])
    }

    #[verifier::spinoff_prover]
    #[verifier::rlimit(40)]
    fn file_constants(
        &mut self,
        values: &Vec<Scalar>,
        names: &Vec<String>,
        fields: &Vec<StructField>,
    ) -> (r: Result<(), PlanShapeError>)
        requires
            values@.len() == names@.len(),
        ensures
            final(self).walked(
                *old(self),
                flat(each_file_constant(values@, names@, fields@), values@.len()),
                r,
            ),
    {
        let mut i: usize = 0;
        while i < values.len()
            invariant
                i <= values@.len(),
                values@.len() == names@.len(),
                self.passed(*old(self), flat(each_file_constant(values@, names@, fields@), i as nat)),
            decreases values@.len() - i,
        {
            let r = self.file_constant(&values[i], names[i].as_str(), fields);
            proof {
                flat_stops(
                    *old(self).limits,
                    old(self).tally,
                    each_file_constant(values@, names@, fields@),
                    (i + 1) as nat,
                    values@.len(),
                );
            }
            r?;
            i += 1;
        }
        Ok(())
    }

    fn file_literals(&mut self, file: &ScanFile, names: &Vec<String>, fields: &Vec<StructField>) -> (r:
        Result<(), PlanShapeError>)
        ensures
            final(self).walked(
                *old(self),
                demand(file.file_constants@.len() == names@.len()) + flat(
                    each_file_constant(file.file_constants@, names@, fields@),
                    file.file_constants@.len(),
                ),
                r,
            ),
    {
        self.demand(file.file_constants.len() == names.len())?;
        self.file_constants(&file.file_constants, names, fields)
    }

    #[verifier::spinoff_prover]
    #[verifier::rlimit(40)]
    fn files_literals(
        &mut self,
        files: &Vec<ScanFile>,
        names: &Vec<String>,
        fields: &Vec<StructField>,
    ) -> (r: Result<(), PlanShapeError>)
        ensures
            final(self).walked(
                *old(self),
                flat(each_file_literals(files@, names@, fields@), files@.len()),
                r,
            ),
    {
        let mut i: usize = 0;
        while i < files.len()
            invariant
                i <= files@.len(),
                self.passed(*old(self), flat(each_file_literals(files@, names@, fields@), i as nat)),
            decreases files@.len() - i,
        {
            let r = self.file_literals(&files[i], names, fields);
            proof {
                flat_stops(
                    *old(self).limits,
                    old(self).tally,
                    each_file_literals(files@, names@, fields@),
                    (i + 1) as nat,
                    files@.len(),
                );
            }
            r?;
            i += 1;
        }
        Ok(())
    }

    fn scan_literals(&mut self, scan: &FileScan) -> (r: Result<(), PlanShapeError>)
        ensures
            final(self).walked(*old(self), scan_literals(*scan), r),
    {
        proof {
            reveal(scan_literals);
        }
        self.constants(&scan.file_constant_columns, &scan.schema.fields)?;
        self.files_literals(&scan.files, &scan.file_constant_columns, &scan.schema.fields)
    }

    fn operator_literals(&mut self, op: &Operator) -> (r: Result<(), PlanShapeError>)
        ensures
            final(self).walked(*old(self), operator_literals(*op), r),
    {
        proof {
            reveal(operator_literals);
        }
        match op {
            Operator::ScanParquet(scan) => self.scan_literals(scan),
            Operator::ScanJson(scan) => self.scan_literals(scan),
            Operator::Values(values) => self.rows_literals(&values.rows, &values.schema.fields),
            Operator::Project(project) => self.expression_literals(&project.expr),
            Operator::Filter(filter) => self.predicate_literals(&filter.predicate),
            _ => Ok(()),
        }
    }

    fn nodes_literals(&mut self, nodes: &Vec<PlanNode>) -> (r: Result<(), PlanShapeError>)
        ensures
            final(self).walked(*old(self), flat(each_node_literals(nodes@), nodes@.len()), r),
    {
        let mut i: usize = 0;
        while i < nodes.len()
            invariant
                i <= nodes@.len(),
                self.passed(*old(self), flat(each_node_literals(nodes@), i as nat)),
            decreases nodes@.len() - i,
        {
            let r = self.operator_literals(&nodes[i].op);
            proof {
                flat_stops(
                    *old(self).limits,
                    old(self).tally,
                    each_node_literals(nodes@),
                    (i + 1) as nat,
                    nodes@.len(),
                );
            }
            r?;
            i += 1;
        }
        Ok(())
    }

}

/// The first field of a name is at `i` or behind.
proof fn position_from(fields: Seq<StructField>, name: Seq<char>, i: int)
    requires
        0 <= i <= fields.len(),
    ensures
        i == 0 ==> fields.skip(i) == fields,
        i < fields.len() ==> fields.skip(i).drop_first() == fields.skip(i + 1) && fields.skip(i)[0]
            == fields[i],
        0 <= field_position(fields.skip(i), name) <= fields.len() - i,
    decreases fields.len() - i,
{
    if i == 0 {
        assert(fields.skip(0) =~= fields);
    }
    if i < fields.len() {
        assert(fields.skip(i).drop_first() =~= fields.skip(i + 1));
        position_from(fields, name, i + 1);
    }
}

impl PlanShape {
    /// Inspects `plan` as the structural check does, and then every literal in it.
    ///
    /// The rows of literal relations and the constants of scanned files must have the width, the
    /// types and the nullability that are declared for them, in the declared order of nested
    /// fields. Containers must hold what their own types say, fixed-point numbers must fit their
    /// digits, and constant columns must be distinct fields of the scanned schema. Comparisons are
    /// charged as work behind the structural work; nothing is allocated.
    pub fn check_literals(plan: &Plan, limits: &TaskLimits, scratch: &mut [usize]) -> (r: Result<
        PlanShape,
        PlanShapeError,
    >)
        ensures
            match inspected_literals(*plan, *limits, old(scratch)@.len()) {
                Ok(measures) => r matches Ok(shape) && shape@ == measures,
                Err(error) => r == Err::<PlanShape, PlanShapeError>(error),
            },
            final(scratch)@.len() == old(scratch)@.len(),
            forall|k: int|
                plan.nodes@.len() <= k < old(scratch)@.len() ==> final(scratch)@[k]
                    == #[trigger] old(scratch)@[k],
            r is Ok ==> forall|k: int|
                0 <= k < plan.nodes@.len() ==> #[trigger] final(scratch)@[k] == node_depth(
                    plan.nodes@,
                    k as nat,
                ),
    {
        let shape = match PlanShape::check(plan, limits, scratch) {
            Ok(shape) => shape,
            Err(error) => return Err(error),
        };
        let mut walk = Walk {
            limits,
            tally: Tally { encoded: 0, work: shape.work_units(), schema_nodes: 0 },
        };
        match walk.nodes_literals(&plan.nodes) {
            Ok(()) => {},
            Err(error) => return Err(error),
        }
        Ok(shape.with_work(walk.tally.work))
    }
}

/// Checking the literals changes nothing that the structural check measured but the work, which
/// only grows.
pub proof fn literals_only_add_work(plan: Plan, limits: TaskLimits, scratch: nat)
    requires
        inspected_literals(plan, limits, scratch) is Ok,
    ensures
        inspected(plan, limits, scratch) matches Ok(shape) && ({
            let literals = inspected_literals(plan, limits, scratch)->Ok_0;
            &&& literals.nodes == shape.nodes
            &&& literals.depth == shape.depth
            &&& literals.encoded_bytes == shape.encoded_bytes
            &&& literals.work_units >= shape.work_units
        }),
{
    let shape = inspected(plan, limits, scratch)->Ok_0;
    crate::inspection::counts_never_go_back(
        limits,
        Tally { encoded: 0, work: shape.work_units, schema_nodes: 0 },
        flat(each_node_literals(plan.nodes@), plan.nodes@.len()),
    );
}

} // verus!
