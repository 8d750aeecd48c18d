//! Logical plans: a topologically ordered list of operators over expressions and literals.

use crate::schema::{ArrayType, ColumnName, DataType, MapType, StructField, StructType};
use std::sync::Arc;
use vstd::prelude::*;

verus! {

/// A fixed-point literal.
#[derive(Debug, Clone, Copy, PartialEq, Eq, Structural)]
pub struct DecimalData {
    /// The unscaled value.
    pub bits: i128,
    /// Total digits.
    pub precision: u8,
    /// Digits behind the point.
    pub scale: u8,
}

/// A structure literal.
#[derive(Debug, PartialEq, Eq)]
pub struct StructData {
    /// The structure's fields.
    pub fields: Vec<StructField>,
    /// One value for each field.
    pub values: Vec<Scalar>,
}

/// A list literal.
#[derive(Debug, PartialEq, Eq)]
pub struct ArrayData {
    /// The list's type.
    pub array_type: ArrayType,
    /// Its elements.
    pub elements: Vec<Scalar>,
}

/// One entry of a map literal.
#[derive(Debug, PartialEq, Eq)]
pub struct MapPair {
    /// The entry's key.
    pub key: Scalar,
    /// Its value.
    pub value: Scalar,
}

/// A map literal.
#[derive(Debug, PartialEq, Eq)]
pub struct MapData {
    /// The map's type.
    pub map_type: MapType,
    /// Its entries.
    pub pairs: Vec<MapPair>,
}

/// A literal value.
#[derive(Debug, PartialEq, Eq)]
pub enum Scalar {
    /// 32-bit signed integer.
    Integer(i32),
    /// 64-bit signed integer.
    Long(i64),
    /// 16-bit signed integer.
    Short(i16),
    /// 8-bit signed integer.
    Byte(i8),
    /// Single-precision number, by its bits.
    Float(u32),
    /// Double-precision number, by its bits.
    Double(u64),
    /// UTF-8 text.
    String(String),
    /// Truth value.
    Boolean(bool),
    /// Microseconds since the epoch, in UTC.
    Timestamp(i64),
    /// Microseconds since the epoch, in local time.
    TimestampNtz(i64),
    /// Nanoseconds since the epoch, in UTC.
    TimestampNanos(i64),
    /// Days since the epoch.
    Date(i32),
    /// Byte string.
    Binary(Vec<u8>),
    /// Months.
    IntervalYearMonth(i32),
    /// Microseconds.
    IntervalDayTime(i64),
    /// Fixed-point number.
    Decimal(DecimalData),
    /// A null of a type.
    Null(DataType),
    /// A structure.
    Struct(StructData),
    /// A list.
    Array(Box<ArrayData>),
    /// A map.
    Mapping(Box<MapData>),
}

/// An expression operator that only its engine understands.
pub trait OpaqueExpressionOp {
    /// The operator's name.
    fn name(&self) -> String;
}

/// A predicate operator that only its engine understands.
pub trait OpaquePredicateOp {
    /// The operator's name.
    fn name(&self) -> String;
}

/// An application of an opaque expression operator.
pub struct OpaqueExpression {
    /// The operator.
    pub op: Arc<dyn OpaqueExpressionOp>,
    /// Its arguments.
    pub exprs: Vec<Expression>,
}

/// An application of an opaque predicate operator.
pub struct OpaquePredicate {
    /// The operator.
    pub op: Arc<dyn OpaquePredicateOp>,
    /// Its arguments.
    pub exprs: Vec<Expression>,
}

/// Operators over one expression.
#[derive(Debug, Clone, Copy, PartialEq, Eq, Structural)]
pub enum UnaryExpressionOp {
    /// The value as JSON text.
    ToJson,
}

/// Operators over two expressions.
#[derive(Debug, Clone, Copy, PartialEq, Eq, Structural)]
pub enum BinaryExpressionOp {
    /// Sum.
    Plus,
    /// Difference.
    Minus,
    /// Product.
    Multiply,
    /// Quotient.
    Divide,
}

/// Operators over any number of expressions.
#[derive(Debug, Clone, Copy, PartialEq, Eq, Structural)]
pub enum VariadicExpressionOp {
    /// The first value that is not null.
    Coalesce,
}

/// Tests of one expression.
#[derive(Debug, Clone, Copy, PartialEq, Eq, Structural)]
pub enum UnaryPredicateOp {
    /// The value is null.
    IsNull,
}

/// Tests of two expressions.
#[derive(Debug, Clone, Copy, PartialEq, Eq, Structural)]
pub enum BinaryPredicateOp {
    /// Smaller.
    LessThan,
    /// Greater.
    GreaterThan,
    /// Equal.
    Equal,
    /// Different, with nulls compared as values.
    Distinct,
    /// Contained in a list.
    In,
}

/// Combinations of predicates.
#[derive(Debug, Clone, Copy, PartialEq, Eq, Structural)]
pub enum JunctionPredicateOp {
    /// All hold.
    And,
    /// One holds.
    Or,
}

/// What a structure patch does at one field.
pub struct FieldPatch {
    /// The field the patch is applied at.
    pub name: String,
    /// Whether the field itself stays.
    pub keep_input: bool,
    /// Whether the field may be missing.
    pub optional: bool,
    /// What is inserted after the field.
    pub insertions: Vec<Expression>,
}

/// A sparse change of a structure.
pub struct StructPatch {
    /// The structure, where it is not the whole input.
    pub input_path: Option<ColumnName>,
    /// What happens at fields.
    pub field_patches: Vec<FieldPatch>,
    /// What is put before the first field.
    pub prepended_fields: Vec<Expression>,
    /// What is put behind the last field.
    pub appended_fields: Vec<Expression>,
}

/// A value computed from a row.
pub enum Expression {
    /// A literal.
    Literal(Scalar),
    /// A column.
    Column(ColumnName),
    /// A predicate as a truth value.
    Predicate(Box<Predicate>),
    /// A structure of values, with an optional expression that decides whether it is null.
    Struct(Vec<Expression>, Option<Box<Expression>>),
    /// A changed structure.
    StructPatch(StructPatch),
    /// An operator over one value.
    Unary(UnaryExpressionOp, Box<Expression>),
    /// An operator over two values.
    Binary(BinaryExpressionOp, Box<Expression>, Box<Expression>),
    /// An operator over a list of values.
    Variadic(VariadicExpressionOp, Vec<Expression>),
    /// JSON text read into a structure.
    ParseJson(Box<Expression>, StructType),
    /// A map turned into a structure.
    MapToStruct(Box<Expression>),
    /// A value converted to a type.
    Cast(Box<Expression>, DataType),
    /// An operator that only its engine understands.
    Opaque(OpaqueExpression),
    /// An expression that nobody understands.
    Unknown(String),
}

/// A test of a row.
pub enum Predicate {
    /// A truth value computed by an expression.
    BooleanExpression(Expression),
    /// The negation of a test.
    Not(Box<Predicate>),
    /// A test of one value.
    Unary(UnaryPredicateOp, Box<Expression>),
    /// A test of two values.
    Binary(BinaryPredicateOp, Box<Expression>, Box<Expression>),
    /// A combination of tests.
    Junction(JunctionPredicateOp, Vec<Predicate>),
    /// An operator that only its engine understands.
    Opaque(OpaquePredicate),
    /// A predicate that nobody understands.
    Unknown(String),
}

/// Where a file is and what is known of it.
#[derive(Debug, PartialEq, Eq)]
pub struct FileMeta {
    /// The file's location, as canonical URL text.
    pub location: String,
    /// Milliseconds since the epoch.
    pub last_modified: i64,
    /// Bytes.
    pub size: u64,
}

/// A file to scan with the values that are constant over it.
#[derive(Debug, PartialEq, Eq)]
pub struct ScanFile {
    /// The file.
    pub meta: FileMeta,
    /// One value for each constant column.
    pub file_constants: Vec<Scalar>,
}

/// A scan of given files.
#[derive(Debug, PartialEq, Eq)]
pub struct FileScan {
    /// The files.
    pub files: Vec<ScanFile>,
    /// The columns that are constant over a file.
    pub file_constant_columns: Vec<String>,
    /// The schema of what is read.
    pub schema: StructType,
}

/// Literal rows.
#[derive(Debug, PartialEq, Eq)]
pub struct Values {
    /// The schema of the rows.
    pub schema: StructType,
    /// The rows.
    pub rows: Vec<Vec<Scalar>>,
}

/// A projection.
pub struct Project {
    /// The structure that each row becomes.
    pub expr: Expression,
    /// Its schema.
    pub schema: StructType,
}

/// A selection of rows.
pub struct Filter {
    /// The test that a row must pass.
    pub predicate: Predicate,
}

/// The formats of scanned files.
#[derive(Debug, Clone, Copy, PartialEq, Eq, Structural)]
pub enum FileType {
    /// Parquet.
    Parquet,
    /// Newline-delimited JSON.
    Json,
}

/// A scan of the files that the input's rows name.
#[derive(Debug, PartialEq, Eq)]
pub struct DynamicScan {
    /// The schema of what is read.
    pub schema: StructType,
    /// The format of the files.
    pub file_type: FileType,
    /// The URL that relative paths are resolved against.
    pub base_url: String,
    /// The columns that are constant over a file.
    pub file_constant_columns: Vec<String>,
    /// The column of the paths.
    pub path_column: ColumnName,
    /// The column of the sizes.
    pub file_size_column: ColumnName,
    /// The column of the modification times.
    pub last_modified_column: ColumnName,
    /// The column of the deletion vectors.
    pub dv_column: ColumnName,
}

/// The columns of a choice by key.
#[derive(Debug, PartialEq, Eq)]
pub struct NonNullByOperands {
    /// The chosen value.
    pub value: ColumnName,
    /// The column that says whether the value counts.
    pub null_sentinel: ColumnName,
    /// The key that is compared.
    pub key: ColumnName,
}

/// An aggregate function.
#[derive(Debug, PartialEq, Eq)]
pub enum Agg {
    /// Smallest value.
    Min(ColumnName),
    /// Greatest value.
    Max(ColumnName),
    /// Sum.
    Sum(ColumnName),
    /// Number of values.
    Count(ColumnName),
    /// Number of rows.
    CountStar,
    /// The value at the smallest key.
    MinNonNullBy(NonNullByOperands),
    /// The value at the greatest key.
    MaxNonNullBy(NonNullByOperands),
}

/// An aggregation.
#[derive(Debug, PartialEq, Eq)]
pub struct Aggregate {
    /// The columns that rows are grouped by.
    pub group_by: Vec<ColumnName>,
    /// The functions.
    pub aggs: Vec<Agg>,
    /// The schema of the result.
    pub schema: StructType,
}

/// A selection of the rows that have, or do not have, a partner.
#[derive(Debug, PartialEq, Eq)]
pub struct SemiJoin {
    /// Whether rows without a partner are kept.
    pub inverted: bool,
    /// The key of the rows.
    pub probe_keys: Vec<ColumnName>,
    /// The key of the partners.
    pub build_keys: Vec<ColumnName>,
}

/// One operator.
pub enum Operator {
    /// Reads Parquet files.
    ScanParquet(FileScan),
    /// Reads JSON files.
    ScanJson(FileScan),
    /// Literal rows.
    Values(Values),
    /// Computes columns.
    Project(Project),
    /// Selects rows.
    Filter(Filter),
    /// Reads the files that rows name.
    DynamicScan(DynamicScan),
    /// Aggregates rows.
    Aggregate(Aggregate),
    /// Selects rows by partners.
    SemiJoin(SemiJoin),
    /// The rows of all inputs.
    UnionAll,
}

/// An operator with the nodes that it reads.
pub struct PlanNode {
    /// The operator.
    pub op: Operator,
    /// The positions of the nodes that it reads.
    pub inputs: Vec<usize>,
}

/// A plan. Every node stands behind the nodes that it reads; the last one is the result.
pub struct Plan {
    /// The nodes.
    pub nodes: Vec<PlanNode>,
}

} // verus!
