//! Table schemas, as far as the operations read them.

use crate::bytes::utf8;
use vstd::prelude::*;

verus! {

/// A type without parts.
#[derive(Debug, PartialEq, Eq)]
pub enum PrimitiveType {
    /// UTF-8 text.
    String,
    /// 64-bit signed integer.
    Long,
    /// 32-bit signed integer.
    Integer,
    /// 16-bit signed integer.
    Short,
    /// 8-bit signed integer.
    Byte,
    /// Single-precision number.
    Float,
    /// Double-precision number.
    Double,
    /// Truth value.
    Boolean,
    /// Byte string.
    Binary,
    /// Calendar date.
    Date,
    /// Microsecond instant in UTC.
    Timestamp,
    /// Microsecond local time.
    TimestampNtz,
    /// Nanosecond instant in UTC.
    TimestampNanos,
    /// A column without values.
    Void,
    /// Interval of years and months.
    IntervalYearMonth,
    /// Interval of days and time.
    IntervalDayTime,
    /// Fixed-point number.
    Decimal {
        /// Total digits.
        precision: u8,
        /// Digits behind the point.
        scale: u8,
    },
    /// Planar geometry in a coordinate reference system.
    Geometry {
        /// The reference system's name.
        crs: String,
    },
    /// Geodesic geometry in a coordinate reference system.
    Geography {
        /// The reference system's name.
        crs: String,
    },
}

/// A JSON value carried in field metadata.
#[derive(Debug, PartialEq, Eq)]
pub enum JsonValue {
    /// `null`.
    Null,
    /// A truth value.
    Bool(bool),
    /// A number, as it is printed.
    Number(String),
    /// A string.
    String(String),
    /// A list.
    Array(Vec<JsonValue>),
    /// An object, in the order of its properties.
    Object(Vec<JsonProperty>),
}

/// One property of a JSON object.
#[derive(Debug, PartialEq, Eq)]
pub struct JsonProperty {
    /// The property's name.
    pub key: String,
    /// Its value.
    pub value: JsonValue,
}

/// The value of one field metadata entry.
#[derive(Debug, PartialEq, Eq)]
pub enum MetadataValue {
    /// An integer.
    Number(i64),
    /// A text.
    String(String),
    /// A truth value.
    Boolean(bool),
    /// Any other JSON value.
    Other(JsonValue),
}

/// One field metadata entry.
#[derive(Debug, PartialEq, Eq)]
pub struct MetadataEntry {
    /// The entry's key.
    pub key: String,
    /// Its value.
    pub value: MetadataValue,
}

/// A list of elements of one type.
#[derive(Debug, PartialEq, Eq)]
pub struct ArrayType {
    /// The type's tag, `array` in a valid type.
    pub tag: String,
    /// The type of the elements.
    pub element_type: DataType,
    /// Whether an element may be null.
    pub contains_null: bool,
}

/// A map from keys of one type to values of another.
#[derive(Debug, PartialEq, Eq)]
pub struct MapType {
    /// The type's tag, `map` in a valid type.
    pub tag: String,
    /// The type of the keys.
    pub key_type: DataType,
    /// The type of the values.
    pub value_type: DataType,
    /// Whether a value may be null.
    pub value_contains_null: bool,
}

/// The type of a field.
#[derive(Debug, PartialEq, Eq)]
pub enum DataType {
    /// A type without parts.
    Primitive(PrimitiveType),
    /// A list.
    Array(Box<ArrayType>),
    /// A map.
    Mapping(Box<MapType>),
    /// A structure.
    Struct(Box<StructType>),
    /// A semi-structured value with its storage structure.
    Variant(Box<StructType>),
}

/// A named field.
#[derive(Debug, PartialEq, Eq)]
pub struct StructField {
    /// The field's name.
    pub name: String,
    /// Its type.
    pub data_type: DataType,
    /// Whether it may be null.
    pub nullable: bool,
    /// Its metadata, in the order of insertion.
    pub metadata: Vec<MetadataEntry>,
}

/// The fields of a table or of a structure, in order.
#[derive(Debug, PartialEq, Eq)]
pub struct StructType {
    /// The fields.
    pub fields: Vec<StructField>,
}

/// A column addressed by the names on the way to it.
#[derive(Debug, PartialEq, Eq)]
pub struct ColumnName {
    /// The names, outermost first.
    pub path: Vec<String>,
}

/// The converted schema of a decoded footer.
#[derive(Debug, PartialEq, Eq)]
pub struct ParquetFooter {
    /// The schema.
    pub schema: StructType,
}

impl StructField {
    /// A field that may be null, without metadata.
    pub fn nullable(name: &str, data_type: DataType) -> (field: StructField)
        ensures
            field.name@ == name@,
            field.data_type == data_type,
            field.nullable,
            field.metadata@.len() == 0,
    {
        StructField { name: name.to_owned(), data_type, nullable: true, metadata: Vec::new() }
    }

    /// A field that is never null, without metadata.
    pub fn not_null(name: &str, data_type: DataType) -> (field: StructField)
        ensures
            field.name@ == name@,
            field.data_type == data_type,
            !field.nullable,
            field.metadata@.len() == 0,
    {
        StructField { name: name.to_owned(), data_type, nullable: false, metadata: Vec::new() }
    }
}

impl ArrayType {
    /// A list type with its canonical tag.
    pub fn new(element_type: DataType, contains_null: bool) -> (ty: ArrayType)
        ensures
            ty.tag@ == "array"@,
            ty.element_type == element_type,
            ty.contains_null == contains_null,
    {
        ArrayType { tag: "array".to_owned(), element_type, contains_null }
    }
}

impl MapType {
    /// A map type with its canonical tag.
    pub fn new(key_type: DataType, value_type: DataType, value_contains_null: bool) -> (ty: MapType)
        ensures
            ty.tag@ == "map"@,
            ty.key_type == key_type,
            ty.value_type == value_type,
            ty.value_contains_null == value_contains_null,
    {
        MapType { tag: "map".to_owned(), key_type, value_type, value_contains_null }
    }
}

/// The position of the first field of a name, or the number of fields.
pub open spec fn field_position(fields: Seq<StructField>, name: Seq<char>) -> int
    decreases fields.len(),
{
    if fields.len() == 0 {
        0
    } else if utf8(fields[0].name@) == utf8(name) {
        0
    } else {
        1 + field_position(fields.drop_first(), name)
    }
}

/// Some type within the schema is a nanosecond timestamp.
pub open spec fn type_uses_nanos(ty: DataType) -> bool
    decreases ty,
{
    match ty {
        DataType::Primitive(p) => p is TimestampNanos,
        DataType::Array(a) => type_uses_nanos(a.element_type),
        DataType::Mapping(m) => type_uses_nanos(m.key_type) || type_uses_nanos(m.value_type),
        DataType::Struct(s) => struct_uses_nanos(*s),
        DataType::Variant(s) => struct_uses_nanos(*s),
    }
}

/// Some field of the structure, at any depth, is a nanosecond timestamp.
pub open spec fn struct_uses_nanos(schema: StructType) -> bool
    decreases schema,
{
    exists|i: int|
        #![trigger schema.fields@[i]]
        0 <= i < schema.fields@.len() && type_uses_nanos(schema.fields@[i].data_type)
}

fn data_type_contains_timestamp_nanos(ty: &DataType) -> (r: bool)
    ensures
        r == type_uses_nanos(*ty),
    decreases ty,
{
    match ty {
        DataType::Primitive(p) => matches!(p, PrimitiveType::TimestampNanos),
        DataType::Array(a) => data_type_contains_timestamp_nanos(&a.element_type),
        DataType::Mapping(m) => {
            data_type_contains_timestamp_nanos(&m.key_type) || data_type_contains_timestamp_nanos(
                &m.value_type,
            )
        },
        DataType::Struct(s) => schema_contains_timestamp_nanos(s),
        DataType::Variant(s) => schema_contains_timestamp_nanos(s),
    }
}

/// Checks whether any column of the schema, nested ones included, is a nanosecond timestamp.
pub fn schema_contains_timestamp_nanos(schema: &StructType) -> (r: bool)
    ensures
        r == struct_uses_nanos(*schema),
    decreases schema,
{
    let mut i: usize = 0;
    while i < schema.fields.len()
        invariant
            i <= schema.fields@.len(),
            forall|j: int| 0 <= j < i ==> !type_uses_nanos((#[trigger] schema.fields@[j]).data_type),
        decreases schema.fields@.len() - i,
    {
        if data_type_contains_timestamp_nanos(&schema.fields[i].data_type) {
            assert(type_uses_nanos(schema.fields@[i as int].data_type));
            return true;
        }
        i += 1;
    }
    false
}

/// A nanosecond timestamp is found wherever it stands: as a type, as what a list or a map holds, or as
/// a field of a structure at any depth. Nothing else is taken for one.
pub proof fn nanos_are_found_in_every_part(
    primitive: PrimitiveType,
    list: Box<ArrayType>,
    map: Box<MapType>,
    schema: StructType,
)
    ensures
        type_uses_nanos(DataType::Primitive(primitive)) <==> primitive == PrimitiveType::TimestampNanos,
        type_uses_nanos(DataType::Array(list)) <==> type_uses_nanos(list.element_type),
        type_uses_nanos(DataType::Mapping(map)) <==> type_uses_nanos(map.key_type)
            || type_uses_nanos(map.value_type),
        struct_uses_nanos(schema) <==> !(forall|i: int|
            0 <= i < schema.fields@.len() ==> !type_uses_nanos(
                (#[trigger] schema.fields@[i]).data_type,
            )),
{
}

} // verus!
