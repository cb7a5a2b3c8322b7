//! Column descriptors and the two fixed schemas.

use vstd::prelude::*;

verus! {

/// The type of the cells of one column.
#[derive(Clone, Copy, Debug, PartialEq, Eq, Structural)]
pub enum ColumnType {
    Boolean,
    Int64,
    UInt64,
    /// Holds floating-point cells; an integer cell in such a column stands for
    /// the nearest floating-point number.
    Float64,
    Utf8,
    /// Holds nested values, arrays and objects, each as one JSON value.
    Json,
}

/// One column of a schema: its name, the type of its cells, and whether a cell
/// may be null.
#[derive(Debug, PartialEq, Eq)]
pub struct Field {
    pub name: String,
    pub data_type: ColumnType,
    pub nullable: bool,
}

/// The mathematical value of a `Field`.
pub struct FieldView {
    pub name: Seq<char>,
    pub data_type: ColumnType,
    pub nullable: bool,
}

impl View for Field {
    type V = FieldView;

    open spec fn view(&self) -> FieldView {
        FieldView { name: self.name@, data_type: self.data_type, nullable: self.nullable }
    }
}

impl Clone for Field {
    fn clone(&self) -> (r: Field)
        ensures
            r == *self,
    {
        Field { name: self.name.clone(), data_type: self.data_type, nullable: self.nullable }
    }
}

/// The views of the fields of a schema, in order.
pub open spec fn schema_view(fields: Seq<Field>) -> Seq<FieldView> {
    Seq::new(fields.len(), |i: int| fields[i]@)
}

/// The field value with these three parts.
pub open spec fn field_view(name: Seq<char>, data_type: ColumnType, nullable: bool) -> FieldView {
    FieldView { name, data_type, nullable }
}

/// The eight columns of a span batch.
pub open spec fn span_columns() -> Seq<FieldView> {
    seq![
        field_view("id"@, ColumnType::UInt64, false),
        field_view("parent_id"@, ColumnType::UInt64, true),
        field_view("trace_id"@, ColumnType::UInt64, false),
        field_view("name"@, ColumnType::Utf8, false),
        field_view("process_id"@, ColumnType::Utf8, false),
        field_view("start"@, ColumnType::Int64, false),
        field_view("end"@, ColumnType::Int64, true),
        field_view("tags"@, ColumnType::Utf8, true),
    ]
}

/// The six columns that every log batch starts with.
pub open spec fn log_columns() -> Seq<FieldView> {
    seq![
        field_view("process_id"@, ColumnType::Utf8, false),
        field_view("time"@, ColumnType::Int64, false),
        field_view("trace_id"@, ColumnType::UInt64, true),
        field_view("span_id"@, ColumnType::UInt64, true),
        field_view("level"@, ColumnType::Utf8, false),
        field_view("message"@, ColumnType::Utf8, true),
    ]
}

/// Builds a field from a name, a type and its nullability.
pub fn new_field(name: &str, data_type: ColumnType, nullable: bool) -> (r: Field)
    ensures
        r@ == field_view(name@, data_type, nullable),
{
    Field { name: name.to_string(), data_type, nullable }
}

/// The schema of a span batch: eight fields in fixed order.
pub fn schema_span() -> (r: Vec<Field>)
    ensures
        schema_view(r@) == span_columns(),
{
    let mut r: Vec<Field> = Vec::new();
    r.push(new_field("id", ColumnType::UInt64, false));
    r.push(new_field("parent_id", ColumnType::UInt64, true));
    r.push(new_field("trace_id", ColumnType::UInt64, false));
    r.push(new_field("name", ColumnType::Utf8, false));
    r.push(new_field("process_id", ColumnType::Utf8, false));
    r.push(new_field("start", ColumnType::Int64, false));
    r.push(new_field("end", ColumnType::Int64, true));
    r.push(new_field("tags", ColumnType::Utf8, true));
    assert(schema_view(r@) =~= span_columns());
    r
}

/// The fixed part of the schema of a log batch: six fields in fixed order.
pub fn schema_log() -> (r: Vec<Field>)
    ensures
        schema_view(r@) == log_columns(),
{
    let mut r: Vec<Field> = Vec::new();
    r.push(new_field("process_id", ColumnType::Utf8, false));
    r.push(new_field("time", ColumnType::Int64, false));
    r.push(new_field("trace_id", ColumnType::UInt64, true));
    r.push(new_field("span_id", ColumnType::UInt64, true));
    r.push(new_field("level", ColumnType::Utf8, false));
    r.push(new_field("message", ColumnType::Utf8, true));
    assert(schema_view(r@) =~= log_columns());
    r
}

} // verus!
