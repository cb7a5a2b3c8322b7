use duo::batch::Batch;
use duo::datum::Datum;
use duo::decode::serialize_record_batches;
use duo::error::{DecodeError, EncodeError};
use duo::schema::{new_field, schema_log, schema_span, ColumnType, Field};
use duo::span::{convert_span_to_record_batch, span_batch, Span};

fn tags_x1() -> serde_json::Value {
    let mut m = serde_json::Map::new();
    m.insert("x".to_string(), serde_json::Value::from(1));
    serde_json::Value::Object(m)
}

fn root() -> Span {
    Span {
        id: 1,
        parent_id: None,
        trace_id: 42,
        name: "root".to_string(),
        process_id: "svc-a".to_string(),
        start: 1000,
        end: Some(2000),
        tags: tags_x1(),
    }
}

fn child() -> Span {
    let mut m = serde_json::Map::new();
    m.insert("b".to_string(), serde_json::Value::from("two"));
    m.insert("a".to_string(), serde_json::Value::from(true));
    Span {
        id: 2,
        parent_id: Some(1),
        trace_id: 42,
        name: "child".to_string(),
        process_id: "svc-b".to_string(),
        start: 1100,
        end: None,
        tags: serde_json::Value::Object(m),
    }
}

fn field(name: &str, t: ColumnType, nullable: bool) -> Field {
    Field { name: name.to_string(), data_type: t, nullable }
}

#[test]
fn span_schema_has_eight_fixed_fields() {
    let expected = vec![
        field("id", ColumnType::UInt64, false),
        field("parent_id", ColumnType::UInt64, true),
        field("trace_id", ColumnType::UInt64, false),
        field("name", ColumnType::Utf8, false),
        field("process_id", ColumnType::Utf8, false),
        field("start", ColumnType::Int64, false),
        field("end", ColumnType::Int64, true),
        field("tags", ColumnType::Utf8, true),
    ];
    assert_eq!(schema_span(), expected);
}

#[test]
fn log_schema_has_six_fixed_fields() {
    let expected = vec![
        field("process_id", ColumnType::Utf8, false),
        field("time", ColumnType::Int64, false),
        field("trace_id", ColumnType::UInt64, true),
        field("span_id", ColumnType::UInt64, true),
        field("level", ColumnType::Utf8, false),
        field("message", ColumnType::Utf8, true),
    ];
    assert_eq!(schema_log(), expected);
}

#[test]
fn new_field_keeps_its_parts() {
    assert_eq!(new_field("end", ColumnType::Int64, true), field("end", ColumnType::Int64, true));
}

#[test]
fn no_spans_give_an_empty_batch_with_the_full_schema() {
    let b = convert_span_to_record_batch(vec![]).unwrap();
    assert_eq!(b.rows, 0);
    assert_eq!(b.num_rows(), 0);
    assert_eq!(b.num_columns(), 8);
    assert_eq!(b.fields, schema_span());
    assert_eq!(b.columns.len(), 8);
    for c in b.columns.iter() {
        assert!(c.is_empty());
    }
    assert!(b.is_well_formed());
}

#[test]
fn span_cells_stand_in_column_order() {
    let b = convert_span_to_record_batch(vec![root(), child()]).unwrap();
    assert_eq!(b.rows, 2);
    assert_eq!(b.fields, schema_span());
    assert_eq!(b.columns[0], vec![Datum::UInt(1), Datum::UInt(2)]);
    assert_eq!(b.columns[1], vec![Datum::Null, Datum::UInt(1)]);
    assert_eq!(b.columns[2], vec![Datum::UInt(42), Datum::UInt(42)]);
    assert_eq!(
        b.columns[3],
        vec![Datum::Text("root".to_string()), Datum::Text("child".to_string())]
    );
    assert_eq!(
        b.columns[4],
        vec![Datum::Text("svc-a".to_string()), Datum::Text("svc-b".to_string())]
    );
    assert_eq!(b.columns[5], vec![Datum::Int(1000), Datum::Int(1100)]);
    assert_eq!(b.columns[6], vec![Datum::Int(2000), Datum::Null]);
    assert_eq!(b.columns[7][0], Datum::Text("{\"x\":1}".to_string()));
    assert!(b.is_well_formed());
}

#[test]
fn tags_are_serialized_row_by_row() {
    let b = convert_span_to_record_batch(vec![child(), root()]).unwrap();
    let first = match &b.columns[7][0] {
        Datum::Text(s) => s.clone(),
        other => panic!("unexpected cell {:?}", other),
    };
    let parsed: serde_json::Value = serde_json::from_str(&first).unwrap();
    assert_eq!(parsed, child().tags);
    assert_eq!(b.columns[7][1], Datum::Text("{\"x\":1}".to_string()));
}

#[test]
fn span_batch_takes_the_documents_it_is_given() {
    let rows = vec![root()];
    let docs = vec!["{}".to_string()];
    let b = span_batch(&rows, &docs);
    assert_eq!(b.columns[7], vec![Datum::Text("{}".to_string())]);
    assert_eq!(b.columns[0], vec![Datum::UInt(1)]);
}

#[test]
fn a_span_round_trips() {
    let b = convert_span_to_record_batch(vec![root()]).unwrap();
    let back: Vec<Span> = serialize_record_batches(&[b]).unwrap();
    assert_eq!(back, vec![root()]);
}

#[test]
fn several_spans_round_trip_in_order() {
    let b = convert_span_to_record_batch(vec![root(), child(), root()]).unwrap();
    let back: Vec<Span> = serialize_record_batches(&[b]).unwrap();
    assert_eq!(back, vec![root(), child(), root()]);
}

#[test]
fn span_batches_decode_in_batch_order() {
    let a = convert_span_to_record_batch(vec![child()]).unwrap();
    let e = convert_span_to_record_batch(vec![]).unwrap();
    let b = convert_span_to_record_batch(vec![root(), child()]).unwrap();
    let back: Vec<Span> = serialize_record_batches(&[a, e, b]).unwrap();
    assert_eq!(back, vec![child(), root(), child()]);
}

#[test]
fn two_one_row_batches_decode_to_the_two_spans_in_order() {
    let second = Span {
        id: 2,
        parent_id: Some(1),
        trace_id: 42,
        name: "child".to_string(),
        process_id: "svc-a".to_string(),
        start: 1100,
        end: None,
        tags: serde_json::Value::Object(serde_json::Map::new()),
    };
    let a = convert_span_to_record_batch(vec![root()]).unwrap();
    let b = convert_span_to_record_batch(vec![second]).unwrap();
    let back: Vec<Span> = serialize_record_batches(&[a, b]).unwrap();
    assert_eq!(back.len(), 2);
    assert_eq!(back[0], root());
    assert_eq!(back[1].id, 2);
    assert_eq!(back[1].parent_id, Some(1));
    assert_eq!(back[1].end, None);
    assert_eq!(back[1].tags, serde_json::Value::Object(serde_json::Map::new()));
}

#[test]
fn tags_come_back_as_a_mapping_whatever_the_key_order() {
    let b = convert_span_to_record_batch(vec![child()]).unwrap();
    let back: Vec<Span> = serialize_record_batches(&[b]).unwrap();
    let mut m = serde_json::Map::new();
    m.insert("a".to_string(), serde_json::Value::from(true));
    m.insert("b".to_string(), serde_json::Value::from("two"));
    assert_eq!(back[0].tags, serde_json::Value::Object(m));
}

#[test]
fn the_order_of_the_columns_does_not_matter() {
    let b = convert_span_to_record_batch(vec![root(), child()]).unwrap();
    let mut fields = b.fields.clone();
    let mut columns = b.columns.clone();
    fields.reverse();
    columns.reverse();
    let turned = Batch { fields, columns, rows: b.rows };
    let back: Vec<Span> = serialize_record_batches(&[turned]).unwrap();
    assert_eq!(back, vec![root(), child()]);
}

#[test]
fn no_batches_decode_to_no_spans() {
    let back: Vec<Span> = serialize_record_batches(&[]).unwrap();
    assert!(back.is_empty());
}

#[test]
fn a_span_without_tags_column_has_null_tags() {
    let b = Batch {
        fields: vec![
            field("trace_id", ColumnType::UInt64, false),
            field("id", ColumnType::UInt64, false),
            field("name", ColumnType::Utf8, false),
            field("process_id", ColumnType::Utf8, false),
            field("start", ColumnType::Int64, false),
        ],
        columns: vec![
            vec![Datum::UInt(7)],
            vec![Datum::UInt(3)],
            vec![Datum::Text("n".to_string())],
            vec![Datum::Text("p".to_string())],
            vec![Datum::Int(-5)],
        ],
        rows: 1,
    };
    let back: Vec<Span> = serialize_record_batches(&[b]).unwrap();
    assert_eq!(
        back,
        vec![Span {
            id: 3,
            parent_id: None,
            trace_id: 7,
            name: "n".to_string(),
            process_id: "p".to_string(),
            start: -5,
            end: None,
            tags: serde_json::Value::Null,
        }]
    );
}

#[test]
fn a_missing_required_span_column_is_named() {
    let b = Batch {
        fields: vec![field("id", ColumnType::UInt64, false)],
        columns: vec![vec![Datum::UInt(3)]],
        rows: 1,
    };
    let r: Result<Vec<Span>, DecodeError> = serialize_record_batches(&[b]);
    assert_eq!(r, Err(DecodeError::MissingField { field: "trace_id".to_string() }));
}

#[test]
fn a_span_cell_of_the_wrong_kind_is_named() {
    let b = Batch {
        fields: vec![field("id", ColumnType::Utf8, false)],
        columns: vec![vec![Datum::Text("3".to_string())]],
        rows: 1,
    };
    let r: Result<Vec<Span>, DecodeError> = serialize_record_batches(&[b]);
    assert_eq!(r, Err(DecodeError::WrongType { field: "id".to_string() }));
}

#[test]
fn unreadable_tags_are_an_error_naming_tags() {
    let rows = vec![root()];
    let docs = vec!["{not json".to_string()];
    let b = span_batch(&rows, &docs);
    let r: Result<Vec<Span>, DecodeError> = serialize_record_batches(&[b]);
    assert_eq!(r, Err(DecodeError::WrongType { field: "tags".to_string() }));
}

#[test]
fn encode_errors_compare_by_content() {
    assert_ne!(
        EncodeError::Serialization { span_id: 1 },
        EncodeError::Serialization { span_id: 2 }
    );
}
