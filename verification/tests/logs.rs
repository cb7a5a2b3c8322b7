use duo::batch::Batch;
use duo::datum::{join_types, Datum};
use duo::decode::{decode_batch, document_of, serialize_record_batches};
use duo::error::{DecodeError, EncodeError};
use duo::infer::{
    absorb_value, find_collision, find_field, infer_schema, merge_schemas, Attribute,
};
use duo::log::{convert_log_to_record_batch, log_batch, lookup_value, Log};
use duo::schema::{schema_log, ColumnType, Field};

fn attr(key: &str, value: Datum) -> Attribute {
    Attribute { key: key.to_string(), value }
}

fn log(time: i64, level: &str, fields: Vec<Attribute>) -> Log {
    Log {
        process_id: "a".to_string(),
        time,
        trace_id: None,
        span_id: None,
        level: level.to_string(),
        message: None,
        fields,
    }
}

fn field(name: &str, t: ColumnType) -> Field {
    Field { name: name.to_string(), data_type: t, nullable: true }
}

fn names(b: &Batch) -> Vec<String> {
    b.fields.iter().map(|f| f.name.clone()).collect()
}

#[test]
fn an_attribute_becomes_a_column_and_is_null_where_unbound() {
    let rows = vec![
        log(10, "INFO", vec![attr("count", Datum::Int(3))]),
        log(20, "WARN", vec![]),
    ];
    let b = convert_log_to_record_batch(rows).unwrap();
    assert_eq!(
        names(&b),
        vec!["process_id", "time", "trace_id", "span_id", "level", "message", "count"]
    );
    assert_eq!(b.fields[6], field("count", ColumnType::Int64));
    assert_eq!(b.rows, 2);
    assert_eq!(b.columns[6], vec![Datum::Int(3), Datum::Null]);
    assert_eq!(b.columns[0], vec![Datum::Text("a".to_string()), Datum::Text("a".to_string())]);
    assert_eq!(b.columns[1], vec![Datum::Int(10), Datum::Int(20)]);
    assert_eq!(b.columns[2], vec![Datum::Null, Datum::Null]);
    assert_eq!(b.columns[3], vec![Datum::Null, Datum::Null]);
    assert_eq!(
        b.columns[4],
        vec![Datum::Text("INFO".to_string()), Datum::Text("WARN".to_string())]
    );
    assert_eq!(b.columns[5], vec![Datum::Null, Datum::Null]);
    assert!(b.is_well_formed());
}

#[test]
fn rows_without_attributes_give_the_fixed_schema() {
    let b = convert_log_to_record_batch(vec![log(1, "INFO", vec![]), log(2, "INFO", vec![])])
        .unwrap();
    assert_eq!(b.fields, schema_log());
    assert_eq!(b.columns.len(), 6);
    assert_eq!(b.rows, 2);
}

#[test]
fn no_logs_give_an_empty_batch_with_the_fixed_schema() {
    let b = convert_log_to_record_batch(vec![]).unwrap();
    assert_eq!(b.fields, schema_log());
    assert_eq!(b.rows, 0);
    assert!(b.is_well_formed());
}

#[test]
fn an_integer_and_a_string_under_one_key_conflict() {
    let rows = vec![
        log(1, "INFO", vec![attr("k", Datum::Int(1))]),
        log(2, "INFO", vec![attr("k", Datum::Text("one".to_string()))]),
    ];
    assert_eq!(
        convert_log_to_record_batch(rows),
        Err(EncodeError::SchemaInference { key: "k".to_string() })
    );
}

#[test]
fn the_conflict_that_is_complete_first_is_named() {
    let rows = vec![
        log(1, "INFO", vec![attr("a", Datum::Int(1)), attr("k", Datum::Int(1))]),
        log(
            2,
            "INFO",
            vec![attr("a", Datum::Text("x".to_string())), attr("k", Datum::Text("y".to_string()))],
        ),
    ];
    assert_eq!(infer_schema(&rows), Err(EncodeError::SchemaInference { key: "a".to_string() }));
}

#[test]
fn a_boolean_and_a_number_under_one_key_conflict() {
    let rows = vec![log(
        1,
        "INFO",
        vec![attr("ok", Datum::Int(1)), attr("flag", Datum::Bool(true)), attr("flag", Datum::UInt(1))],
    )];
    assert_eq!(
        convert_log_to_record_batch(rows),
        Err(EncodeError::SchemaInference { key: "flag".to_string() })
    );
}

#[test]
fn an_integer_then_a_float_widen_to_float() {
    let half = 0.5f64.to_bits();
    let rows = vec![
        log(1, "INFO", vec![attr("v", Datum::Int(1))]),
        log(2, "INFO", vec![attr("v", Datum::Float(half))]),
        log(3, "INFO", vec![attr("v", Datum::Null)]),
    ];
    let b = convert_log_to_record_batch(rows).unwrap();
    assert_eq!(b.fields[6], field("v", ColumnType::Float64));
    assert_eq!(b.columns[6], vec![Datum::Int(1), Datum::Float(half), Datum::Null]);
}

#[test]
fn join_follows_the_widening_rules() {
    assert_eq!(join_types(ColumnType::Int64, ColumnType::Int64), Some(ColumnType::Int64));
    assert_eq!(join_types(ColumnType::Int64, ColumnType::Float64), Some(ColumnType::Float64));
    assert_eq!(join_types(ColumnType::Float64, ColumnType::UInt64), Some(ColumnType::Float64));
    assert_eq!(join_types(ColumnType::Int64, ColumnType::UInt64), Some(ColumnType::Float64));
    assert_eq!(join_types(ColumnType::Utf8, ColumnType::Utf8), Some(ColumnType::Utf8));
    assert_eq!(join_types(ColumnType::Int64, ColumnType::Utf8), None);
    assert_eq!(join_types(ColumnType::Boolean, ColumnType::Float64), None);
    assert_eq!(join_types(ColumnType::Utf8, ColumnType::Boolean), None);
}

#[test]
fn a_value_asks_for_its_column_type() {
    assert_eq!(Datum::Null.column_type(), None);
    assert_eq!(Datum::Bool(false).column_type(), Some(ColumnType::Boolean));
    assert_eq!(Datum::Int(-1).column_type(), Some(ColumnType::Int64));
    assert_eq!(Datum::UInt(1).column_type(), Some(ColumnType::UInt64));
    assert_eq!(Datum::Float(0).column_type(), Some(ColumnType::Float64));
    assert_eq!(Datum::Text(String::new()).column_type(), Some(ColumnType::Utf8));
    assert!(Datum::Null.is_null());
    assert!(!Datum::Int(0).is_null());
}

#[test]
fn columns_come_in_the_order_in_which_keys_are_first_seen() {
    let rows = vec![
        log(1, "INFO", vec![attr("b", Datum::Bool(true)), attr("a", Datum::UInt(1))]),
        log(2, "INFO", vec![attr("c", Datum::Text("x".to_string())), attr("a", Datum::UInt(2))]),
    ];
    let inferred = infer_schema(&rows).unwrap();
    assert_eq!(
        inferred,
        vec![
            field("b", ColumnType::Boolean),
            field("a", ColumnType::UInt64),
            field("c", ColumnType::Utf8),
        ]
    );
}

#[test]
fn a_key_bound_only_to_null_opens_no_column() {
    let rows = vec![log(1, "INFO", vec![attr("n", Datum::Null)])];
    assert_eq!(infer_schema(&rows).unwrap(), vec![]);
}

#[test]
fn absorbing_a_value_opens_or_widens_a_column() {
    let mut fields = vec![field("a", ColumnType::Int64)];
    assert!(absorb_value(&mut fields, &"b".to_string(), ColumnType::Utf8));
    assert!(absorb_value(&mut fields, &"a".to_string(), ColumnType::Float64));
    assert_eq!(fields, vec![field("a", ColumnType::Float64), field("b", ColumnType::Utf8)]);
    assert!(!absorb_value(&mut fields, &"b".to_string(), ColumnType::Int64));
    assert_eq!(fields, vec![field("a", ColumnType::Float64), field("b", ColumnType::Utf8)]);
}

#[test]
fn find_field_gives_the_first_index_or_the_length() {
    let fields = vec![field("a", ColumnType::Int64), field("b", ColumnType::Utf8)];
    assert_eq!(find_field(&fields, &"b".to_string()), 1);
    assert_eq!(find_field(&fields, &"z".to_string()), 2);
}

#[test]
fn a_key_named_like_a_fixed_column_is_a_merge_error() {
    let rows = vec![log(
        1,
        "INFO",
        vec![attr("count", Datum::Int(1)), attr("level", Datum::Text("x".to_string()))],
    )];
    assert_eq!(
        convert_log_to_record_batch(rows),
        Err(EncodeError::SchemaMerge { column: "level".to_string() })
    );
}

#[test]
fn a_fixed_column_name_bound_to_null_is_a_merge_error_too() {
    let rows = vec![
        log(1, "INFO", vec![attr("count", Datum::Int(1))]),
        log(2, "INFO", vec![attr("level", Datum::Null)]),
    ];
    assert_eq!(
        convert_log_to_record_batch(rows),
        Err(EncodeError::SchemaMerge { column: "level".to_string() })
    );
}

#[test]
fn the_first_colliding_key_in_reading_order_is_named() {
    let rows = vec![
        log(1, "INFO", vec![attr("x", Datum::Int(1)), attr("time", Datum::Null)]),
        log(2, "INFO", vec![attr("message", Datum::Text("m".to_string()))]),
    ];
    assert_eq!(find_collision(&schema_log(), &rows), Some("time".to_string()));
    assert_eq!(
        convert_log_to_record_batch(rows),
        Err(EncodeError::SchemaMerge { column: "time".to_string() })
    );
    let clean = vec![log(1, "INFO", vec![attr("x", Datum::Int(1))])];
    assert_eq!(find_collision(&schema_log(), &clean), None);
}

#[test]
fn an_inference_conflict_comes_before_a_collision() {
    let rows = vec![log(
        1,
        "INFO",
        vec![
            attr("level", Datum::Int(1)),
            attr("k", Datum::Int(1)),
            attr("k", Datum::Bool(true)),
        ],
    )];
    assert_eq!(
        convert_log_to_record_batch(rows),
        Err(EncodeError::SchemaInference { key: "k".to_string() })
    );
}

#[test]
fn a_repeated_key_takes_part_in_inference_and_its_first_value_is_the_cell() {
    let half = 1.5f64.to_bits();
    let rows = vec![log(1, "INFO", vec![attr("v", Datum::Int(7)), attr("v", Datum::Float(half))])];
    let b = convert_log_to_record_batch(rows).unwrap();
    assert_eq!(b.fields[6], field("v", ColumnType::Float64));
    assert_eq!(b.columns[6], vec![Datum::Int(7)]);
}

#[test]
fn a_nested_value_has_a_column_of_its_own_kind() {
    let list = serde_json::Value::Array(vec![serde_json::Value::from(1), serde_json::Value::from(2)]);
    let rows = vec![
        log(1, "INFO", vec![attr("ids", Datum::Nested(list.clone()))]),
        log(2, "INFO", vec![]),
    ];
    let b = convert_log_to_record_batch(rows).unwrap();
    assert_eq!(b.fields[6], field("ids", ColumnType::Json));
    assert_eq!(b.columns[6], vec![Datum::Nested(list.clone()), Datum::Null]);
    let back: Vec<Log> = serialize_record_batches(&[b]).unwrap();
    assert_eq!(back[0].fields, vec![attr("ids", Datum::Nested(list))]);
    assert_eq!(join_types(ColumnType::Json, ColumnType::Json), Some(ColumnType::Json));
    assert_eq!(join_types(ColumnType::Json, ColumnType::Utf8), None);
}

#[test]
fn a_nested_value_and_a_scalar_under_one_key_conflict() {
    let object = serde_json::Value::Object(serde_json::Map::new());
    let rows = vec![
        log(1, "INFO", vec![attr("o", Datum::Nested(object))]),
        log(2, "INFO", vec![attr("o", Datum::Int(1))]),
    ];
    assert_eq!(
        convert_log_to_record_batch(rows),
        Err(EncodeError::SchemaInference { key: "o".to_string() })
    );
}

#[test]
fn merging_appends_the_dynamic_columns() {
    let dynamic = vec![field("x", ColumnType::Int64), field("y", ColumnType::Utf8)];
    let merged = merge_schemas(&schema_log(), &dynamic).unwrap();
    assert_eq!(merged.len(), 8);
    assert_eq!(merged[..6].to_vec_fields(), schema_log());
    assert_eq!(merged[6], field("x", ColumnType::Int64));
    assert_eq!(merged[7], field("y", ColumnType::Utf8));
    let clash = vec![field("x", ColumnType::Int64), field("time", ColumnType::Int64)];
    assert_eq!(
        merge_schemas(&schema_log(), &clash),
        Err(EncodeError::SchemaMerge { column: "time".to_string() })
    );
}

trait ToVecFields {
    fn to_vec_fields(&self) -> Vec<Field>;
}

impl ToVecFields for [Field] {
    fn to_vec_fields(&self) -> Vec<Field> {
        self.iter().map(|f| f.clone()).collect()
    }
}

#[test]
fn the_first_binding_of_a_key_gives_its_cell() {
    let attrs = vec![attr("k", Datum::Int(1)), attr("k", Datum::Int(2))];
    assert_eq!(lookup_value(&attrs, &"k".to_string()), Datum::Int(1));
    assert_eq!(lookup_value(&attrs, &"j".to_string()), Datum::Null);
}

#[test]
fn log_batch_lays_rows_out_under_a_given_schema() {
    let mut schema = schema_log();
    schema.push(field("n", ColumnType::Int64));
    let rows = vec![log(1, "INFO", vec![attr("n", Datum::Int(9)), attr("m", Datum::Int(8))])];
    let b = log_batch(&rows, schema);
    assert_eq!(b.columns.len(), 7);
    assert_eq!(b.columns[6], vec![Datum::Int(9)]);
}

#[test]
fn a_log_round_trips() {
    let full = Log {
        process_id: "p".to_string(),
        time: 77,
        trace_id: Some(5),
        span_id: Some(6),
        level: "ERROR".to_string(),
        message: Some("boom".to_string()),
        fields: vec![attr("code", Datum::Int(500)), attr("path", Datum::Text("/x".to_string()))],
    };
    let bare = log(78, "INFO", vec![]);
    let b = convert_log_to_record_batch(vec![
        Log {
            process_id: "p".to_string(),
            time: 77,
            trace_id: Some(5),
            span_id: Some(6),
            level: "ERROR".to_string(),
            message: Some("boom".to_string()),
            fields: vec![
                attr("code", Datum::Int(500)),
                attr("path", Datum::Text("/x".to_string())),
            ],
        },
        log(78, "INFO", vec![]),
    ])
    .unwrap();
    let back: Vec<Log> = serialize_record_batches(&[b]).unwrap();
    assert_eq!(back, vec![full, bare]);
}

#[test]
fn log_batches_with_different_columns_decode_by_name() {
    let a = convert_log_to_record_batch(vec![log(1, "INFO", vec![attr("x", Datum::Int(1))])])
        .unwrap();
    let b = convert_log_to_record_batch(vec![log(2, "WARN", vec![attr("y", Datum::Bool(true))])])
        .unwrap();
    let back: Vec<Log> = serialize_record_batches(&[a, b]).unwrap();
    assert_eq!(
        back,
        vec![
            log(1, "INFO", vec![attr("x", Datum::Int(1))]),
            log(2, "WARN", vec![attr("y", Datum::Bool(true))]),
        ]
    );
}

#[test]
fn no_batches_decode_to_no_logs() {
    let back: Vec<Log> = serialize_record_batches(&[]).unwrap();
    assert!(back.is_empty());
}

#[test]
fn a_missing_required_log_column_is_named() {
    let b = Batch {
        fields: vec![Field { name: "process_id".to_string(), data_type: ColumnType::Utf8, nullable: false }],
        columns: vec![vec![Datum::Text("p".to_string())]],
        rows: 1,
    };
    let r: Result<Vec<Log>, DecodeError> = decode_batch(&b);
    assert_eq!(r, Err(DecodeError::MissingField { field: "time".to_string() }));
}

#[test]
fn a_log_cell_of_the_wrong_kind_is_named() {
    let b = Batch {
        fields: vec![
            Field { name: "process_id".to_string(), data_type: ColumnType::Utf8, nullable: false },
            Field { name: "time".to_string(), data_type: ColumnType::Utf8, nullable: false },
        ],
        columns: vec![vec![Datum::Text("p".to_string())], vec![Datum::Text("t".to_string())]],
        rows: 1,
    };
    let r: Result<Vec<Log>, DecodeError> = decode_batch(&b);
    assert_eq!(r, Err(DecodeError::WrongType { field: "time".to_string() }));
}

#[test]
fn a_document_leaves_null_cells_out() {
    let b = convert_log_to_record_batch(vec![
        log(10, "INFO", vec![attr("count", Datum::Int(3))]),
        log(20, "WARN", vec![]),
    ])
    .unwrap();
    assert_eq!(
        document_of(&b, 1),
        vec![
            attr("process_id", Datum::Text("a".to_string())),
            attr("time", Datum::Int(20)),
            attr("level", Datum::Text("WARN".to_string())),
        ]
    );
    assert_eq!(document_of(&b, 0).len(), 4);
}

#[test]
fn a_ragged_batch_is_not_well_formed() {
    let b = Batch {
        fields: vec![field("a", ColumnType::Int64), field("b", ColumnType::Int64)],
        columns: vec![vec![Datum::Int(1)], vec![]],
        rows: 1,
    };
    assert!(!b.is_well_formed());
    let c = Batch { fields: vec![field("a", ColumnType::Int64)], columns: vec![], rows: 0 };
    assert!(!c.is_well_formed());
}

#[test]
fn a_ragged_batch_does_not_decode() {
    let good = convert_log_to_record_batch(vec![log(1, "INFO", vec![])]).unwrap();
    let bad = Batch {
        fields: vec![field("a", ColumnType::Int64), field("b", ColumnType::Int64)],
        columns: vec![vec![Datum::Int(1)], vec![]],
        rows: 1,
    };
    let r: Result<Vec<Log>, DecodeError> = serialize_record_batches(&[good, bad]);
    assert_eq!(r, Err(DecodeError::MalformedBatch));
}
