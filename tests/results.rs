use immudb_rs::wire::FromWire;
use immudb_rs::{
    Column, DecodeError, Error, Expected, JsonNumber, JsonValue, NamedParam, Params, QueryChunk,
    QueryResult, Row, SqlArg, WireKind, WireValue,
};

fn col(name: &str, ty: &str) -> Column {
    Column { name: name.to_string(), column_type: ty.to_string() }
}

fn row(labels: &[&str], values: Vec<WireValue>) -> Row {
    Row { columns: labels.iter().map(|s| s.to_string()).collect(), values }
}

fn entries(v: JsonValue) -> Vec<(String, JsonValue)> {
    match v {
        JsonValue::Object(e) => e,
        other => panic!("not an object: {other:?}"),
    }
}

fn get<'a>(e: &'a [(String, JsonValue)], k: &str) -> Option<&'a JsonValue> {
    e.iter().find(|(key, _)| key == k).map(|(_, v)| v)
}

#[test]
fn streamed_chunks_aggregate_in_order() {
    let mut result = QueryResult::new();
    for c in 0..3i64 {
        let columns = if c == 0 { vec![col("id", "INT")] } else { vec![] };
        let rows = (0..2i64).map(|r| row(&[], vec![WireValue::Integer(c * 2 + r)])).collect();
        result.absorb(QueryChunk { columns, rows });
    }
    let result = result.finish_stream(Ok(())).unwrap();
    assert_eq!(result.columns, vec![col("id", "INT")]);
    assert_eq!(result.len(), 6);
    for (i, r) in result.rows.iter().enumerate() {
        assert_eq!(r.values, vec![WireValue::Integer(i as i64)]);
    }
}

#[test]
fn later_column_metadata_is_ignored() {
    let mut result = QueryResult::new();
    result.absorb(QueryChunk { columns: vec![], rows: vec![] });
    result.absorb(QueryChunk { columns: vec![col("a", "INT")], rows: vec![] });
    result.absorb(QueryChunk { columns: vec![col("b", "INT")], rows: vec![] });
    assert_eq!(result.columns, vec![col("a", "INT")]);
    assert!(result.is_empty());
}

#[test]
fn stream_error_discards_partial_rows() {
    let mut result = QueryResult::new();
    result.absorb(QueryChunk { columns: vec![col("id", "INT")], rows: vec![row(&[], vec![WireValue::Integer(1)])] });
    let r = result.finish_stream(Err(Error::Protocol(tonic::Status::internal("stream broke"))));
    assert!(matches!(r, Err(Error::Protocol(_))));
}

#[test]
fn bind_parameters_in_declaration_order() {
    let params = Params::new()
        .bind("id".to_string(), SqlArg::from(7i64))
        .bind("name".to_string(), SqlArg::from("alice".to_string()));
    let inner = params.into_inner();
    assert_eq!(
        inner,
        vec![
            NamedParam { name: "id".to_string(), value: WireValue::Integer(7) },
            NamedParam { name: "name".to_string(), value: WireValue::Utf8String("alice".to_string()) },
        ]
    );
    let values: Vec<WireValue> = inner.into_iter().map(|p| p.value).collect();
    assert_eq!(values, vec![WireValue::Integer(7), WireValue::Utf8String("alice".to_string())]);
}

#[test]
fn row_document_uses_row_labels_first() {
    let qr = QueryResult {
        columns: vec![col("ignored", "INT")],
        rows: vec![row(&["(users.id)", "users.name"], vec![WireValue::Integer(-3), WireValue::Utf8String("bob".to_string())])],
    };
    let e = entries(qr.row_as_json(0).unwrap());
    assert_eq!(e.len(), 2);
    assert_eq!(get(&e, "id"), Some(&JsonValue::Number(JsonNumber::NegInt(-3))));
    assert_eq!(get(&e, "name"), Some(&JsonValue::String("bob".to_string())));
}

#[test]
fn row_document_falls_back_to_result_labels_and_synthesizes() {
    let qr = QueryResult {
        columns: vec![col("a", "INT")],
        rows: vec![row(&[], vec![WireValue::Integer(1), WireValue::Boolean(true), WireValue::Null])],
    };
    let e = entries(qr.row_as_json(0).unwrap());
    assert_eq!(e.len(), 3);
    assert_eq!(get(&e, "a"), Some(&JsonValue::Number(JsonNumber::PosInt(1))));
    assert_eq!(get(&e, "col2"), Some(&JsonValue::Bool(true)));
    assert_eq!(get(&e, "col3"), Some(&JsonValue::Null));
}

#[test]
fn row_document_without_labels() {
    let qr = QueryResult { columns: vec![], rows: vec![row(&[], vec![WireValue::Timestamp(5), WireValue::ByteString(vec![1, 2, 3])])] };
    let e = entries(qr.row_as_json(0).unwrap());
    assert_eq!(get(&e, "col1"), Some(&JsonValue::Number(JsonNumber::PosInt(5))));
    assert_eq!(get(&e, "col2"), Some(&JsonValue::String("AQID".to_string())));
}

#[test]
fn row_document_last_duplicate_wins() {
    let qr = QueryResult {
        columns: vec![],
        rows: vec![row(&["a.id", "b.id"], vec![WireValue::Integer(1), WireValue::Integer(2)])],
    };
    let e = entries(qr.row_as_json(0).unwrap());
    assert_eq!(e.len(), 1);
    assert_eq!(get(&e, "id"), Some(&JsonValue::Number(JsonNumber::PosInt(2))));
}

#[test]
fn row_document_floats() {
    let qr = QueryResult {
        columns: vec![col("x", "FLOAT"), col("y", "FLOAT")],
        rows: vec![row(&[], vec![WireValue::Float(1.5f64.to_bits()), WireValue::Float(f64::NAN.to_bits())])],
    };
    let e = entries(qr.row_as_json(0).unwrap());
    assert_eq!(get(&e, "x"), Some(&JsonValue::Number(JsonNumber::Float(1.5f64.to_bits()))));
    assert_eq!(get(&e, "y"), Some(&JsonValue::Null));
}

#[test]
fn row_out_of_bounds() {
    let qr = QueryResult { columns: vec![], rows: vec![] };
    assert!(matches!(qr.row_as_json(0), Err(Error::Decode(DecodeError::RowOutOfBounds { index: 0 }))));
}

#[test]
fn scalar_cases() {
    let empty = QueryResult { columns: vec![], rows: vec![] };
    assert!(matches!(empty.scalar::<i64>(), Err(Error::Decode(DecodeError::EmptyResult))));
    let no_cols = QueryResult { columns: vec![], rows: vec![row(&[], vec![])] };
    assert!(matches!(no_cols.scalar::<i64>(), Err(Error::Decode(DecodeError::NoColumns))));
    let one = QueryResult { columns: vec![], rows: vec![row(&[], vec![WireValue::Integer(42), WireValue::Integer(1)])] };
    assert_eq!(one.scalar::<i64>().unwrap(), 42);
    assert!(matches!(
        one.scalar::<bool>(),
        Err(Error::Decode(DecodeError::TypeMismatch { expected: Expected::Bool, actual: WireKind::Integer }))
    ));
}

#[test]
fn first_column_cases() {
    let qr = QueryResult {
        columns: vec![],
        rows: vec![row(&[], vec![WireValue::Integer(1)]), row(&[], vec![WireValue::Integer(2), WireValue::Null])],
    };
    assert_eq!(qr.first_col_as::<i64>().unwrap(), vec![1, 2]);
    let bad = QueryResult {
        columns: vec![],
        rows: vec![row(&[], vec![WireValue::Integer(1)]), row(&[], vec![]), row(&[], vec![WireValue::Null])],
    };
    assert!(matches!(bad.first_col_as::<i64>(), Err(Error::Decode(DecodeError::NoColumns))));
    let mismatch = QueryResult { columns: vec![], rows: vec![row(&[], vec![WireValue::Null])] };
    assert!(matches!(
        mismatch.first_col_as::<i64>(),
        Err(Error::Decode(DecodeError::TypeMismatch { expected: Expected::I64, actual: WireKind::Null }))
    ));
    let none = QueryResult { columns: vec![], rows: vec![] };
    assert_eq!(none.first_col_as::<String>().unwrap(), Vec::<String>::new());
}

#[test]
fn single_row_counts() {
    let two = QueryResult { columns: vec![], rows: vec![row(&[], vec![]), row(&[], vec![])] };
    assert!(matches!(two.single_row(), Err(Error::Decode(DecodeError::RowCount { rows: 2 }))));
    let one = QueryResult { columns: vec![col("n", "INT")], rows: vec![row(&[], vec![WireValue::Integer(9)])] };
    let e = entries(one.single_row().unwrap());
    assert_eq!(get(&e, "n"), Some(&JsonValue::Number(JsonNumber::PosInt(9))));
}

#[test]
fn wire_kind_of_values() {
    assert_eq!(WireValue::Null.kind(), WireKind::Null);
    assert_eq!(WireValue::ByteString(vec![]).kind(), WireKind::ByteString);
    assert_eq!(String::from_wire(&WireValue::Utf8String("s".into())).unwrap(), "s");
}

#[test]
fn bind_instant_as_micros() {
    let t = immudb_rs::Instant::from_unix_nanos(1_000_001_999).unwrap();
    let inner = Params::new().bind_dt("at".to_string(), t).into_inner();
    assert_eq!(inner, vec![NamedParam { name: "at".to_string(), value: WireValue::Timestamp(1_000_001) }]);
}

#[test]
fn row_document_entries_in_key_order() {
    let qr = QueryResult {
        columns: vec![],
        rows: vec![row(&["zeta", "alpha", "Mid", "alpha2", "b.alpha"], vec![
            WireValue::Integer(1),
            WireValue::Integer(2),
            WireValue::Integer(3),
            WireValue::Integer(4),
            WireValue::Integer(5),
        ])],
    };
    let e = entries(qr.row_as_json(0).unwrap());
    let keys: Vec<&str> = e.iter().map(|(k, _)| k.as_str()).collect();
    assert_eq!(keys, vec!["Mid", "alpha", "alpha2", "zeta"]);
    assert_eq!(get(&e, "alpha"), Some(&JsonValue::Number(JsonNumber::PosInt(5))));
}
