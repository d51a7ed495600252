use immudb_rs::column::synth_label_text;
use immudb_rs::wire::{arg_to_sql_value, FromWire, MAX_UNIX_SECONDS, MIN_UNIX_SECONDS};
use immudb_rs::{DecodeError, Error, Expected, Instant, QueryResult, SqlArg, Uuid, WireKind, WireValue};

fn encode(a: SqlArg) -> WireValue {
    arg_to_sql_value(a)
}

#[test]
fn round_trip_i64() {
    for x in [0i64, 7, -1, i64::MAX, i64::MIN] {
        let v = encode(SqlArg::from(x));
        assert_eq!(v, WireValue::Integer(x));
        assert_eq!(i64::from_wire(&v).unwrap(), x);
    }
}

#[test]
fn narrower_integers_widen() {
    assert_eq!(encode(SqlArg::from(-5i8)), WireValue::Integer(-5));
    assert_eq!(encode(SqlArg::from(300i16)), WireValue::Integer(300));
    assert_eq!(encode(SqlArg::from(-70000i32)), WireValue::Integer(-70000));
    assert_eq!(encode(SqlArg::from(255u8)), WireValue::Integer(255));
    assert_eq!(encode(SqlArg::from(65535u16)), WireValue::Integer(65535));
    assert_eq!(encode(SqlArg::from(4_000_000_000u32)), WireValue::Integer(4_000_000_000));
    assert_eq!(encode(SqlArg::from(42u64)), WireValue::Integer(42));
    assert_eq!(encode(SqlArg::from(u64::MAX)), WireValue::Integer(-1));
}

#[test]
fn round_trip_bool() {
    for x in [true, false] {
        let v = encode(SqlArg::from(x));
        assert_eq!(bool::from_wire(&v).unwrap(), x);
    }
}

#[test]
fn round_trip_string() {
    let v = encode(SqlArg::from("alice".to_string()));
    assert_eq!(v, WireValue::Utf8String("alice".to_string()));
    assert_eq!(String::from_wire(&v).unwrap(), "alice");
}

#[test]
fn round_trip_bytes() {
    let v = encode(SqlArg::from(vec![0u8, 1, 255]));
    assert_eq!(Vec::<u8>::from_wire(&v).unwrap(), vec![0u8, 1, 255]);
}

#[test]
fn round_trip_float_bits() {
    let x = 3.25f64;
    let v = encode(SqlArg::F64(x.to_bits()));
    match v {
        WireValue::Float(bits) => assert_eq!(f64::from_bits(bits), x),
        other => panic!("unexpected {other:?}"),
    }
}

#[test]
fn round_trip_uuid() {
    let u = Uuid { bytes: [0xa1, 0xa2, 0xa3, 0xa4, 0xb1, 0xb2, 0xc1, 0xc2, 0xd1, 0xd2, 0xd3, 0xd4, 0xd5, 0xd6, 0xd7, 0xd8] };
    let v = encode(SqlArg::from_uuid(u));
    assert_eq!(v, WireValue::ByteString(u.bytes.to_vec()));
    assert_eq!(Uuid::from_wire(&v).unwrap(), u);
}

#[test]
fn uuid_from_text() {
    let v = WireValue::Utf8String("a1a2a3a4-b1b2-c1c2-d1d2-d3d4d5d6d7d8".to_string());
    let u = Uuid::from_wire(&v).unwrap();
    assert_eq!(u.bytes, [0xa1, 0xa2, 0xa3, 0xa4, 0xb1, 0xb2, 0xc1, 0xc2, 0xd1, 0xd2, 0xd3, 0xd4, 0xd5, 0xd6, 0xd7, 0xd8]);
    let bad = WireValue::Utf8String("not-a-uuid".to_string());
    assert!(matches!(Uuid::from_wire(&bad), Err(Error::Decode(DecodeError::InvalidUuid))));
    let short_bytes = WireValue::ByteString(vec![1, 2, 3]);
    assert!(matches!(Uuid::from_wire(&short_bytes), Err(Error::Decode(DecodeError::InvalidUuid))));
}

#[test]
fn round_trip_instant_truncates_to_micros() {
    let t = Instant::from_unix_nanos(1_546_300_800_123_456_789).unwrap();
    let v = encode(SqlArg::from(t));
    assert_eq!(v, WireValue::Timestamp(1_546_300_800_123_456));
    assert_eq!(Instant::from_wire(&v).unwrap().unix_nanos, 1_546_300_800_123_456_000);
}

#[test]
fn negative_instant_truncates_toward_zero() {
    let t = Instant { unix_nanos: -1_999 };
    assert_eq!(encode(SqlArg::from(t)), WireValue::Timestamp(-1));
    assert_eq!(Instant::from_wire(&WireValue::Timestamp(-1)).unwrap().unix_nanos, -1_000);
}

#[test]
fn instant_range_follows_calendar() {
    let min = MIN_UNIX_SECONDS * 1_000_000_000;
    let max = MAX_UNIX_SECONDS * 1_000_000_000 + 999_999_999;
    assert!(Instant::from_unix_nanos(min).is_some());
    assert!(Instant::from_unix_nanos(min - 1).is_none());
    assert!(Instant::from_unix_nanos(max).is_some());
    assert!(Instant::from_unix_nanos(max + 1).is_none());
    assert!(matches!(
        Instant::from_wire(&WireValue::Timestamp(i64::MAX)),
        Err(Error::Decode(DecodeError::TimestampOutOfRange))
    ));
}

#[test]
fn decode_bool_cell_as_string_fails() {
    let r = String::from_wire(&WireValue::Boolean(true));
    assert!(matches!(
        r,
        Err(Error::Decode(DecodeError::TypeMismatch { expected: Expected::StringOrBase64, actual: WireKind::Boolean }))
    ));
}

#[test]
fn decode_string_cell_as_bool_names_bool() {
    let r = bool::from_wire(&WireValue::Utf8String("true".to_string()));
    assert!(matches!(
        r,
        Err(Error::Decode(DecodeError::TypeMismatch { expected: Expected::Bool, actual: WireKind::Utf8String }))
    ));
}

#[test]
fn bytes_decode_as_base64_text() {
    assert_eq!(String::from_wire(&WireValue::ByteString(vec![1, 2, 3])).unwrap(), "AQID");
    assert_eq!(String::from_wire(&WireValue::ByteString(b"foobar\n".to_vec())).unwrap(), "Zm9vYmFyCg==");
    assert_eq!(String::from_wire(&WireValue::ByteString(vec![])).unwrap(), "");
}

#[test]
fn other_mismatches() {
    assert!(matches!(
        i64::from_wire(&WireValue::Null),
        Err(Error::Decode(DecodeError::TypeMismatch { expected: Expected::I64, actual: WireKind::Null }))
    ));
    assert!(matches!(
        Vec::<u8>::from_wire(&WireValue::Utf8String("x".to_string())),
        Err(Error::Decode(DecodeError::TypeMismatch { expected: Expected::Bytes, actual: WireKind::Utf8String }))
    ));
    assert!(matches!(
        Instant::from_wire(&WireValue::Integer(3)),
        Err(Error::Decode(DecodeError::TypeMismatch { expected: Expected::Timestamp, actual: WireKind::Integer }))
    ));
    assert!(matches!(
        Uuid::from_wire(&WireValue::Float(0)),
        Err(Error::Decode(DecodeError::TypeMismatch { expected: Expected::Uuid, actual: WireKind::Float }))
    ));
}

#[test]
fn normalize_quoted_qualified_label() {
    assert_eq!(QueryResult::normalize_col("  (\"groups\".\"name\")  "), "name");
    assert_eq!(QueryResult::normalize_col("col"), "col");
    assert_eq!(QueryResult::normalize_col("(a.b)"), "b");
}

#[test]
fn normalize_more_labels() {
    assert_eq!(QueryResult::normalize_col("((  x ))"), "x");
    assert_eq!(QueryResult::normalize_col("[users].[id]"), "id");
    assert_eq!(QueryResult::normalize_col("`t`.`c`"), "c");
    assert_eq!(QueryResult::normalize_col("count(*)"), "count(*");
    assert_eq!(QueryResult::normalize_col("a."), "");
    assert_eq!(QueryResult::normalize_col(""), "");
    assert_eq!(QueryResult::normalize_col("\u{3000}x\u{a0}"), "x");
}

#[test]
fn short_keeps_last_segment() {
    assert_eq!(QueryResult::short("table.column"), "column");
    assert_eq!(QueryResult::short("a.b.c"), "c");
    assert_eq!(QueryResult::short("plain"), "plain");
}

#[test]
fn synthesized_labels() {
    assert_eq!(synth_label_text(0), "col1");
    assert_eq!(synth_label_text(9), "col10");
    assert_eq!(synth_label_text(122), "col123");
}
