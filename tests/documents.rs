use immudb_rs::document::{
    check_documents, create_collection_request, json_to_create_collection_request,
    json_to_immudb_query, map_operator, parse_field_type,
};
use immudb_rs::{
    ConnectOptions, CreateCollection, Error, Field, FieldType, JsonNumber, JsonValue, ProtobufFieldParts,
    SearchDocuments,
};

fn s(v: &str) -> JsonValue {
    JsonValue::String(v.to_string())
}

fn obj(entries: Vec<(&str, JsonValue)>) -> JsonValue {
    JsonValue::Object(entries.into_iter().map(|(k, v)| (k.to_string(), v)).collect())
}

fn sample_query() -> JsonValue {
    obj(vec![
        ("collection_name", s("users")),
        ("limit", JsonValue::Number(JsonNumber::PosInt(50))),
        ("order_by", JsonValue::Array(vec![obj(vec![("field", s("group_id")), ("desc", JsonValue::Bool(true))]), s("skipped")])),
        (
            "where",
            obj(vec![(
                "AND",
                JsonValue::Array(vec![
                    obj(vec![("field", s("group_id")), ("op", s("eq")), ("value", s("a"))]),
                    obj(vec![("field", s("is_active")), ("op", s("NE")), ("value", JsonValue::Bool(true))]),
                ]),
            )]),
        ),
    ])
}

#[test]
fn operators_ignore_case() {
    assert_eq!(map_operator("eq").unwrap(), 0);
    assert_eq!(map_operator("Ne").unwrap(), 1);
    assert_eq!(map_operator("GT").unwrap(), 2);
    assert_eq!(map_operator("ge").unwrap(), 3);
    assert_eq!(map_operator("lt").unwrap(), 4);
    assert_eq!(map_operator("LE").unwrap(), 5);
    assert!(matches!(map_operator("like"), Err(Error::InvalidInput(_))));
}

#[test]
fn field_type_names() {
    assert_eq!(parse_field_type("str").unwrap(), FieldType::String);
    assert_eq!(parse_field_type("Boolean").unwrap(), FieldType::Boolean);
    assert_eq!(parse_field_type("int").unwrap(), FieldType::Integer);
    assert_eq!(parse_field_type("float").unwrap(), FieldType::Double);
    assert_eq!(parse_field_type("uuid").unwrap(), FieldType::Uuid);
    assert!(matches!(parse_field_type("date"), Err(Error::InvalidInput(_))));
    assert_eq!(FieldType::default(), FieldType::String);
    assert_eq!(FieldType::Uuid.code(), 4);
}

#[test]
fn query_from_json() {
    let q = json_to_immudb_query(sample_query()).unwrap();
    assert_eq!(q.collection_name, "users");
    assert_eq!(q.limit, 50);
    assert_eq!(q.order_by.len(), 1);
    assert_eq!(q.order_by[0].field, "group_id");
    assert!(q.order_by[0].desc);
    assert_eq!(q.expressions.len(), 2);
    let c0 = &q.expressions[0].field_comparisons;
    assert_eq!(c0.len(), 1);
    assert_eq!(c0[0].field, "group_id");
    assert_eq!(c0[0].operator, 0);
    assert_eq!(c0[0].value, s("a"));
    let c1 = &q.expressions[1].field_comparisons;
    assert_eq!(c1[0].operator, 1);
    assert_eq!(c1[0].value, JsonValue::Bool(true));
}

#[test]
fn query_defaults_and_errors() {
    let q = json_to_immudb_query(obj(vec![("collection_name", s("c"))])).unwrap();
    assert_eq!(q.limit, 100);
    assert!(q.order_by.is_empty());
    assert!(q.expressions.is_empty());
    assert!(matches!(json_to_immudb_query(s("x")), Err(Error::InvalidInput(_))));
    assert!(matches!(json_to_immudb_query(obj(vec![])), Err(Error::InvalidInput(_))));
    let bad_op = obj(vec![
        ("collection_name", s("c")),
        ("where", obj(vec![("AND", JsonValue::Array(vec![obj(vec![("field", s("f")), ("op", s("XX")), ("value", JsonValue::Null)])]))])),
    ]);
    assert!(matches!(json_to_immudb_query(bad_op), Err(Error::InvalidInput(_))));
    let no_value = obj(vec![
        ("collection_name", s("c")),
        ("where", obj(vec![("AND", JsonValue::Array(vec![obj(vec![("field", s("f")), ("op", s("EQ"))])]))])),
    ]);
    assert!(matches!(json_to_immudb_query(no_value), Err(Error::InvalidInput(_))));
}

#[test]
fn search_request_keeps_cursor_open() {
    let mut search = SearchDocuments::query(sample_query());
    assert_eq!(search.page_size, 50);
    assert_eq!(search.page, 1);
    search.search_id = "cursor".to_string();
    let r = search.into_request().unwrap();
    assert!(r.keep_open);
    assert_eq!(r.query.collection_name, "users");
    let plain = SearchDocuments::query(sample_query()).into_request().unwrap();
    assert!(!plain.keep_open);
}

#[test]
fn collection_from_builder() {
    let c = CreateCollection::name("UserDocuments".to_string())
        .document_id_field_name("my_id".to_string())
        .field(Field::name("group_id".to_string()).field_type(FieldType::String).indexed(true).build())
        .field(Field::name("value".to_string()).field_type(FieldType::String).build())
        .field(Field::name("is_active".to_string()).field_type(FieldType::Boolean).unique(true).build())
        .build();
    let req = create_collection_request(c);
    assert_eq!(req.name, "UserDocuments");
    assert_eq!(req.document_id_field_name, "my_id");
    assert_eq!(req.fields.len(), 3);
    assert_eq!(req.fields[2].field_type, 1);
    assert_eq!(req.indexes.len(), 2);
    assert_eq!(req.indexes[0].fields, vec!["group_id".to_string()]);
    assert!(!req.indexes[0].is_unique);
    assert!(req.indexes[1].is_unique);
}

#[test]
fn field_parts() {
    let plain = ProtobufFieldParts::from(Field::name("v".to_string()).build());
    assert_eq!(plain.proto_field.name, "v");
    assert_eq!(plain.proto_field.field_type, 0);
    assert!(plain.proto_index.is_none());
    let uniq = ProtobufFieldParts::from(Field::name("u".to_string()).field_type(FieldType::Double).unique(true).build());
    assert_eq!(uniq.proto_field.field_type, 3);
    assert!(uniq.proto_index.unwrap().is_unique);
}

#[test]
fn collection_from_json_schema() {
    let schema = obj(vec![
        ("name", s("people")),
        ("document_id_field_name", s("pid")),
        (
            "fields",
            JsonValue::Array(vec![
                obj(vec![("name", s("pid")), ("type", s("INTEGER"))]),
                obj(vec![("name", s("email")), ("type", s("string")), ("indexed", JsonValue::Bool(true)), ("unique", JsonValue::Bool(true))]),
                obj(vec![("name", s("score")), ("type", s("double"))]),
            ]),
        ),
    ]);
    let req = json_to_create_collection_request(schema).unwrap();
    assert_eq!(req.name, "people");
    assert_eq!(req.fields.len(), 3);
    assert_eq!(req.fields[0].field_type, 2);
    assert_eq!(req.indexes.len(), 2);
    assert_eq!(req.indexes[0].fields, vec!["pid".to_string()]);
    assert!(req.indexes[0].is_unique);
    assert_eq!(req.indexes[1].fields, vec!["email".to_string()]);
    let bad = obj(vec![("name", s("p")), ("document_id_field_name", s("id")), ("fields", JsonValue::Array(vec![obj(vec![("name", s("x")), ("type", s("blob"))])]))]);
    assert!(matches!(json_to_create_collection_request(bad), Err(Error::InvalidInput(_))));
    assert!(matches!(json_to_create_collection_request(JsonValue::Null), Err(Error::InvalidInput(_))));
}

#[test]
fn documents_must_be_objects() {
    assert!(check_documents(&vec![obj(vec![])]).is_ok());
    match check_documents(&vec![obj(vec![]), s("x")]) {
        Err(Error::Unexpected(m)) => assert_eq!(m, "root of document must be a JSON object"),
        other => panic!("unexpected {other:?}"),
    }
}

#[test]
fn connect_options_defaults() {
    let o = ConnectOptions::builder().build();
    assert_eq!(o.username, "immudb");
    assert_eq!(o.password, "immudb");
    assert_eq!(o.database, "defaultdb");
    assert_eq!(o.connect_timeout_millis, 5000);
    assert_eq!(o.tcp_keepalive_secs(), Some(30));
    let o = ConnectOptions::builder().database("other".to_string()).keepalive_while_idle(false).build();
    assert_eq!(o.database, "other");
    assert_eq!(o.tcp_keepalive_secs(), None);
}

fn with_where(w: JsonValue) -> JsonValue {
    obj(vec![("collection_name", s("c")), ("where", w)])
}

fn eq_item() -> JsonValue {
    obj(vec![("field", s("f")), ("op", s("EQ")), ("value", JsonValue::Bool(true))])
}

#[test]
fn query_refuses_other_combinators() {
    let or = with_where(obj(vec![("OR", JsonValue::Array(vec![eq_item()]))]));
    assert!(matches!(json_to_immudb_query(or), Err(Error::InvalidInput(_))));
    let mixed = with_where(obj(vec![("AND", JsonValue::Array(vec![eq_item()])), ("OR", JsonValue::Array(vec![]))]));
    assert!(matches!(json_to_immudb_query(mixed), Err(Error::InvalidInput(_))));
    let not_object = with_where(JsonValue::Array(vec![eq_item()]));
    assert!(matches!(json_to_immudb_query(not_object), Err(Error::InvalidInput(_))));
    let empty_where = with_where(obj(vec![]));
    assert!(matches!(json_to_immudb_query(empty_where), Err(Error::InvalidInput(_))));
    let and_not_list = with_where(obj(vec![("AND", eq_item())]));
    assert!(matches!(json_to_immudb_query(and_not_list), Err(Error::InvalidInput(_))));
    let mut search = SearchDocuments::query(with_where(obj(vec![("OR", JsonValue::Array(vec![]))])));
    search.page = 2;
    assert!(matches!(search.into_request(), Err(Error::InvalidInput(_))));
}

#[test]
fn query_refuses_non_object_comparisons() {
    let q = with_where(obj(vec![("AND", JsonValue::Array(vec![eq_item(), JsonValue::Null]))]));
    assert!(matches!(json_to_immudb_query(q), Err(Error::InvalidInput(_))));
    let ok = with_where(obj(vec![("AND", JsonValue::Array(vec![eq_item()]))]));
    assert_eq!(json_to_immudb_query(ok).unwrap().expressions.len(), 1);
}

#[test]
fn query_limit_must_fit_32_bits() {
    let big = obj(vec![("collection_name", s("c")), ("limit", JsonValue::Number(JsonNumber::PosInt(1u64 << 32)))]);
    assert!(matches!(json_to_immudb_query(big), Err(Error::InvalidInput(_))));
    let max = obj(vec![("collection_name", s("c")), ("limit", JsonValue::Number(JsonNumber::PosInt(u32::MAX as u64)))]);
    assert_eq!(json_to_immudb_query(max).unwrap().limit, u32::MAX);
    let negative = obj(vec![("collection_name", s("c")), ("limit", JsonValue::Number(JsonNumber::NegInt(-1)))]);
    assert_eq!(json_to_immudb_query(negative).unwrap().limit, 100);
}
