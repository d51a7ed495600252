use vstd::prelude::*;

use crate::error::Error;
use crate::json::{find_key, lemma_key_index_bounds, lookup, member, JsonNumber, JsonValue};

verus! {

pub uninterp spec fn upper_of(s: Seq<char>) -> Seq<char>;

/// Relies on std's `str::to_uppercase`: the upper-case form depends on the text alone.
#[verifier::external_body]
fn uppercase(s: &str) -> (r: String)
    ensures
        r@ == upper_of(s@),
{
    s.to_uppercase()
}

/// The kind of a document field.
#[derive(Debug, Clone, Copy, PartialEq, Eq)]
pub enum FieldType {
    String,
    Boolean,
    Integer,
    Double,
    Uuid,
}

impl Default for FieldType {
    fn default() -> (r: FieldType)
        ensures
            r == FieldType::String,
    {
        FieldType::String
    }
}

impl FieldType {
    pub open spec fn code_spec(&self) -> i32 {
        match self {
            FieldType::String => 0,
            FieldType::Boolean => 1,
            FieldType::Integer => 2,
            FieldType::Double => 3,
            FieldType::Uuid => 4,
        }
    }

    /// The protocol's number for this field kind.
    pub fn code(&self) -> (r: i32)
        ensures
            r == self.code_spec(),
    {
        match self {
            FieldType::String => 0,
            FieldType::Boolean => 1,
            FieldType::Integer => 2,
            FieldType::Double => 3,
            FieldType::Uuid => 4,
        }
    }
}

impl From<FieldType> for i32 {
    fn from(val: FieldType) -> i32 {
        val.code()
    }
}

impl vstd::std_specs::convert::FromSpecImpl<FieldType> for i32 {
    open spec fn obeys_from_spec() -> bool {
        true
    }

    open spec fn from_spec(val: FieldType) -> i32 {
        val.code_spec()
    }
}

/// The comparison code named by an upper-case operator.
pub open spec fn op_code(upper: Seq<char>) -> Option<i32> {
    if upper == "EQ"@ {
        Some(0)
    } else if upper == "NE"@ {
        Some(1)
    } else if upper == "GT"@ {
        Some(2)
    } else if upper == "GE"@ {
        Some(3)
    } else if upper == "LT"@ {
        Some(4)
    } else if upper == "LE"@ {
        Some(5)
    } else {
        None
    }
}

/// The field kind named by an upper-case type name.
pub open spec fn field_type_named(upper: Seq<char>) -> Option<FieldType> {
    if upper == "STRING"@ || upper == "STR"@ {
        Some(FieldType::String)
    } else if upper == "BOOLEAN"@ || upper == "BOOL"@ {
        Some(FieldType::Boolean)
    } else if upper == "INTEGER"@ || upper == "INT"@ {
        Some(FieldType::Integer)
    } else if upper == "DOUBLE"@ || upper == "FLOAT"@ {
        Some(FieldType::Double)
    } else if upper == "UUID"@ {
        Some(FieldType::Uuid)
    } else {
        None
    }
}

fn is_text(s: &String, lit: &str) -> (r: bool)
    ensures
        r == (s@ == lit@),
{
    *s == String::from_str(lit)
}

fn invalid_input(prefix: &str, subject: &str) -> (r: Error)
    ensures
        r is InvalidInput,
{
    let mut m = String::from_str(prefix);
    m.append(subject);
    Error::InvalidInput(m)
}

/// The comparison code of an operator already in upper case.
pub fn operator_code(upper: &String) -> (r: Result<i32, Error>)
    ensures
        match op_code(upper@) {
            Some(c) => r == Ok::<i32, Error>(c),
            None => r matches Err(Error::InvalidInput(_)),
        },
{
    if is_text(upper, "EQ") {
        Ok(0)
    } else if is_text(upper, "NE") {
        Ok(1)
    } else if is_text(upper, "GT") {
        Ok(2)
    } else if is_text(upper, "GE") {
        Ok(3)
    } else if is_text(upper, "LT") {
        Ok(4)
    } else if is_text(upper, "LE") {
        Ok(5)
    } else {
        Err(invalid_input("Unknown comparison operator: ", upper.as_str()))
    }
}

/// The comparison code of an operator, in any case.
pub fn map_operator(op: &str) -> (r: Result<i32, Error>)
    ensures
        match op_code(upper_of(op@)) {
            Some(c) => r == Ok::<i32, Error>(c),
            None => r matches Err(Error::InvalidInput(_)),
        },
{
    let upper = uppercase(op);
    match operator_code(&upper) {
        Ok(c) => Ok(c),
        Err(_) => Err(invalid_input("Unknown comparison operator: ", op)),
    }
}

/// The field kind of a type name already in upper case.
pub fn field_type_code(upper: &String) -> (r: Result<FieldType, Error>)
    ensures
        match field_type_named(upper@) {
            Some(t) => r == Ok::<FieldType, Error>(t),
            None => r matches Err(Error::InvalidInput(_)),
        },
{
    if is_text(upper, "STRING") || is_text(upper, "STR") {
        Ok(FieldType::String)
    } else if is_text(upper, "BOOLEAN") || is_text(upper, "BOOL") {
        Ok(FieldType::Boolean)
    } else if is_text(upper, "INTEGER") || is_text(upper, "INT") {
        Ok(FieldType::Integer)
    } else if is_text(upper, "DOUBLE") || is_text(upper, "FLOAT") {
        Ok(FieldType::Double)
    } else if is_text(upper, "UUID") {
        Ok(FieldType::Uuid)
    } else {
        Err(invalid_input("unknown field type: ", upper.as_str()))
    }
}

/// The field kind of a type name, in any case.
pub fn parse_field_type(type_str: &str) -> (r: Result<FieldType, Error>)
    ensures
        match field_type_named(upper_of(type_str@)) {
            Some(t) => r == Ok::<FieldType, Error>(t),
            None => r matches Err(Error::InvalidInput(_)),
        },
{
    let upper = uppercase(type_str);
    match field_type_code(&upper) {
        Ok(t) => Ok(t),
        Err(_) => Err(invalid_input("unknown field type: ", type_str)),
    }
}

/// A field of a document collection, as declared by the caller.
#[derive(Debug, Clone, PartialEq, Eq)]
pub struct Field {
    pub name: String,
    pub field_type: FieldType,
    pub unique: bool,
    pub indexed: bool,
}

/// Builds a [`Field`]: a string field, neither unique nor indexed, unless set otherwise.
#[derive(Debug, Clone, PartialEq, Eq)]
pub struct FieldBuilder {
    field: Field,
}

impl Field {
    /// Starts a field of this name.
    pub fn name(name: String) -> (r: FieldBuilder)
        ensures
            r.view() == (Field { name, field_type: FieldType::String, unique: false, indexed: false }),
    {
        FieldBuilder { field: Field { name, field_type: FieldType::String, unique: false, indexed: false } }
    }
}

impl FieldBuilder {
    /// The field that [`build`](Self::build) would give.
    pub closed spec fn view(&self) -> Field {
        self.field
    }

    pub fn field_type(self, t: FieldType) -> (r: FieldBuilder)
        ensures
            r.view() == (Field { field_type: t, ..self.view() }),
    {
        let mut field = self.field;
        field.field_type = t;
        FieldBuilder { field }
    }

    pub fn unique(self, unique: bool) -> (r: FieldBuilder)
        ensures
            r.view() == (Field { unique, ..self.view() }),
    {
        let mut field = self.field;
        field.unique = unique;
        FieldBuilder { field }
    }

    pub fn indexed(self, indexed: bool) -> (r: FieldBuilder)
        ensures
            r.view() == (Field { indexed, ..self.view() }),
    {
        let mut field = self.field;
        field.indexed = indexed;
        FieldBuilder { field }
    }

    pub fn build(self) -> (r: Field)
        ensures
            r == self.view(),
    {
        self.field
    }
}

/// A document collection to create.
#[derive(Debug)]
pub struct CreateCollection {
    pub name: String,
    pub fields: Vec<Field>,
    /// The primary key; empty for the server's default.
    pub document_id_field_name: String,
}

/// Builds a [`CreateCollection`].
#[derive(Debug)]
pub struct CreateCollectionBuilder {
    collection: CreateCollection,
}

impl CreateCollection {
    /// Starts a collection of this name, without fields and with the default primary key.
    pub fn name(name: String) -> (r: CreateCollectionBuilder)
        ensures
            r.spec_name() == name,
            r.spec_fields() == Seq::<Field>::empty(),
            r.spec_id_field()@ == Seq::<char>::empty(),
    {
        let collection = CreateCollection {
            name,
            fields: Vec::new(),
            document_id_field_name: String::new(),
        };
        CreateCollectionBuilder { collection }
    }
}

impl CreateCollectionBuilder {
    pub closed spec fn spec_name(&self) -> String {
        self.collection.name
    }

    pub closed spec fn spec_fields(&self) -> Seq<Field> {
        self.collection.fields@
    }

    pub closed spec fn spec_id_field(&self) -> String {
        self.collection.document_id_field_name
    }

    /// Adds a field after those added so far.
    pub fn field(self, arg: Field) -> (r: CreateCollectionBuilder)
        ensures
            r.spec_name() == self.spec_name(),
            r.spec_fields() == self.spec_fields().push(arg),
            r.spec_id_field() == self.spec_id_field(),
    {
        let mut collection = self.collection;
        collection.fields.push(arg);
        CreateCollectionBuilder { collection }
    }

    pub fn document_id_field_name(self, id_field: String) -> (r: CreateCollectionBuilder)
        ensures
            r.spec_name() == self.spec_name(),
            r.spec_fields() == self.spec_fields(),
            r.spec_id_field() == id_field,
    {
        let mut collection = self.collection;
        collection.document_id_field_name = id_field;
        CreateCollectionBuilder { collection }
    }

    pub fn build(self) -> (r: CreateCollection)
        ensures
            r.name == self.spec_name(),
            r.fields@ == self.spec_fields(),
            r.document_id_field_name == self.spec_id_field(),
    {
        self.collection
    }
}

/// A field of a collection as the protocol carries it.
#[derive(Debug, Clone, PartialEq, Eq)]
pub struct ModelField {
    pub name: String,
    pub field_type: i32,
}

/// An index over fields of a collection.
#[derive(Debug, Clone, PartialEq, Eq)]
pub struct Index {
    pub fields: Vec<String>,
    pub is_unique: bool,
}

/// The request that creates a collection.
#[derive(Debug, Clone, PartialEq, Eq)]
pub struct CreateCollectionRequest {
    pub name: String,
    pub document_id_field_name: String,
    pub fields: Vec<ModelField>,
    pub indexes: Vec<Index>,
}

/// An index as the field names it covers and whether it is unique.
pub open spec fn index_view(i: Index) -> (Seq<Seq<char>>, bool) {
    (i.fields@.map_values(|s: String| s@), i.is_unique)
}

/// The index that a declared field asks for: one over the field alone, when it is indexed or
/// unique.
pub open spec fn field_index(f: Field) -> Option<(Seq<Seq<char>>, bool)> {
    if f.indexed || f.unique {
        Some((seq![f.name@], f.unique))
    } else {
        None
    }
}

/// The protocol form of a declared field: the field itself and the index it asks for.
#[derive(Debug)]
pub struct ProtobufFieldParts {
    pub proto_field: ModelField,
    pub proto_index: Option<Index>,
}

fn single_index(name: String, is_unique: bool) -> (r: Index)
    ensures
        index_view(r) == (seq![name@], is_unique),
{
    let mut fields: Vec<String> = Vec::new();
    fields.push(name);
    let r = Index { fields, is_unique };
    assert(index_view(r).0 =~= seq![r.fields@[0]@]);
    r
}

impl ProtobufFieldParts {
    pub fn from(val: Field) -> (r: ProtobufFieldParts)
        ensures
            r.proto_field == (ModelField { name: val.name, field_type: val.field_type.code_spec() }),
            match field_index(val) {
                Some(i) => r.proto_index matches Some(x) && index_view(x) == i,
                None => r.proto_index is None,
            },
    {
        let proto_field = ModelField { name: val.name.clone(), field_type: i32::from(val.field_type) };
        let proto_index = if val.indexed || val.unique {
            Some(single_index(val.name, val.unique))
        } else {
            None
        };
        ProtobufFieldParts { proto_field, proto_index }
    }
}

/// The indexes that declared fields ask for, in declaration order.
pub open spec fn declared_indexes(fields: Seq<Field>) -> Seq<(Seq<Seq<char>>, bool)>
    decreases fields.len(),
{
    if fields.len() == 0 {
        Seq::empty()
    } else {
        let rest = declared_indexes(fields.drop_last());
        match field_index(fields.last()) {
            Some(i) => rest.push(i),
            None => rest,
        }
    }
}

/// The request that creates the collection `param`: its fields in order, and an index for
/// each indexed or unique field.
pub fn create_collection_request(param: CreateCollection) -> (r: CreateCollectionRequest)
    ensures
        r.name == param.name,
        r.document_id_field_name == param.document_id_field_name,
        r.fields@.len() == param.fields@.len(),
        forall|i: int|
            0 <= i < param.fields@.len() ==> #[trigger] r.fields@[i] == (ModelField {
                name: param.fields@[i].name,
                field_type: param.fields@[i].field_type.code_spec(),
            }),
        r.indexes@.map_values(|x: Index| index_view(x)) == declared_indexes(param.fields@),
{
    let CreateCollection { name, fields: declared, document_id_field_name } = param;
    let ghost all = declared@;
    let n = declared.len();
    let mut rest = declared;
    let mut fields: Vec<ModelField> = Vec::new();
    let mut indexes: Vec<Index> = Vec::new();
    let mut k: usize = 0;
    while rest.len() > 0
        invariant
            k <= all.len() == n,
            rest@ == all.subrange(k as int, all.len() as int),
            fields@.len() == k,
            forall|i: int|
                0 <= i < k ==> #[trigger] fields@[i] == (ModelField {
                    name: all[i].name,
                    field_type: all[i].field_type.code_spec(),
                }),
            indexes@.map_values(|x: Index| index_view(x)) == declared_indexes(
                all.subrange(0, k as int),
            ),
        decreases rest@.len(),
    {
        let f = rest.remove(0);
        assert(f == all[k as int]);
        assert(all.subrange(0, k + 1).drop_last() =~= all.subrange(0, k as int));
        let parts = ProtobufFieldParts::from(f);
        fields.push(parts.proto_field);
        let ghost before = indexes@;
        match parts.proto_index {
            Some(index) => {
                indexes.push(index);
                assert(indexes@.map_values(|x: Index| index_view(x)) =~= before.map_values(
                    |x: Index| index_view(x),
                ).push(index_view(index)));
            },
            None => {},
        }
        assert(rest@ =~= all.subrange(k + 1, all.len() as int));
        k = k + 1;
    }
    assert(all.subrange(0, k as int) =~= all);
    CreateCollectionRequest { name, document_id_field_name, fields, indexes }
}

/// The text at `k` of an object.
pub open spec fn str_member(v: JsonValue, k: Seq<char>) -> Option<String> {
    match member(v, k) {
        Some(JsonValue::String(s)) => Some(s),
        _ => None,
    }
}

/// The boolean at `k` of an object, false when there is none.
pub open spec fn flag_member(v: JsonValue, k: Seq<char>) -> bool {
    match member(v, k) {
        Some(JsonValue::Bool(b)) => b,
        _ => false,
    }
}

/// The protocol field that a schema's field definition declares, with the index it asks for
/// (indexed fields, and always the primary key); `None` when the definition is malformed.
pub open spec fn schema_field(def: JsonValue, id_field: Seq<char>) -> Option<
    (ModelField, Option<(Seq<Seq<char>>, bool)>),
> {
    match (str_member(def, "name"@), str_member(def, "type"@)) {
        (Some(n), Some(t)) => match field_type_named(upper_of(t@)) {
            Some(ft) => Some(
                (
                    ModelField { name: n, field_type: ft.code_spec() },
                    if flag_member(def, "indexed"@) || n@ == id_field {
                        Some((seq![n@], flag_member(def, "unique"@) || n@ == id_field))
                    } else {
                        None
                    },
                ),
            ),
            None => None,
        },
        _ => None,
    }
}

/// The fields and indexes that a schema's field definitions declare; `None` when one is
/// malformed.
pub open spec fn schema_fields(defs: Seq<JsonValue>, id_field: Seq<char>) -> Option<
    (Seq<ModelField>, Seq<(Seq<Seq<char>>, bool)>),
>
    decreases defs.len(),
{
    if defs.len() == 0 {
        Some((Seq::empty(), Seq::empty()))
    } else {
        match schema_fields(defs.drop_last(), id_field) {
            None => None,
            Some(acc) => match schema_field(defs.last(), id_field) {
                None => None,
                Some(d) => Some(
                    (
                        acc.0.push(d.0),
                        match d.1 {
                            Some(i) => acc.1.push(i),
                            None => acc.1,
                        },
                    ),
                ),
            },
        }
    }
}

proof fn lemma_schema_fails_from(defs: Seq<JsonValue>, id_field: Seq<char>, j: int)
    requires
        0 <= j <= defs.len(),
        schema_fields(defs.subrange(0, j), id_field) is None,
    ensures
        schema_fields(defs, id_field) is None,
    decreases defs.len() - j,
{
    if j < defs.len() {
        assert(defs.subrange(0, j + 1).drop_last() =~= defs.subrange(0, j));
        lemma_schema_fails_from(defs, id_field, j + 1);
    } else {
        assert(defs.subrange(0, j) =~= defs);
    }
}

/// The protocol field and index that one field definition of a schema declares.
fn field_definition(def: &JsonValue, id_field: &String) -> (r: Result<(ModelField, Option<Index>), Error>)
    ensures
        match schema_field(*def, id_field@) {
            None => r matches Err(Error::InvalidInput(_)),
            Some(d) => r is Ok && r->Ok_0.0 == d.0 && match d.1 {
                Some(i) => r->Ok_0.1 matches Some(x) && index_view(x) == i,
                None => r->Ok_0.1 is None,
            },
        },
{
    if !matches!(def, JsonValue::Object(_)) {
        return Err(input_error("Field definition must be an object"));
    }
    let field_name = match def.get("name") {
        Some(v) => match v.as_str() {
            Some(s) => s.clone(),
            None => return Err(input_error("Field 'name' missing")),
        },
        None => return Err(input_error("Field 'name' missing")),
    };
    let type_str = match def.get("type") {
        Some(v) => match v.as_str() {
            Some(s) => s,
            None => return Err(input_error("Field 'type' missing")),
        },
        None => return Err(input_error("Field 'type' missing")),
    };
    let field_type = match parse_field_type(type_str.as_str()) {
        Ok(t) => t,
        Err(e) => return Err(e),
    };
    let indexed = match def.get("indexed") {
        Some(v) => match v.as_bool() {
            Some(b) => b,
            None => false,
        },
        None => false,
    };
    let unique = match def.get("unique") {
        Some(v) => match v.as_bool() {
            Some(b) => b,
            None => false,
        },
        None => false,
    };
    let is_key = field_name == *id_field;
    let index = if indexed || is_key {
        Some(single_index(field_name.clone(), unique || is_key))
    } else {
        None
    };
    Ok((ModelField { name: field_name, field_type: field_type.code() }, index))
}

fn input_error(msg: &str) -> (r: Error)
    ensures
        r is InvalidInput,
{
    Error::InvalidInput(String::from_str(msg))
}

/// The request that creates the collection a JSON schema describes: `name`,
/// `document_id_field_name`, and `fields`, each with `name`, `type`, and optional `indexed` and
/// `unique`.
pub fn json_to_create_collection_request(json_schema: JsonValue) -> (r: Result<
    CreateCollectionRequest,
    Error,
>)
    ensures
        ({
            let ok = json_schema is Object && str_member(json_schema, "name"@) is Some
                && str_member(json_schema, "document_id_field_name"@) is Some && (member(
                json_schema,
                "fields"@,
            ) matches Some(JsonValue::Array(defs)) && schema_fields(
                defs@,
                str_member(json_schema, "document_id_field_name"@)->0@,
            ) is Some);
            &&& r is Ok <==> ok
            &&& r is Err ==> r->Err_0 is InvalidInput
            &&& ok ==> ({
                let id_field = str_member(json_schema, "document_id_field_name"@)->0;
                let defs = member(json_schema, "fields"@)->0->Array_0;
                let decl = schema_fields(defs@, id_field@)->0;
                &&& r->Ok_0.name == str_member(json_schema, "name"@)->0
                &&& r->Ok_0.document_id_field_name == id_field
                &&& r->Ok_0.fields@ == decl.0
                &&& r->Ok_0.indexes@.map_values(|x: Index| index_view(x)) == decl.1
            })
        }),
{
    if !matches!(json_schema, JsonValue::Object(_)) {
        return Err(input_error("root must be an object"));
    }
    let name = match json_schema.get("name") {
        Some(v) => match v.as_str() {
            Some(s) => s.clone(),
            None => return Err(input_error("Missing or invalid 'name'")),
        },
        None => return Err(input_error("Missing or invalid 'name'")),
    };
    let id_field = match json_schema.get("document_id_field_name") {
        Some(v) => match v.as_str() {
            Some(s) => s.clone(),
            None => return Err(input_error("Missing or invalid 'document_id_field_name'")),
        },
        None => return Err(input_error("Missing or invalid 'document_id_field_name'")),
    };
    let defs = match json_schema.get("fields") {
        Some(v) => match v.as_array() {
            Some(a) => a,
            None => return Err(input_error("Missing or invalid 'fields' array")),
        },
        None => return Err(input_error("Missing or invalid 'fields' array")),
    };
    let mut fields: Vec<ModelField> = Vec::new();
    let mut indexes: Vec<Index> = Vec::new();
    let mut i: usize = 0;
    while i < defs.len()
        invariant
            i <= defs@.len(),
            member(json_schema, "fields"@) == Some(JsonValue::Array(*defs)),
            str_member(json_schema, "document_id_field_name"@) == Some(id_field),
            str_member(json_schema, "name"@) == Some(name),
            json_schema is Object,
            schema_fields(defs@.subrange(0, i as int), id_field@) == Some(
                (fields@, indexes@.map_values(|x: Index| index_view(x))),
            ),
        decreases defs@.len() - i,
    {
        assert(defs@.subrange(0, i + 1).drop_last() =~= defs@.subrange(0, i as int));
        assert(defs@.subrange(0, i + 1).last() == defs@[i as int]);
        match field_definition(&defs[i], &id_field) {
            Ok((field, index)) => {
                let ghost before = indexes@;
                match index {
                    Some(x) => {
                        indexes.push(x);
                        assert(indexes@.map_values(|x: Index| index_view(x)) =~= before.map_values(
                            |x: Index| index_view(x),
                        ).push(index_view(x)));
                    },
                    None => {},
                }
                fields.push(field);
            },
            Err(e) => {
                proof {
                    let pre = defs@.subrange(0, i + 1);
                    assert(schema_field(pre.last(), id_field@) is None);
                    assert(schema_fields(pre, id_field@) is None);
                    lemma_schema_fails_from(defs@, id_field@, i + 1);
                }
                return Err(e);
            },
        }
        i = i + 1;
    }
    assert(defs@.subrange(0, i as int) =~= defs@);
    Ok(CreateCollectionRequest { name, document_id_field_name: id_field, fields, indexes })
}

/// A sort key of a document search.
#[derive(Debug, Clone, PartialEq, Eq)]
pub struct OrderByClause {
    pub field: String,
    pub desc: bool,
}

/// One comparison of a field with a value.
#[derive(Debug, PartialEq, Eq)]
pub struct FieldComparison {
    pub field: String,
    pub operator: i32,
    pub value: JsonValue,
}

/// Comparisons that must all hold.
#[derive(Debug, PartialEq, Eq)]
pub struct QueryExpression {
    pub field_comparisons: Vec<FieldComparison>,
}

/// A document search: every expression must hold.
#[derive(Debug, PartialEq, Eq)]
pub struct Query {
    pub collection_name: String,
    pub expressions: Vec<QueryExpression>,
    pub order_by: Vec<OrderByClause>,
    pub limit: u32,
}

/// The sort key that an `order_by` item gives: items without a text `field` give none.
pub open spec fn order_clause(item: JsonValue) -> Option<OrderByClause> {
    match str_member(item, "field"@) {
        Some(f) => Some(OrderByClause { field: f, desc: flag_member(item, "desc"@) }),
        None => None,
    }
}

pub open spec fn order_clauses(items: Seq<JsonValue>) -> Seq<OrderByClause>
    decreases items.len(),
{
    if items.len() == 0 {
        Seq::empty()
    } else {
        let rest = order_clauses(items.drop_last());
        match order_clause(items.last()) {
            Some(c) => rest.push(c),
            None => rest,
        }
    }
}

/// The sort keys of a query.
pub open spec fn query_order(q: JsonValue) -> Seq<OrderByClause> {
    match member(q, "order_by"@) {
        Some(JsonValue::Array(a)) => order_clauses(a@),
        _ => Seq::empty(),
    }
}

/// The row limit of a query: its `limit`, 100 when it has no non-negative integer there;
/// `None` when that integer does not fit in 32 bits.
pub open spec fn query_limit(q: JsonValue) -> Option<u32> {
    match member(q, "limit"@) {
        Some(JsonValue::Number(JsonNumber::PosInt(n))) => if n <= u32::MAX {
            Some(n as u32)
        } else {
            None
        },
        _ => Some(100),
    }
}

/// The items of a query's `where` clause: none without one; otherwise `where` must be an
/// object whose only entry is an `AND` list. Any other combinator is refused (`None`).
pub open spec fn where_items(q: JsonValue) -> Option<Seq<JsonValue>> {
    match member(q, "where"@) {
        None => Some(Seq::empty()),
        Some(JsonValue::Object(w)) => if w@.len() == 1 && w@[0].0@ == "AND"@ {
            match w@[0].1 {
                JsonValue::Array(a) => Some(a@),
                _ => None,
            }
        } else {
            None
        },
        Some(_) => None,
    }
}

/// The comparisons of a query's `where` clause; `None` when the clause is not a flat list of
/// well-formed comparisons.
pub open spec fn query_comparisons(q: JsonValue) -> Option<Seq<FieldComparison>> {
    match where_items(q) {
        Some(items) => comparisons(items),
        None => None,
    }
}

/// Whether a JSON query is one that this library accepts.
pub open spec fn query_ok(q: JsonValue) -> bool {
    &&& q is Object
    &&& str_member(q, "collection_name"@) is Some
    &&& query_limit(q) is Some
    &&& query_comparisons(q) is Some
}

/// The comparison that a `where.AND` item states; `None` when it is malformed.
pub open spec fn comparison_of(item: JsonValue) -> Option<FieldComparison> {
    match (str_member(item, "field"@), str_member(item, "op"@), member(item, "value"@)) {
        (Some(f), Some(op), Some(v)) => match op_code(upper_of(op@)) {
            Some(c) => Some(FieldComparison { field: f, operator: c, value: v }),
            None => None,
        },
        _ => None,
    }
}

/// The comparisons that the items of a `where.AND` list state; `None` when one is not an
/// object or is malformed.
pub open spec fn comparisons(items: Seq<JsonValue>) -> Option<Seq<FieldComparison>>
    decreases items.len(),
{
    if items.len() == 0 {
        Some(Seq::empty())
    } else {
        match comparisons(items.drop_last()) {
            None => None,
            Some(cs) => if items.last() is Object {
                match comparison_of(items.last()) {
                    Some(c) => Some(cs.push(c)),
                    None => None,
                }
            } else {
                None
            },
        }
    }
}

proof fn lemma_comparisons_fail_from(items: Seq<JsonValue>, j: int)
    requires
        0 <= j <= items.len(),
        comparisons(items.subrange(0, j)) is None,
    ensures
        comparisons(items) is None,
    decreases items.len() - j,
{
    if j < items.len() {
        assert(items.subrange(0, j + 1).drop_last() =~= items.subrange(0, j));
        lemma_comparisons_fail_from(items, j + 1);
    } else {
        assert(items.subrange(0, j) =~= items);
    }
}

/// Takes the value of the first entry keyed `key` out of `entries`.
fn take_member(entries: &mut Vec<(String, JsonValue)>, key: &str) -> (r: Option<JsonValue>)
    ensures
        r == lookup(old(entries)@, key@),
{
    match find_key(entries, key) {
        Some(i) => {
            proof {
                lemma_key_index_bounds(entries@, key@);
            }
            let (_, v) = entries.remove(i);
            Some(v)
        },
        None => None,
    }
}

/// The comparison that the entries of a `where.AND` item state: `field`, `op` and `value`.
pub fn json_to_field_comparison(entries: Vec<(String, JsonValue)>) -> (r: Result<
    FieldComparison,
    Error,
>)
    ensures
        match comparison_of(JsonValue::Object(entries)) {
            Some(c) => r == Ok::<FieldComparison, Error>(c),
            None => r matches Err(Error::InvalidInput(_)),
        },
{
    let obj = JsonValue::Object(entries);
    let field = match obj.get("field") {
        Some(v) => match v.as_str() {
            Some(s) => s.clone(),
            None => return Err(input_error("Missing 'field'")),
        },
        None => return Err(input_error("Missing 'field'")),
    };
    let operator = match obj.get("op") {
        Some(v) => match v.as_str() {
            Some(s) => match map_operator(s.as_str()) {
                Ok(c) => c,
                Err(e) => return Err(e),
            },
            None => return Err(input_error("Missing 'op'")),
        },
        None => return Err(input_error("Missing 'op'")),
    };
    let mut rest = match obj {
        JsonValue::Object(e) => e,
        _ => return Err(input_error("Missing 'value'")),
    };
    match take_member(&mut rest, "value") {
        Some(value) => Ok(FieldComparison { field, operator, value }),
        None => Err(input_error("Missing 'value'")),
    }
}

fn order_clauses_of(items: &Vec<JsonValue>) -> (r: Vec<OrderByClause>)
    ensures
        r@ == order_clauses(items@),
{
    let mut out: Vec<OrderByClause> = Vec::new();
    let mut i: usize = 0;
    while i < items.len()
        invariant
            i <= items@.len(),
            out@ == order_clauses(items@.subrange(0, i as int)),
        decreases items@.len() - i,
    {
        assert(items@.subrange(0, i + 1).drop_last() =~= items@.subrange(0, i as int));
        let item = &items[i];
        match item.get("field") {
            Some(f) => match f.as_str() {
                Some(name) => {
                    let desc = match item.get("desc") {
                        Some(d) => match d.as_bool() {
                            Some(b) => b,
                            None => false,
                        },
                        None => false,
                    };
                    out.push(OrderByClause { field: name.clone(), desc });
                },
                None => {},
            },
            None => {},
        }
        i = i + 1;
    }
    assert(items@.subrange(0, i as int) =~= items@);
    out
}

/// The items of the `where` clause, taken out of the query's entries.
fn take_where_items(entries: &mut Vec<(String, JsonValue)>) -> (r: Result<Vec<JsonValue>, Error>)
    ensures
        match where_items(JsonValue::Object(*old(entries))) {
            Some(items) => r is Ok && r->Ok_0@ == items,
            None => r matches Err(Error::InvalidInput(_)),
        },
{
    match take_member(entries, "where") {
        None => Ok(Vec::new()),
        Some(JsonValue::Object(mut w)) => {
            if w.len() == 1 && is_text(&w[0].0, "AND") {
                let (_, v) = w.remove(0);
                match v {
                    JsonValue::Array(items) => Ok(items),
                    _ => Err(input_error("'where.AND' must be an array")),
                }
            } else {
                Err(input_error("'where' supports only a flat 'AND' list"))
            }
        },
        Some(_) => Err(input_error("'where' must be an object")),
    }
}

/// The search a JSON query describes: `collection_name`, `limit` (100 by default, at most
/// `u32::MAX`), the sort keys of `order_by`, and one expression per item of `where.AND`.
/// A `where` holding anything but a flat `AND` list of comparisons is refused.
pub fn json_to_immudb_query(json_query: JsonValue) -> (r: Result<Query, Error>)
    ensures
        ({
            let ok = query_ok(json_query);
            &&& r is Ok <==> ok
            &&& r is Err ==> r->Err_0 is InvalidInput
            &&& ok ==> ({
                let q = r->Ok_0;
                let cs = query_comparisons(json_query)->0;
                &&& q.collection_name == str_member(json_query, "collection_name"@)->0
                &&& q.limit == query_limit(json_query)->0
                &&& q.order_by@ == query_order(json_query)
                &&& q.expressions@.len() == cs.len()
                &&& forall|i: int|
                    0 <= i < cs.len() ==> #[trigger] q.expressions@[i].field_comparisons@ == seq![
                        cs[i],
                    ]
            })
        }),
{
    let entries = match json_query {
        JsonValue::Object(m) => m,
        _ => return Err(input_error("Query must be a JSON object")),
    };
    let q = JsonValue::Object(entries);
    let collection_name = match q.get("collection_name") {
        Some(v) => match v.as_str() {
            Some(s) => s.clone(),
            None => return Err(input_error("Missing 'collection_name'")),
        },
        None => return Err(input_error("Missing 'collection_name'")),
    };
    let limit: u32 = match q.get("limit") {
        Some(v) => match v.as_u64() {
            Some(n) => if n <= u32::MAX as u64 {
                n as u32
            } else {
                return Err(input_error("'limit' does not fit in 32 bits"));
            },
            None => 100,
        },
        None => 100,
    };
    let order_by = match q.get("order_by") {
        Some(v) => match v.as_array() {
            Some(a) => order_clauses_of(a),
            None => Vec::new(),
        },
        None => Vec::new(),
    };
    let mut entries = match q {
        JsonValue::Object(m) => m,
        _ => return Err(input_error("Query must be a JSON object")),
    };
    let mut items = match take_where_items(&mut entries) {
        Ok(items) => items,
        Err(e) => return Err(e),
    };
    let ghost all = items@;
    let n = items.len();
    let mut expressions: Vec<QueryExpression> = Vec::new();
    let ghost mut found: Seq<FieldComparison> = Seq::empty();
    let mut k: usize = 0;
    while items.len() > 0
        invariant
            k <= all.len() == n,
            where_items(json_query) == Some(all),
            items@ == all.subrange(k as int, all.len() as int),
            comparisons(all.subrange(0, k as int)) == Some(found),
            expressions@.len() == found.len(),
            forall|i: int|
                0 <= i < found.len() ==> #[trigger] expressions@[i].field_comparisons@ == seq![
                    found[i],
                ],
        decreases items@.len(),
    {
        let item = items.remove(0);
        assert(item == all[k as int]);
        assert(all.subrange(0, k + 1).drop_last() =~= all.subrange(0, k as int));
        assert(all.subrange(0, k + 1).last() == all[k as int]);
        match item {
            JsonValue::Object(fields) => {
                match json_to_field_comparison(fields) {
                    Ok(c) => {
                        let ghost before = expressions@;
                        let ghost old_found = found;
                        proof {
                            found = found.push(c);
                        }
                        let mut one: Vec<FieldComparison> = Vec::new();
                        one.push(c);
                        assert(one@ =~= seq![found.last()]);
                        let ghost one_view = one@;
                        expressions.push(QueryExpression { field_comparisons: one });
                        assert(expressions@[before.len() as int].field_comparisons@ == one_view);
                        assert forall|i: int| 0 <= i < found.len() implies (#[trigger] expressions@[i]).field_comparisons@
                            == seq![found[i]] by {
                            if i < before.len() {
                                assert(expressions@[i] == before[i]);
                                assert(found[i] == old_found[i]);
                                assert(before[i].field_comparisons@ == seq![old_found[i]]);
                            } else {
                                assert(i == before.len());
                            }
                        }
                    },
                    Err(e) => {
                        proof {
                            lemma_comparisons_fail_from(all, k + 1);
                        }
                        return Err(e);
                    },
                }
            },
            _ => {
                proof {
                    lemma_comparisons_fail_from(all, k + 1);
                }
                return Err(input_error("'where.AND' items must be objects"));
            },
        }
        assert(items@ =~= all.subrange(k + 1, all.len() as int));
        k = k + 1;
    }
    assert(all.subrange(0, k as int) =~= all);
    Ok(Query { collection_name, expressions, order_by, limit })
}

/// A document search to run: the query, a cursor id to resume, and the page to fetch.
#[derive(Debug)]
pub struct SearchDocuments {
    pub query: JsonValue,
    pub search_id: String,
    pub page_size: u32,
    pub page: u32,
    /// Whether the server keeps the search open for further pages.
    pub keep_open: bool,
}

/// The request that runs a document search.
#[derive(Debug, PartialEq, Eq)]
pub struct SearchDocumentsRequest {
    pub search_id: String,
    pub query: Query,
    pub page: u32,
    pub page_size: u32,
    pub keep_open: bool,
}

impl SearchDocuments {
    /// A search for `query`: first page of 50, no cursor, not kept open.
    pub fn query(query: JsonValue) -> (r: SearchDocuments)
        ensures
            r.query == query,
            r.search_id@ == Seq::<char>::empty(),
            r.page_size == 50,
            r.page == 1,
            !r.keep_open,
    {
        SearchDocuments { query, search_id: String::new(), page_size: 50, page: 1, keep_open: false }
    }

    /// The request for this search. Resuming a cursor keeps the search open; the query must be
    /// well formed (see [`json_to_immudb_query`]).
    pub fn into_request(self) -> (r: Result<SearchDocumentsRequest, Error>)
        ensures
            ({
                let ok = query_ok(self.query);
                &&& r is Ok <==> ok
                &&& r is Err ==> r->Err_0 is InvalidInput
                &&& ok ==> ({
                    let q = r->Ok_0;
                    &&& q.search_id == self.search_id
                    &&& q.page == self.page
                    &&& q.page_size == self.page_size
                    &&& q.keep_open == (self.keep_open || self.search_id@.len() > 0)
                    &&& q.query.collection_name == str_member(self.query, "collection_name"@)->0
                    &&& q.query.limit == query_limit(self.query)->0
                    &&& q.query.order_by@ == query_order(self.query)
                    &&& q.query.expressions@.len() == query_comparisons(self.query)->0.len()
                    &&& forall|i: int|
                        0 <= i < q.query.expressions@.len() ==> #[trigger] q.query.expressions@[i].field_comparisons@
                            == seq![query_comparisons(self.query)->0[i]]
                })
            }),
    {
        let SearchDocuments { query, search_id, page_size, page, keep_open } = self;
        let keep_open = keep_open || !search_id.as_str().is_empty();
        let ghost cs = query_comparisons(query);
        match json_to_immudb_query(query) {
            Ok(q) => {
                let r = SearchDocumentsRequest { search_id, query: q, page, page_size, keep_open };
                assert forall|i: int| 0 <= i < r.query.expressions@.len() implies #[trigger] r.query.expressions@[i].field_comparisons@
                    == seq![cs->0[i]] by {
                    assert(r.query.expressions@[i] == q.expressions@[i]);
                }
                Ok(r)
            },
            Err(e) => Err(e),
        }
    }
}

/// Documents to insert must each be an object.
pub fn check_documents(docs: &Vec<JsonValue>) -> (r: Result<(), Error>)
    ensures
        r is Ok <==> forall|i: int| 0 <= i < docs@.len() ==> #[trigger] docs@[i] is Object,
        r is Err ==> (r->Err_0 matches Error::Unexpected(m) && m@
            == "root of document must be a JSON object"@),
{
    let mut i: usize = 0;
    while i < docs.len()
        invariant
            i <= docs@.len(),
            forall|j: int| 0 <= j < i ==> #[trigger] docs@[j] is Object,
        decreases docs@.len() - i,
    {
        if !matches!(&docs[i], JsonValue::Object(_)) {
            return Err(Error::Unexpected(String::from_str("root of document must be a JSON object")));
        }
        i = i + 1;
    }
    Ok(())
}

} // verus!
