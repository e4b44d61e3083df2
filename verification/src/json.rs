use vstd::prelude::*;

verus! {

/// A JSON document as the parsed instructions describe it.
#[derive(Debug, PartialEq, Eq)]
pub enum JsonValue {
    Null,
    Unsigned(u64),
    Signed(i64),
    Text(String),
    Array(Vec<JsonValue>),
    Object(Vec<JsonField>),
}

/// One member of a JSON object.
#[derive(Debug, PartialEq, Eq)]
pub struct JsonField {
    pub key: String,
    pub value: JsonValue,
}

/// The mathematical value of a JSON document.
pub enum Json {
    Null,
    Unsigned(u64),
    Signed(i64),
    Text(Seq<char>),
    Array(Seq<Json>),
    Object(Seq<(Seq<char>, Json)>),
}

pub open spec fn json_view(v: JsonValue) -> Json
    decreases v,
{
    match v {
        JsonValue::Null => Json::Null,
        JsonValue::Unsigned(n) => Json::Unsigned(n),
        JsonValue::Signed(n) => Json::Signed(n),
        JsonValue::Text(s) => Json::Text(s@),
        JsonValue::Array(items) => Json::Array(json_items_view(items@)),
        JsonValue::Object(fields) => Json::Object(json_fields_view(fields@)),
    }
}

pub open spec fn json_items_view(items: Seq<JsonValue>) -> Seq<Json>
    decreases items,
{
    if items.len() == 0 {
        seq![]
    } else {
        json_items_view(items.drop_last()).push(json_view(items.last()))
    }
}

pub open spec fn json_fields_view(fields: Seq<JsonField>) -> Seq<(Seq<char>, Json)>
    decreases fields,
{
    if fields.len() == 0 {
        seq![]
    } else {
        json_fields_view(fields.drop_last()).push((fields.last().key@, json_view(fields.last().value)))
    }
}

/// `Null` for none, a number otherwise.
pub open spec fn optional_unsigned_json(v: Option<u64>) -> Json {
    match v {
        Some(n) => Json::Unsigned(n),
        None => Json::Null,
    }
}

/// `Null` for none, a number otherwise.
pub open spec fn optional_signed_json(v: Option<i64>) -> Json {
    match v {
        Some(n) => Json::Signed(n),
        None => Json::Null,
    }
}

/// An array of numbers.
pub open spec fn unsigned_array_json(v: Seq<u64>) -> Json {
    Json::Array(Seq::new(v.len(), |i: int| Json::Unsigned(v[i])))
}

pub proof fn lemma_json_items_push(items: Seq<JsonValue>, item: JsonValue)
    ensures
        json_items_view(items.push(item)) == json_items_view(items).push(json_view(item)),
{
    assert(items.push(item).drop_last() =~= items);
}

pub proof fn lemma_json_fields_push(fields: Seq<JsonField>, field: JsonField)
    ensures
        json_fields_view(fields.push(field)) == json_fields_view(fields).push(
            (field.key@, json_view(field.value)),
        ),
{
    assert(fields.push(field).drop_last() =~= fields);
}

/// Appends the member `key: value` to an object under construction.
pub fn push_field(fields: &mut Vec<JsonField>, key: &str, value: JsonValue)
    ensures
        json_fields_view(final(fields)@) == json_fields_view(old(fields)@).push(
            (key@, json_view(value)),
        ),
{
    let field = JsonField { key: key.to_owned(), value };
    proof {
        lemma_json_fields_push(fields@, field);
    }
    fields.push(field);
}

pub fn optional_unsigned(v: Option<u64>) -> (res: JsonValue)
    ensures
        json_view(res) == optional_unsigned_json(v),
{
    match v {
        Some(n) => JsonValue::Unsigned(n),
        None => JsonValue::Null,
    }
}

pub fn optional_signed(v: Option<i64>) -> (res: JsonValue)
    ensures
        json_view(res) == optional_signed_json(v),
{
    match v {
        Some(n) => JsonValue::Signed(n),
        None => JsonValue::Null,
    }
}

pub fn unsigned_array(v: &Vec<u64>) -> (res: JsonValue)
    ensures
        json_view(res) == unsigned_array_json(v@),
{
    let mut items: Vec<JsonValue> = Vec::new();
    let mut i: usize = 0;
    while i < v.len()
        invariant
            i <= v@.len(),
            json_items_view(items@) =~= Seq::new(i as nat, |j: int| Json::Unsigned(v@[j])),
        decreases v@.len() - i,
    {
        let item = JsonValue::Unsigned(v[i]);
        proof {
            lemma_json_items_push(items@, item);
        }
        items.push(item);
        i = i + 1;
    }
    JsonValue::Array(items)
}

} // verus!
