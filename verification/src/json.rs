use vstd::prelude::*;

verus! {

/// A JSON document. Numbers keep their JSON spelling.
#[derive(Debug)]
pub enum Json {
    Null,
    Bool(bool),
    Number(String),
    Str(String),
    Array(Vec<Json>),
    Object(Vec<(String, Json)>),
}

/// The mathematical value of a JSON document.
pub enum JsonValue {
    Null,
    Bool(bool),
    Number(Seq<char>),
    Str(Seq<char>),
    Array(Seq<JsonValue>),
    Object(Seq<(Seq<char>, JsonValue)>),
}

impl Json {
    /// The value of this document.
    pub open spec fn value(&self) -> JsonValue
        decreases self,
    {
        match self {
            Json::Null => JsonValue::Null,
            Json::Bool(b) => JsonValue::Bool(*b),
            Json::Number(n) => JsonValue::Number(n@),
            Json::Str(s) => JsonValue::Str(s@),
            Json::Array(items) => JsonValue::Array(
                Seq::new(items@.len(), |i: int| if 0 <= i < items@.len() { items@[i].value() } else { JsonValue::Null }),
            ),
            Json::Object(fields) => JsonValue::Object(
                Seq::new(fields@.len(), |i: int| if 0 <= i < fields@.len() { (fields@[i].0@, fields@[i].1.value()) } else { (Seq::empty(), JsonValue::Null) }),
            ),
        }
    }
}


/// The values of the fields of an object, in order.
pub open spec fn field_values(fields: Seq<(String, Json)>) -> Seq<(Seq<char>, JsonValue)> {
    fields.map_values(|f: (String, Json)| (f.0@, f.1.value()))
}

/// The values of the items of an array, in order.
pub open spec fn item_values(items: Seq<Json>) -> Seq<JsonValue> {
    items.map_values(|j: Json| j.value())
}

/// An object's value is the sequence of its fields' values.
pub proof fn lemma_object_value(fields: Vec<(String, Json)>)
    ensures
        Json::Object(fields).value() == JsonValue::Object(field_values(fields@)),
{
    let j = Json::Object(fields);
    if let JsonValue::Object(s) = j.value() {
        assert(s =~= field_values(fields@));
    }
}

/// An array's value is the sequence of its items' values.
pub proof fn lemma_array_value(items: Vec<Json>)
    ensures
        Json::Array(items).value() == JsonValue::Array(item_values(items@)),
{
    let j = Json::Array(items);
    if let JsonValue::Array(s) = j.value() {
        assert(s =~= item_values(items@));
    }
}

} // verus!
