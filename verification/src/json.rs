//! JSON as a mathematical object, and the `serde_json` values that hold one.

use serde_json::Value;
use vstd::prelude::*;

verus! {

#[verifier::external_type_specification]
#[verifier::external_body]
pub struct ExValue(Value);

/// A JSON value. The keys of an object are listed in the order they are walked in.
pub enum JsonModel {
    Null,
    Boolean(bool),
    /// A number as it is written, and whether it is kept as a floating-point number.
    Number { text: Seq<char>, float: bool },
    Text(Seq<char>),
    Array(Seq<JsonModel>),
    Object { order: Seq<Seq<char>>, fields: Map<Seq<char>, JsonModel> },
}

/// A list of entries as a map. A later entry takes the place of an earlier one with its key.
pub open spec fn entries_map<T>(entries: Seq<(Seq<char>, T)>) -> Map<Seq<char>, T>
    decreases entries.len(),
{
    if entries.len() == 0 {
        Map::empty()
    } else {
        entries_map(entries.drop_last()).insert(entries.last().0, entries.last().1)
    }
}

/// Whether a list of keys is the keys of a map, each once.
pub open spec fn lists_keys<T>(order: Seq<Seq<char>>, fields: Map<Seq<char>, T>) -> bool {
    order.no_duplicates() && order.to_set() == fields.dom()
}

/// Whether a JSON value is an object with these fields.
pub open spec fn is_object(json: JsonModel, fields: Map<Seq<char>, JsonModel>) -> bool {
    json matches JsonModel::Object { order, fields: held } && held == fields && lists_keys(
        order,
        fields,
    )
}

/// One level of a `serde_json` value.
pub enum Shape<'a> {
    Null,
    Boolean(bool),
    Number { text: String, float: bool },
    Text(&'a str),
    Array,
    Object(Vec<(&'a str, &'a Value)>),
}

/// What a `serde_json` value holds.
pub uninterp spec fn json_model(value: Value) -> JsonModel;

/// What `serde_json` reads a text as, or why it is not JSON.
pub uninterp spec fn json_of_text(text: Seq<char>) -> Result<JsonModel, Seq<char>>;

/// How `serde_json` writes a value.
pub uninterp spec fn json_text(json: JsonModel) -> Seq<char>;

impl<'a> Shape<'a> {
    /// Whether this is the outermost level of a JSON value.
    pub open spec fn opens(self, json: JsonModel) -> bool {
        match self {
            Shape::Null => json == JsonModel::Null,
            Shape::Boolean(value) => json == JsonModel::Boolean(value),
            Shape::Number { text, float } => json == (JsonModel::Number { text: text@, float }),
            Shape::Text(text) => json == JsonModel::Text(text@),
            Shape::Array => json is Array,
            Shape::Object(entries) => json matches JsonModel::Object { order, fields } && {
                &&& lists_keys(order, fields)
                &&& order.len() == entries@.len()
                &&& forall|i: int|
                    0 <= i < order.len() ==> (#[trigger] entries@[i]).0@ == order[i] && json_model(
                        *entries@[i].1,
                    ) == fields[order[i]]
            },
        }
    }
}

/// An object of objects of texts.
pub open spec fn texts_only(json: JsonModel) -> bool {
    json matches JsonModel::Object { fields, .. } && forall|k: Seq<char>| #[trigger]
        fields.contains_key(k) ==> (fields[k] matches JsonModel::Object { fields: inner, .. }
            && forall|n: Seq<char>| #[trigger] inner.contains_key(n) ==> inner[n] is Text)
}

/// `serde_json::from_str`: reads JSON, or says why the text is not JSON.
#[verifier::external_body]
pub(crate) fn parse_json(text: &str) -> (r: Result<Value, String>)
    ensures
        match r {
            Ok(value) => json_of_text(text@) == Ok::<JsonModel, Seq<char>>(json_model(value)),
            Err(reason) => json_of_text(text@) == Err::<JsonModel, Seq<char>>(reason@),
        },
{
    serde_json::from_str(text).map_err(|e| e.to_string())
}

/// The variants of `serde_json::Value`, with a number by its `Display` and an object by its
/// entries. An object has no key twice.
#[verifier::external_body]
pub(crate) fn open_value<'a>(value: &'a Value) -> (r: Shape<'a>)
    ensures
        r.opens(json_model(*value)),
{
    match value {
        Value::Null => Shape::Null,
        Value::Bool(b) => Shape::Boolean(*b),
        Value::Number(n) => Shape::Number { text: n.to_string(), float: n.is_f64() },
        Value::String(s) => Shape::Text(s.as_str()),
        Value::Array(_) => Shape::Array,
        Value::Object(o) => Shape::Object(o.iter().map(|(k, v)| (k.as_str(), v)).collect()),
    }
}

/// `serde_json::Value::String`: a text as a JSON value.
#[verifier::external_body]
pub(crate) fn text_value(text: &str) -> (r: Value)
    ensures
        json_model(r) == JsonModel::Text(text@),
{
    Value::String(text.to_owned())
}

/// The entries of a list of values, each by what it holds.
pub open spec fn value_entries(entries: Seq<(String, Value)>) -> Seq<(Seq<char>, JsonModel)> {
    entries.map_values(|entry: (String, Value)| (entry.0@, json_model(entry.1)))
}

/// `serde_json::Map` collected from entries, as a JSON value. A later entry takes the place
/// of an earlier one with its key. The order of the keys is the map's own.
#[verifier::external_body]
pub(crate) fn object_value(entries: Vec<(String, Value)>) -> (r: Value)
    ensures
        is_object(json_model(r), entries_map(value_entries(entries@))),
{
    Value::Object(entries.into_iter().collect())
}

/// The `Display` of `serde_json::Value`, which writes compact JSON. Reading the text of an
/// object of objects of texts gives the object back.
#[verifier::external_body]
pub(crate) fn value_text(value: &Value) -> (r: String)
    ensures
        r@ == json_text(json_model(*value)),
        texts_only(json_model(*value)) ==> json_of_text(r@) is Ok && json_of_text(r@)->Ok_0
            == json_model(*value),
{
    value.to_string()
}

} // verus!
