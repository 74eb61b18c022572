use vstd::prelude::*;
use crate::tree::{wf, Json, JsonV};

verus! {

#[verifier::external_type_specification]
#[verifier::external_body]
pub struct ExValue(serde_json::Value);

/// The tree that serde_json reads from a text, or `None` where the text is not JSON.
pub uninterp spec fn parsed_text(text: Seq<char>) -> Option<JsonV>;

/// The JSON text that serde_json writes for a tree.
pub uninterp spec fn encoded_tree(t: JsonV) -> Seq<char>;

/// Relies on the variants of serde_json::Value: moves each into the matching variant
/// of `Json`; a number goes by `as_u64`, then `as_i64`, else by its text.
#[verifier::external_body]
fn tree_from_value(v: serde_json::Value) -> Json {
    match v {
        serde_json::Value::Null => Json::Null,
        serde_json::Value::Bool(b) => Json::Bool(b),
        serde_json::Value::Number(n) => match (n.as_u64(), n.as_i64()) {
            (Some(u), _) => Json::UInt(u),
            (None, Some(i)) => Json::Int(i),
            (None, None) => Json::Float(n.to_string()),
        },
        serde_json::Value::String(s) => Json::Str(s),
        serde_json::Value::Array(a) => Json::Array(a.into_iter().map(tree_from_value).collect()),
        serde_json::Value::Object(m) => Json::Object(
            m.into_iter().map(|(k, x)| (k, tree_from_value(x))).collect(),
        ),
    }
}

/// Relies on the variants of serde_json::Value: builds the matching value of each
/// variant of `Json`; a non-integral number is read back from its text by
/// serde_json::Number's `FromStr`.
#[verifier::external_body]
fn value_from_tree(t: &Json) -> serde_json::Value {
    match t {
        Json::Null => serde_json::Value::Null,
        Json::Bool(b) => serde_json::Value::Bool(*b),
        Json::UInt(u) => serde_json::Value::from(*u),
        Json::Int(i) => serde_json::Value::from(*i),
        Json::Float(s) => s.parse::<serde_json::Number>().map_or(serde_json::Value::Null, serde_json::Value::Number),
        Json::Str(s) => serde_json::Value::String(s.clone()),
        Json::Array(a) => serde_json::Value::Array(a.iter().map(value_from_tree).collect()),
        Json::Object(m) => serde_json::Value::Object(
            m.iter().map(|(k, x)| (k.clone(), value_from_tree(x))).collect(),
        ),
    }
}

/// Relies on serde_json::from_str into serde_json::Value: the result depends on the
/// text alone, and an object of it holds one value per key (serde_json::Map).
#[verifier::external_body]
pub(crate) fn parse_tree(text: &str) -> (r: Option<Json>)
    ensures
        match r {
            Some(t) => parsed_text(text@) == Some(t@) && wf(t@),
            None => parsed_text(text@) is None,
        },
{
    serde_json::from_str::<serde_json::Value>(text).ok().map(tree_from_value)
}

/// Relies on serde_json::Value's `to_string`: the JSON text of the value, which
/// depends on the tree alone.
#[verifier::external_body]
pub(crate) fn encode_tree(t: &Json) -> (r: String)
    ensures
        r@ == encoded_tree(t@),
{
    value_from_tree(t).to_string()
}

} // verus!
