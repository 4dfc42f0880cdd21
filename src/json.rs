use vstd::prelude::*;

verus! {

/// A JSON document as a tree: numbers keep their text, objects keep their
/// members in the order the parser yields them.
#[derive(Debug)]
pub enum Json {
    Null,
    Bool(bool),
    Number(String),
    Str(String),
    Array(Vec<Json>),
    Object(Vec<(String, Json)>),
}

/// serde_json's document type, which `parse_json` receives from the parser
/// and moves into a [`Json`] tree.
#[verifier::external_type_specification]
#[verifier::external_body]
pub struct ExValue(serde_json::Value);

/// The tree that serde_json builds from `text`, or `None` where `text` is not JSON.
pub uninterp spec fn parsed_json(text: Seq<char>) -> Option<Json>;

/// Relies on serde_json::from_str::<serde_json::Value>: parses `text` as one JSON
/// document and fails on anything else; the tree is moved over node for node.
#[verifier::external_body]
pub(crate) fn parse_json(text: &str) -> (r: Option<Json>)
    ensures
        r == parsed_json(text@),
{
    serde_json::from_str::<serde_json::Value>(text).ok().map(tree_from_value)
}

/// Moves a serde_json tree into a [`Json`] tree, node for node; the number
/// text is serde_json's own rendering of the number.
#[verifier::external_body]
fn tree_from_value(v: serde_json::Value) -> Json {
    match v {
        serde_json::Value::Null => Json::Null,
        serde_json::Value::Bool(b) => Json::Bool(b),
        serde_json::Value::Number(n) => Json::Number(n.to_string()),
        serde_json::Value::String(s) => Json::Str(s),
        serde_json::Value::Array(a) => Json::Array(a.into_iter().map(tree_from_value).collect()),
        serde_json::Value::Object(o) => Json::Object(
            o.into_iter().map(|(k, x)| (k, tree_from_value(x))).collect(),
        ),
    }
}


/// The JSON string literal that serde_json writes for `s`: quoted, with the
/// characters JSON requires escaped.
pub uninterp spec fn json_string(s: Seq<char>) -> Seq<char>;

/// Relies on serde_json's rendering of a string value (`Display` of
/// `serde_json::Value::String`): the text as a JSON string literal.
#[verifier::external_body]
pub(crate) fn quote_json(s: &str) -> (r: String)
    ensures
        r@ == json_string(s@),
{
    serde_json::Value::from(s).to_string()
}

} // verus!
