use vstd::prelude::*;

verus! {

#[verifier::external_type_specification]
#[verifier::external_body]
pub struct ExValue(serde_json::Value);

/// The failure that `serde_json::from_str::<serde_json::Value>` reports for
/// this text, rendered through the error's `Display` impl; `None` when the
/// text is valid JSON. Parsing reads the text alone, so this is a function
/// of it.
pub uninterp spec fn json_parse_err(text: Seq<char>) -> Option<Seq<char>>;

/// The string directly under `key` in this JSON document: `None` when the
/// document is not an object, the key is absent, or its value is not a
/// string.
pub uninterp spec fn json_str_field(v: serde_json::Value, key: Seq<char>) -> Option<Seq<char>>;

/// The string under the key `main` of the document that this text parses
/// to; meaningful only for text that parses.
pub uninterp spec fn json_main(text: Seq<char>) -> Option<Seq<char>>;

/// The entries of the array under `inputComponents` in the first element
/// of this configuration document: one entry per array element, `Some` for
/// the string elements; `None` when no such array exists.
pub uninterp spec fn json_config_components(v: serde_json::Value) -> Option<
    Seq<Option<Seq<char>>>,
>;

/// Relies on `serde_json::from_str::<serde_json::Value>`: whether parsing
/// succeeds, the document it yields, and the rendering of its error are
/// each a function of the text alone.
#[verifier::external_body]
pub(crate) fn parse_json_text(text: &str) -> (r: Result<serde_json::Value, String>)
    ensures
        r is Ok <==> json_parse_err(text@) is None,
        r matches Err(m) ==> json_parse_err(text@) == Some(m@),
        r matches Ok(v) ==> json_str_field(v, "main"@) == json_main(text@),
{
    serde_json::from_str::<serde_json::Value>(text).map_err(|e| e.to_string())
}

/// Relies on `serde_json::Value::get` (with a string key: a lookup in an
/// object, `None` on any other document) and `serde_json::Value::as_str`
/// (`Some` exactly for the `String` variant).
#[verifier::external_body]
pub(crate) fn json_get_str(v: &serde_json::Value, key: &str) -> (r: Option<String>)
    ensures
        r.deep_view() == json_str_field(*v, key@),
{
    v.get(key).and_then(serde_json::Value::as_str).map(|s| s.to_string())
}

/// Relies on `serde_json::Value::get` (with index `0`: array indexing,
/// `None` on any other document; then with the key `inputComponents`) and
/// on `serde_json::Value::as_str` for each element of the array found
/// there.
#[verifier::external_body]
pub(crate) fn json_input_components(v: &serde_json::Value) -> (r: Option<Vec<Option<String>>>)
    ensures
        r.deep_view() == json_config_components(*v),
{
    match v.get(0).and_then(|c| c.get("inputComponents")) {
        Some(serde_json::Value::Array(components)) => Some(
            components.iter().map(|c| c.as_str().map(|s| s.to_string())).collect(),
        ),
        _ => None,
    }
}

} // verus!
