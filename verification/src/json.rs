//! JSON texts, as far as they hold texts.
use crate::text::opt_text;
use vstd::prelude::*;

verus! {

/// The text that the member `key` of the object holds that `text` is written in JSON, if it is
/// one with such a member: what `serde_json::from_str`, `Value::get` and `Value::as_str` come to.
pub uninterp spec fn json_text_member(text: Seq<char>, key: Seq<char>) -> Option<Seq<char>>;

/// The object with two members that hold texts, written in JSON over several lines: what
/// `serde_json::to_string_pretty` returns.
pub uninterp spec fn json_pair(
    first_key: Seq<char>,
    first: Seq<char>,
    second_key: Seq<char>,
    second: Seq<char>,
) -> Seq<char>;

/// Reads a JSON text with `serde_json::from_str`, and returns the text that one member of the
/// object holds. Nothing comes back where the text is no JSON or no object, where it has no such
/// member, or where that holds no text. The syntax of JSON is not described further.
#[verifier::external_body]
pub(crate) fn read_text_member(text: &str, key: &str) -> (r: Option<String>)
    ensures
        opt_text(r) == json_text_member(text@, key@),
{
    let value: serde_json::Value = serde_json::from_str(text).ok()?;
    value.get(key).and_then(serde_json::Value::as_str).map(str::to_string)
}

/// Writes an object with two members that hold texts with `serde_json::to_string_pretty`, which
/// has no reason to fail on it. Each of the members is read back as it was written. The layout of
/// the text is not described further.
#[verifier::external_body]
pub(crate) fn write_pair(
    first_key: &str,
    first: &str,
    second_key: &str,
    second: &str,
) -> (r: Result<String, String>)
    requires
        first_key@ != second_key@,
    ensures
        r is Ok,
        r->Ok_0@ == json_pair(first_key@, first@, second_key@, second@),
        json_text_member(r->Ok_0@, first_key@) == Some(first@),
        json_text_member(r->Ok_0@, second_key@) == Some(second@),
{
    let mut object = serde_json::Map::new();
    object.insert(first_key.to_string(), serde_json::Value::String(first.to_string()));
    object.insert(second_key.to_string(), serde_json::Value::String(second.to_string()));
    serde_json::to_string_pretty(&object).map_err(|err| err.to_string())
}

} // verus!
