//! JSON encoding of argument lists, through `serde_json`.

use vstd::prelude::*;
use crate::error::FdepError;

verus! {

#[verifier::external_type_specification]
#[verifier::external_body]
pub struct ExJsonError(serde_json::Error);

/// The JSON text that `serde_json` writes for an array of strings.
pub uninterp spec fn json_string_array(items: Seq<Seq<char>>) -> Seq<char>;

/// What `serde_json` reads from `text` as an array of strings, if it reads one.
pub uninterp spec fn parse_json_string_array(text: Seq<char>) -> Option<Seq<Seq<char>>>;

/// Calls `serde_json::to_string` on a list of strings. Claimed: a text it returns
/// is the JSON array of those strings, and `serde_json` reads that text back as
/// the same strings (its writer escapes `"`, `\` and control characters, and its
/// reader undoes every such escape). It never fails on a list of strings: its
/// documentation says it fails only where the value's `Serialize` decides to
/// fail or the value holds a map with non-string keys, and it writes into an
/// in-memory `Vec`, which accepts every write.
#[verifier::external_body]
fn json_to_string(items: &Vec<String>) -> (r: Result<String, serde_json::Error>)
    ensures
        r is Ok,
        r matches Ok(s) ==> s@ == json_string_array(items.deep_view()),
        r matches Ok(s) ==> parse_json_string_array(s@) == Some(items.deep_view()),
{
    serde_json::to_string(items)
}

/// Calls `serde_json::from_str::<Vec<String>>`. Claimed: it succeeds exactly when
/// the text reads as an array of strings, and then returns those strings.
#[verifier::external_body]
fn json_from_str(text: &str) -> (r: Result<Vec<String>, serde_json::Error>)
    ensures
        r is Ok <==> parse_json_string_array(text@) is Some,
        r matches Ok(v) ==> parse_json_string_array(text@) == Some(v.deep_view()),
{
    serde_json::from_str::<Vec<String>>(text)
}

/// Encodes the arguments meant for fdep as a JSON array of strings.
pub fn encode_arg_list(args: &Vec<String>) -> (r: Result<String, FdepError>)
    ensures
        r is Ok,
        r matches Ok(s) ==> s@ == json_string_array(args.deep_view()),
        r matches Ok(s) ==> parse_json_string_array(s@) == Some(args.deep_view()),
        r matches Err(e) ==> e == FdepError::SerializeArgs,
{
    match json_to_string(args) {
        Ok(s) => Ok(s),
        Err(_) => Err(FdepError::SerializeArgs),
    }
}

/// Decodes a JSON array of strings.
pub fn decode_arg_list(text: &str) -> (r: Result<Vec<String>, FdepError>)
    ensures
        r is Ok <==> parse_json_string_array(text@) is Some,
        r matches Ok(v) ==> parse_json_string_array(text@) == Some(v.deep_view()),
        r matches Err(e) ==> e == FdepError::DeserializeArgs,
{
    match json_from_str(text) {
        Ok(v) => Ok(v),
        Err(_) => Err(FdepError::DeserializeArgs),
    }
}

} // verus!
