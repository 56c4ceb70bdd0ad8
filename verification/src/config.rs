//! The configuration document: a JSON object with three required string
//! fields naming the window's start, the window's end, and the directory to
//! scan. Unknown fields are ignored; a missing or non-string field is a
//! shape error; text that is not JSON at all is a parse error. Reading the
//! document off disk is the caller's business: this module takes its text.

use vstd::prelude::*;
use crate::error::ReportError;

verus! {

/// The run's configuration, immutable once loaded.
#[derive(Debug)]
pub struct Config {
    pub env_start_date: String,
    pub env_end_date: String,
    pub directory_to_watch: String,
}

/// Whether serde_json's grammar accepts the document text.
pub uninterp spec fn json_accepts(s: Seq<char>) -> bool;

/// The string member under the given key of the document's root object:
/// `Some` exactly when the document parses, its root is an object, the key
/// is present and its value is a JSON string. A function of document and
/// key alone; a repeated key keeps its last occurrence, as serde_json's
/// object building does.
pub uninterp spec fn json_string_member(doc: Seq<char>, key: Seq<char>) -> Option<Seq<char>>;

/// Relies on serde_json::from_str::<Value>: acceptance is deterministic in
/// the document text alone (the crate's recursion limit makes overly deep
/// documents an error, never a crash).
#[verifier::external_body]
fn json_document_accepted(doc: &str) -> (r: bool)
    ensures
        r == json_accepts(doc@),
{
    serde_json::from_str::<serde_json::Value>(doc).is_ok()
}

/// Relies on serde_json::from_str::<Value>, Value::get and Value::as_str:
/// together they extract the named string member, a function of document
/// and key alone, and return None exactly when no such member exists.
#[verifier::external_body]
fn json_string_member_of(doc: &str, key: &str) -> (r: Option<String>)
    ensures
        r is Some <==> json_string_member(doc@, key@) is Some,
        r matches Some(s) ==> json_string_member(doc@, key@) == Some(s@),
{
    match serde_json::from_str::<serde_json::Value>(doc) {
        Ok(v) => match v.get(key) {
            Some(member) => member.as_str().map(|s| s.to_owned()),
            None => None,
        },
        Err(_) => None,
    }
}

/// Assembles the configuration from the three extracted fields. Succeeds
/// exactly when all three are present; otherwise the shape error names the
/// first missing or non-string field.
pub fn config_from_fields(start: Option<String>, end: Option<String>, dir: Option<String>) -> (r:
    Result<Config, ReportError>)
    ensures
        r is Ok <==> start is Some && end is Some && dir is Some,
        r matches Ok(c) ==> start matches Some(v) && c.env_start_date@ == v@,
        r matches Ok(c) ==> end matches Some(v) && c.env_end_date@ == v@,
        r matches Ok(c) ==> dir matches Some(v) && c.directory_to_watch@ == v@,
        start is None ==> (r matches Err(ReportError::ConfigShape(f)) && f@
            == "env_start_date"@),
        start is Some && end is None ==> (r matches Err(ReportError::ConfigShape(f)) && f@
            == "env_end_date"@),
        start is Some && end is Some && dir is None ==> (r matches Err(
            ReportError::ConfigShape(f),
        ) && f@ == "directory_to_watch"@),
        r is Err ==> r matches Err(ReportError::ConfigShape(_)),
{
    let env_start_date = match start {
        Some(v) => v,
        None => { return Err(ReportError::ConfigShape(String::from_str("env_start_date"))) },
    };
    let env_end_date = match end {
        Some(v) => v,
        None => { return Err(ReportError::ConfigShape(String::from_str("env_end_date"))) },
    };
    let directory_to_watch = match dir {
        Some(v) => v,
        None => { return Err(ReportError::ConfigShape(String::from_str("directory_to_watch"))) },
    };
    Ok(Config { env_start_date, env_end_date, directory_to_watch })
}

/// Parses the configuration document's text. Succeeds exactly when the
/// text is valid JSON whose root object holds the three required string
/// fields, and then returns their contents; the parse error comes exactly
/// when serde_json refuses the text, and the shape error names the first
/// missing or non-string field.
pub fn parse_config(text: &str) -> (r: Result<Config, ReportError>)
    ensures
        r is Ok <==> json_accepts(text@) && json_string_member(text@, "env_start_date"@) is Some
            && json_string_member(text@, "env_end_date"@) is Some && json_string_member(
            text@,
            "directory_to_watch"@,
        ) is Some,
        r matches Ok(c) ==> json_string_member(text@, "env_start_date"@) == Some(
            c.env_start_date@,
        ),
        r matches Ok(c) ==> json_string_member(text@, "env_end_date"@) == Some(c.env_end_date@),
        r matches Ok(c) ==> json_string_member(text@, "directory_to_watch"@) == Some(
            c.directory_to_watch@,
        ),
        r matches Err(ReportError::ConfigParse) <==> !json_accepts(text@),
        json_accepts(text@) && json_string_member(text@, "env_start_date"@) is None ==> (
        r matches Err(ReportError::ConfigShape(f)) && f@ == "env_start_date"@),
        json_accepts(text@) && json_string_member(text@, "env_start_date"@) is Some
            && json_string_member(text@, "env_end_date"@) is None ==> (r matches Err(
            ReportError::ConfigShape(f),
        ) && f@ == "env_end_date"@),
        json_accepts(text@) && json_string_member(text@, "env_start_date"@) is Some
            && json_string_member(text@, "env_end_date"@) is Some && json_string_member(
            text@,
            "directory_to_watch"@,
        ) is None ==> (r matches Err(ReportError::ConfigShape(f)) && f@
            == "directory_to_watch"@),
        r is Err ==> r matches Err(ReportError::ConfigParse) || r matches Err(
            ReportError::ConfigShape(_),
        ),
{
    if !json_document_accepted(text) {
        return Err(ReportError::ConfigParse);
    }
    let start = json_string_member_of(text, "env_start_date");
    let end = json_string_member_of(text, "env_end_date");
    let dir = json_string_member_of(text, "directory_to_watch");
    config_from_fields(start, end, dir)
}

} // verus!
