//! The user-facing choices: what to validate, which parameters to fill in,
//! how to format output, and how to handle recoverable errors, together with
//! the bare argument record that an argument parser fills in.

use vstd::prelude::*;
use crate::text::{chars_of, find_char, slice_chars, spec_find_char, string_from_chars};

verus! {

/// How the response should be validated.
#[derive(Clone, Copy, Debug, PartialEq, Eq, Structural)]
pub enum ResponseValidationChoice {
    /// No validation.
    No,
    /// The status code is below 400.
    NonErrorCode,
    /// The structure and types of the response body.  No validation is
    /// produced for union types (nullable, `oneOf`, `anyOf`).
    Body,
    /// The response body, with every property treated as required.
    BodyWithOptionals,
}

impl Default for ResponseValidationChoice {
    /// No validation by default.
    fn default() -> (r: ResponseValidationChoice)
        ensures
            r == ResponseValidationChoice::No,
    {
        ResponseValidationChoice::No
    }
}

/// Whether, and how, query parameters are filled in.
#[derive(Clone, Copy, Debug, PartialEq, Eq, Structural)]
pub enum QueryParamChoice {
    /// No query parameters.
    NoParams,
    /// The first declared query parameter, with its example or a default by
    /// type.
    Defaults,
    /// Every declared query parameter, with its example or a default by
    /// type.
    All,
}

impl Default for QueryParamChoice {
    /// The first query parameter by default.
    fn default() -> (r: QueryParamChoice)
        ensures
            r == QueryParamChoice::Defaults,
    {
        QueryParamChoice::Defaults
    }
}

/// How the variables file is updated.
#[derive(Clone, Copy, Debug, PartialEq, Eq, Structural)]
pub enum VariablesUpdateStrategy {
    /// Overwrites the whole variables file.
    Overwrite,
    /// Merges new variables with old ones.
    Merge,
}

impl Default for VariablesUpdateStrategy {
    /// Merging by default.
    fn default() -> (r: VariablesUpdateStrategy)
        ensures
            r == VariablesUpdateStrategy::Merge,
    {
        VariablesUpdateStrategy::Merge
    }
}

/// How much formatting the output receives.
#[derive(Clone, Copy, Debug, PartialEq, Eq, Structural)]
pub enum Formatting {
    /// Nothing beyond what syntax demands.
    NoFormatting,
    /// Indented request bodies.
    RequestBodies,
}

impl Default for Formatting {
    /// Request bodies are formatted by default.
    fn default() -> (r: Formatting)
        ensures
            r == Formatting::RequestBodies,
    {
        Formatting::RequestBodies
    }
}

/// The logging verbosity.
#[derive(Clone, Copy, Debug, PartialEq, Eq, Structural)]
pub enum LogLevel {
    Error,
    Warn,
    Info,
    Debug,
    Trace,
}

impl Default for LogLevel {
    /// Informational logging by default.
    fn default() -> (r: LogLevel)
        ensures
            r == LogLevel::Info,
    {
        LogLevel::Info
    }
}

/// The content kind requested on the command line.
#[derive(Clone, Copy, Debug, PartialEq, Eq, Structural)]
pub enum CliContentType {
    Text,
    Json,
}

impl Default for CliContentType {
    /// JSON by default.
    fn default() -> (r: CliContentType)
        ensures
            r == CliContentType::Json,
    {
        CliContentType::Json
    }
}

/// How recoverable errors found in the document are handled.
#[derive(Clone, Copy, Debug, PartialEq, Eq, Structural)]
pub enum ErrorHandling {
    /// Log each error and keep going.
    Log,
    /// Stop on the first batch of errors.
    Terminate,
}

impl Default for ErrorHandling {
    /// Stopping by default.
    fn default() -> (r: ErrorHandling)
        ensures
            r == ErrorHandling::Terminate,
    {
        ErrorHandling::Terminate
    }
}

/// The bare argument record: what the argument parser hands over, as plain
/// values.
#[derive(Debug, PartialEq, Eq)]
pub struct Cli {
    pub input: Option<String>,
    pub out_dir: Option<String>,
    pub validation: ResponseValidationChoice,
    pub header_vars: Vec<(String, String)>,
    pub query_params: QueryParamChoice,
    pub operation_id: Option<Vec<String>>,
    pub tag: Option<Vec<String>>,
    pub variables_file_update: VariablesUpdateStrategy,
    pub formatting: Formatting,
    pub content_type: CliContentType,
    pub log_level: LogLevel,
    pub quiet: bool,
    pub error_handling: ErrorHandling,
}

/// The message for a pair with no separator.
pub open spec fn spec_no_separator_message(s: Seq<char>) -> Seq<char> {
    "invalid KEY=value: no `=` found in `"@ + s + "`"@
}

/// Splits a `KEY=value` pair at its first `=`: the key before it, the whole
/// rest after it.  A string without `=` is rejected with a message naming
/// it.
pub fn parse_key_val(s: &String) -> (r: Result<(String, String), String>)
    ensures
        spec_find_char(s@, '=', 0) < s@.len() ==> (r matches Ok(kv) && kv.0@ == s@.subrange(
            0,
            spec_find_char(s@, '=', 0),
        ) && kv.1@ == s@.subrange(spec_find_char(s@, '=', 0) + 1, s@.len() as int)),
        spec_find_char(s@, '=', 0) == s@.len() ==> (r matches Err(m) && m@
            == spec_no_separator_message(s@)),
{
    let cs = chars_of(s.as_str());
    let p = find_char(&cs, '=', 0);
    proof {
        lemma_find_char_range(s@, '=', 0);
    }
    if p == cs.len() {
        let m = "invalid KEY=value: no `=` found in `".to_owned();
        let m = m.concat(s.as_str());
        Err(m.concat("`"))
    } else {
        let key = slice_chars(&cs, 0, p);
        let val = slice_chars(&cs, p + 1, cs.len());
        Ok((string_from_chars(&key), string_from_chars(&val)))
    }
}

/// The position found for a character lies between `from` and the length.
proof fn lemma_find_char_range(s: Seq<char>, c: char, from: int)
    requires
        0 <= from <= s.len(),
    ensures
        from <= spec_find_char(s, c, from) <= s.len(),
    decreases s.len() - from,
{
    if from < s.len() && s[from] != c {
        lemma_find_char_range(s, c, from + 1);
    }
}

} // verus!
