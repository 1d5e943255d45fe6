//! The resolved configuration of one run, derived from the bare argument
//! record.

use vstd::prelude::*;
use crate::cli::{
    Cli, CliContentType, ErrorHandling, Formatting, LogLevel, QueryParamChoice,
    ResponseValidationChoice, VariablesUpdateStrategy,
};
use crate::content::ContentType;
use crate::variable_files::CustomVariables;

verus! {

/// Where generated files go: the console, or a directory.
#[derive(Debug, PartialEq, Eq)]
pub enum OutStrategy {
    Console,
    Files(String),
}

impl Default for OutStrategy {
    /// The console by default.
    fn default() -> (r: OutStrategy)
        ensures
            r == OutStrategy::Console,
    {
        OutStrategy::Console
    }
}

/// The configuration of one run.
#[derive(Debug, PartialEq, Eq)]
pub struct Settings {
    pub input: Option<String>,
    pub out: OutStrategy,
    pub validate_response: ResponseValidationChoice,
    pub query_params_choice: QueryParamChoice,
    pub custom_variables: CustomVariables,
    pub variables_update_strategy: VariablesUpdateStrategy,
    pub operation_id_selection: Option<Vec<String>>,
    pub tags: Option<Vec<String>>,
    pub formatting: Formatting,
    pub content_type: ContentType,
    pub log_level: LogLevel,
    pub quiet: bool,
    pub error_handling: ErrorHandling,
}

impl Default for Settings {
    /// No input path, console output, no validation, first query parameter
    /// filled in, no extra variables, merged variables files, formatted
    /// request bodies, JSON content, informational logging, and stopping on
    /// errors.
    fn default() -> (r: Settings)
        ensures
            r.input is None,
            r.out == OutStrategy::Console,
            r.validate_response == ResponseValidationChoice::No,
            r.query_params_choice == QueryParamChoice::Defaults,
            r.custom_variables.headers@.len() == 0,
            r.variables_update_strategy == VariablesUpdateStrategy::Merge,
            r.operation_id_selection is None,
            r.tags is None,
            r.formatting == Formatting::RequestBodies,
            r.content_type == ContentType::Json,
            r.log_level == LogLevel::Info,
            !r.quiet,
            r.error_handling == ErrorHandling::Terminate,
    {
        Settings {
            input: None,
            out: OutStrategy::Console,
            validate_response: ResponseValidationChoice::No,
            query_params_choice: QueryParamChoice::Defaults,
            custom_variables: CustomVariables { headers: Vec::new() },
            variables_update_strategy: VariablesUpdateStrategy::Merge,
            operation_id_selection: None,
            tags: None,
            formatting: Formatting::RequestBodies,
            content_type: ContentType::Json,
            log_level: LogLevel::Info,
            quiet: false,
            error_handling: ErrorHandling::Terminate,
        }
    }
}

/// The content kind a command-line choice stands for.
pub open spec fn spec_content_of_cli(c: CliContentType) -> ContentType {
    match c {
        CliContentType::Text => ContentType::Text,
        CliContentType::Json => ContentType::Json,
    }
}

impl Settings {
    /// The configuration the argument record stands for: each field carried
    /// over, a given output directory turning output to files.
    pub fn from_cli(cli: Cli) -> (r: Settings)
        ensures
            r.input == cli.input,
            (match cli.out_dir {
                Some(p) => r.out matches OutStrategy::Files(q) && q == p,
                None => r.out == OutStrategy::Console,
            }),
            r.validate_response == cli.validation,
            r.query_params_choice == cli.query_params,
            r.custom_variables.headers == cli.header_vars,
            r.variables_update_strategy == cli.variables_file_update,
            r.operation_id_selection == cli.operation_id,
            r.tags == cli.tag,
            r.formatting == cli.formatting,
            r.content_type == spec_content_of_cli(cli.content_type),
            r.log_level == cli.log_level,
            r.quiet == cli.quiet,
            r.error_handling == cli.error_handling,
    {
        Settings {
            input: cli.input,
            out: match cli.out_dir {
                Some(p) => OutStrategy::Files(p),
                None => OutStrategy::Console,
            },
            validate_response: cli.validation,
            query_params_choice: cli.query_params,
            custom_variables: CustomVariables { headers: cli.header_vars },
            variables_update_strategy: cli.variables_file_update,
            operation_id_selection: cli.operation_id,
            tags: cli.tag,
            formatting: cli.formatting,
            content_type: match cli.content_type {
                CliContentType::Text => ContentType::Text,
                CliContentType::Json => ContentType::Json,
            },
            log_level: cli.log_level,
            quiet: cli.quiet,
            error_handling: cli.error_handling,
        }
    }
}

} // verus!
