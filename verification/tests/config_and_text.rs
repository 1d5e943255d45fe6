//! Configuration mapping, content-kind matching and the small text
//! utilities.

use openapi_to_hurl::asserts::{predicate_integer_number, PredicateNumber};
use openapi_to_hurl::cli::{
    parse_key_val, Cli, CliContentType, ErrorHandling, Formatting, LogLevel, QueryParamChoice,
    ResponseValidationChoice, VariablesUpdateStrategy,
};
use openapi_to_hurl::content::ContentType;
use openapi_to_hurl::request_body::{build_json_list_space, rem_first_and_last};
use openapi_to_hurl::settings::{OutStrategy, Settings};

#[test]
fn content_type_matches_its_marker_substring() {
    assert!(ContentType::Json.matches_string(&"application/json".to_string()));
    assert!(!ContentType::Json.matches_string(&"text/plain".to_string()));
    assert!(ContentType::Text.matches_string(&"text/plain".to_string()));
}

#[test]
fn content_type_support_and_parsing() {
    assert!(ContentType::is_supported(&"application/json".to_string()));
    assert!(ContentType::is_supported(&"text/csv".to_string()));
    assert!(!ContentType::is_supported(&"application/xml".to_string()));

    assert_eq!(Ok(ContentType::Text), ContentType::from_string(&"text/plain".to_string()));
    assert_eq!(Ok(ContentType::Json), ContentType::from_string(&"application/json".to_string()));
    assert_eq!(
        Err("Unsupported content type".to_string()),
        ContentType::from_string(&"application/xml".to_string())
    );
}

#[test]
fn content_type_lists_its_supported_markers() {
    assert_eq!(vec!["text".to_string(), "json".to_string()], ContentType::supported_types());
    assert_eq!("json", ContentType::Json.to_str());
    assert_eq!("text", ContentType::Text.to_str());
}

#[test]
fn parse_key_val_splits_at_the_first_separator() {
    assert_eq!(
        Ok(("KEY".to_string(), "a=b".to_string())),
        parse_key_val(&"KEY=a=b".to_string())
    );
    assert_eq!(
        Err("invalid KEY=value: no `=` found in `plain`".to_string()),
        parse_key_val(&"plain".to_string())
    );
}

#[test]
fn settings_from_cli_carries_every_field_over() {
    let cli = Cli {
        input: Some("spec.json".to_string()),
        out_dir: Some("out".to_string()),
        validation: ResponseValidationChoice::Body,
        header_vars: vec![("Authorization".to_string(), "Bearer test".to_string())],
        query_params: QueryParamChoice::All,
        operation_id: Some(vec!["listPets".to_string()]),
        tag: None,
        variables_file_update: VariablesUpdateStrategy::Overwrite,
        formatting: Formatting::NoFormatting,
        content_type: CliContentType::Text,
        log_level: LogLevel::Debug,
        quiet: true,
        error_handling: ErrorHandling::Log,
    };

    let settings = Settings::from_cli(cli);
    assert_eq!(Some("spec.json".to_string()), settings.input);
    assert_eq!(OutStrategy::Files("out".to_string()), settings.out);
    assert_eq!(ResponseValidationChoice::Body, settings.validate_response);
    assert_eq!(QueryParamChoice::All, settings.query_params_choice);
    assert_eq!(
        vec![("Authorization".to_string(), "Bearer test".to_string())],
        settings.custom_variables.headers
    );
    assert_eq!(VariablesUpdateStrategy::Overwrite, settings.variables_update_strategy);
    assert_eq!(Some(vec!["listPets".to_string()]), settings.operation_id_selection);
    assert_eq!(None, settings.tags);
    assert_eq!(Formatting::NoFormatting, settings.formatting);
    assert_eq!(ContentType::Text, settings.content_type);
    assert_eq!(LogLevel::Debug, settings.log_level);
    assert!(settings.quiet);
    assert_eq!(ErrorHandling::Log, settings.error_handling);
}

#[test]
fn settings_defaults_match_the_documented_choices() {
    let settings = Settings::default();
    assert_eq!(None, settings.input);
    assert_eq!(OutStrategy::Console, settings.out);
    assert_eq!(ResponseValidationChoice::No, settings.validate_response);
    assert_eq!(QueryParamChoice::Defaults, settings.query_params_choice);
    assert_eq!(ContentType::Json, settings.content_type);
    assert_eq!(Formatting::RequestBodies, settings.formatting);
    assert_eq!(ErrorHandling::Terminate, settings.error_handling);
}

#[test]
fn numeric_bound_text_renders_as_integer_only_where_it_reads_as_one() {
    assert_eq!(PredicateNumber::Int(3), predicate_integer_number(&"3".to_string()));
    assert_eq!(PredicateNumber::Int(-12), predicate_integer_number(&"-12".to_string()));
    assert_eq!(
        PredicateNumber::Int(i64::MAX),
        predicate_integer_number(&"9223372036854775807".to_string())
    );
    assert_eq!(
        PredicateNumber::Float("9223372036854775808".to_string()),
        predicate_integer_number(&"9223372036854775808".to_string())
    );
    assert_eq!(
        PredicateNumber::Float("3.0".to_string()),
        predicate_integer_number(&"3.0".to_string())
    );
    assert_eq!(
        PredicateNumber::Float("99999999999999999999999".to_string()),
        predicate_integer_number(&"99999999999999999999999".to_string())
    );
}

#[test]
fn rem_first_and_last_strips_one_character_each_side() {
    assert_eq!("abc", rem_first_and_last("\"abc\"".to_string()));
    assert_eq!("", rem_first_and_last("x".to_string()));
    assert_eq!("", rem_first_and_last("".to_string()));
}

#[test]
fn json_list_space_follows_the_formatting_policy() {
    assert_eq!("", build_json_list_space(&Formatting::NoFormatting));
    assert_eq!(" ", build_json_list_space(&Formatting::RequestBodies));
}
