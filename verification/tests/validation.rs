//! Response validation choices and the merge semantics of composed schemas.

use openapi_to_hurl::asserts::{
    assert_query_matches_predicate, assert_status_less_than, PredicateFunc, QueryExpr,
};
use openapi_to_hurl::cli::ResponseValidationChoice;
use openapi_to_hurl::document::{
    Components, Document, MediaTypeObject, Operation, PathItem, ResponseObject, ResponseOrRef,
};
use openapi_to_hurl::errors::{OperationError, SchemaError};
use openapi_to_hurl::example::parse_json_from_schema;
use openapi_to_hurl::hurl_files::{to_file, HttpMethod, HurlFiles};
use openapi_to_hurl::literal::render_json_compact;
use openapi_to_hurl::response::StatusMatch;
use openapi_to_hurl::schema::{Schema, SchemaKind, SchemaOrRef};
use openapi_to_hurl::settings::Settings;

fn empty_doc() -> Document {
    Document {
        servers: vec![],
        paths: vec![],
        components: Components {
            schemas: vec![],
            parameters: vec![],
            request_bodies: vec![],
            responses: vec![],
        },
    }
}

fn inline(s: Schema) -> SchemaOrRef {
    SchemaOrRef::Inline(Box::new(s))
}

fn operation_with_json_200(schema: Schema) -> Operation {
    Operation {
        operation_id: Some("listPets".to_string()),
        tags: vec![],
        parameters: vec![],
        request_body: None,
        responses: vec![(
            "200".to_string(),
            ResponseOrRef::Item(ResponseObject {
                content: vec![(
                    "application/json".to_string(),
                    MediaTypeObject { schema: Some(inline(schema)) },
                )],
            }),
        )],
    }
}

#[test]
fn non_error_validation_asks_only_for_a_status_below_400() {
    let settings = Settings {
        validate_response: ResponseValidationChoice::NonErrorCode,
        ..Settings::default()
    };
    let operation = Operation {
        operation_id: None,
        tags: vec![],
        parameters: vec![],
        request_body: None,
        responses: vec![],
    };

    let (file, _) = to_file(
        &"/pets".to_string(),
        &empty_doc(),
        &operation,
        &HttpMethod::GET,
        &settings,
        100,
    )
    .unwrap();

    let response = file.response.unwrap();
    assert_eq!(StatusMatch::Any, response.status);
    assert_eq!(vec![assert_status_less_than(400)], response.asserts);
}

#[test]
fn body_validation_walks_the_success_response_schema() {
    let settings =
        Settings { validate_response: ResponseValidationChoice::Body, ..Settings::default() };
    let operation = operation_with_json_200(Schema {
        kind: SchemaKind::Boolean,
        ..Schema::default()
    });

    let (file, _) = to_file(
        &"/pets".to_string(),
        &empty_doc(),
        &operation,
        &HttpMethod::GET,
        &settings,
        100,
    )
    .unwrap();

    let response = file.response.unwrap();
    assert_eq!(
        vec![
            assert_status_less_than(400),
            assert_query_matches_predicate(
                &QueryExpr::Jsonpath("$".to_string()),
                PredicateFunc::IsBoolean,
            ),
        ],
        response.asserts
    );
}

#[test]
fn body_validation_without_a_success_response_keeps_the_status_check() {
    let settings =
        Settings { validate_response: ResponseValidationChoice::Body, ..Settings::default() };
    let operation = Operation {
        operation_id: None,
        tags: vec![],
        parameters: vec![],
        request_body: None,
        responses: vec![],
    };

    let (file, _) = to_file(
        &"/pets".to_string(),
        &empty_doc(),
        &operation,
        &HttpMethod::GET,
        &settings,
        100,
    )
    .unwrap();

    assert_eq!(vec![assert_status_less_than(400)], file.response.unwrap().asserts);
}

#[test]
fn write_only_response_schema_contributes_nothing() {
    let settings =
        Settings { validate_response: ResponseValidationChoice::Body, ..Settings::default() };
    let operation = operation_with_json_200(Schema {
        kind: SchemaKind::Str,
        write_only: true,
        ..Schema::default()
    });

    let (file, _) = to_file(
        &"/pets".to_string(),
        &empty_doc(),
        &operation,
        &HttpMethod::GET,
        &settings,
        100,
    )
    .unwrap();

    assert_eq!(vec![assert_status_less_than(400)], file.response.unwrap().asserts);
}

#[test]
fn all_of_merge_lets_a_later_branch_overwrite_an_earlier_property() {
    let schema = Schema {
        all_of: vec![
            inline(Schema {
                properties: vec![(
                    "a".to_string(),
                    inline(Schema { kind: SchemaKind::Str, ..Schema::default() }),
                )],
                ..Schema::default()
            }),
            inline(Schema {
                properties: vec![(
                    "a".to_string(),
                    inline(Schema { kind: SchemaKind::Integer, ..Schema::default() }),
                )],
                ..Schema::default()
            }),
        ],
        ..Schema::default()
    };

    let value = parse_json_from_schema(&schema, &empty_doc(), 100).unwrap().unwrap();
    assert_eq!("{\"a\":3}", render_json_compact(&value));
}

#[test]
fn all_of_merge_lets_the_nodes_own_property_overwrite_the_branches() {
    let schema = Schema {
        all_of: vec![inline(Schema {
            properties: vec![(
                "a".to_string(),
                inline(Schema { kind: SchemaKind::Str, ..Schema::default() }),
            )],
            ..Schema::default()
        })],
        properties: vec![(
            "a".to_string(),
            inline(Schema { kind: SchemaKind::Boolean, ..Schema::default() }),
        )],
        ..Schema::default()
    };

    let value = parse_json_from_schema(&schema, &empty_doc(), 100).unwrap().unwrap();
    assert_eq!("{\"a\":true}", render_json_compact(&value));
}

#[test]
fn operation_error_message_names_the_operation_and_the_pointer() {
    let err = OperationError::Ref(
        Some("listPets".to_string()),
        SchemaError::BrokenReference("#/components/schemas/Missing".to_string()),
    );
    assert_eq!(
        "listPets: broken reference: #/components/schemas/Missing",
        err.message()
    );
}

#[test]
fn from_oai_path_collects_files_per_declared_method() {
    let item = PathItem {
        get: Some(operation_with_json_200(Schema::default())),
        put: None,
        post: Some(Operation {
            operation_id: None,
            tags: vec![],
            parameters: vec![],
            request_body: None,
            responses: vec![],
        }),
        patch: None,
        options: None,
        delete: None,
        head: None,
    };
    let path_name = "/pets".to_string();

    let files = HurlFiles::from_oai_path((&path_name, &item), &empty_doc(), &Settings::default());
    assert!(files.errors.is_empty());
    assert_eq!(2, files.hurl_files.len());
    assert_eq!("GET", files.hurl_files[0].method);
    assert_eq!("POST", files.hurl_files[1].method);
    assert_eq!("listPets", files.hurl_files[0].filename());
    assert_eq!("POST", files.hurl_files[1].filename());
}

#[test]
fn operation_selection_filters_by_tag_and_id() {
    let tagged = Operation {
        operation_id: Some("listPets".to_string()),
        tags: vec!["petsRead".to_string()],
        parameters: vec![],
        request_body: None,
        responses: vec![],
    };
    let item = PathItem {
        get: Some(tagged),
        put: None,
        post: None,
        patch: None,
        options: None,
        delete: None,
        head: None,
    };
    let path_name = "/pets".to_string();

    let other_tag =
        Settings { tags: Some(vec!["orders".to_string()]), ..Settings::default() };
    let files = HurlFiles::from_oai_path((&path_name, &item), &empty_doc(), &other_tag);
    assert!(files.hurl_files.is_empty());

    let matching = Settings {
        tags: Some(vec!["petsRead".to_string()]),
        operation_id_selection: Some(vec!["listPets".to_string()]),
        ..Settings::default()
    };
    let files = HurlFiles::from_oai_path((&path_name, &item), &empty_doc(), &matching);
    assert_eq!(1, files.hurl_files.len());
}
