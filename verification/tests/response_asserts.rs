//! Assertion synthesis for JSON response bodies.

use openapi_to_hurl::asserts::{
    assert_query_matches_predicate, assert_status_less_than, parse_string_asserts, Assertion,
    CompareOp, PredicateFunc, PredicateNumber, QueryExpr,
};
use openapi_to_hurl::document::{Components, Document};
use openapi_to_hurl::json_asserts::parse_json_response_body_asserts;
use openapi_to_hurl::response::HandleUnionsBy;
use openapi_to_hurl::schema::{Schema, SchemaKind, SchemaOrRef};

fn empty_doc() -> Document {
    Document {
        servers: vec![],
        paths: vec![],
        components: Components {
            schemas: vec![],
            parameters: vec![],
            request_bodies: vec![],
            responses: vec![],
        },
    }
}

fn root_query() -> QueryExpr {
    QueryExpr::Jsonpath("$".to_string())
}

#[test]
fn parse_json_response_body_with_no_schema_type_returns_empty_asserts() {
    let schema = Schema::default();
    let result = parse_json_response_body_asserts(
        &schema,
        &empty_doc(),
        HandleUnionsBy::IgnoringThem,
        100,
    );
    let expected: Vec<Assertion> = vec![assert_status_less_than(400)];

    let (asserts, warnings) = result.unwrap();
    assert_eq!(expected, asserts);
    assert!(warnings.is_empty());
}

#[test]
fn parse_json_response_body_with_bool_schema_type_returns_bool_asserts() {
    let schema = Schema { kind: SchemaKind::Boolean, ..Schema::default() };
    let result = parse_json_response_body_asserts(
        &schema,
        &empty_doc(),
        HandleUnionsBy::IgnoringThem,
        100,
    );

    let expected: Vec<Assertion> = vec![
        assert_status_less_than(400),
        assert_query_matches_predicate(&root_query(), PredicateFunc::IsBoolean),
    ];

    assert_eq!(expected, result.unwrap().0);
}

#[test]
fn parse_json_response_body_with_number_returns_number_asserts() {
    let schema = Schema {
        kind: SchemaKind::Number,
        maximum: Some("3.0".to_string()),
        exclusive_maximum: true,
        minimum: Some("1.0".to_string()),
        exclusive_minimum: false,
        ..Schema::default()
    };

    let result = parse_json_response_body_asserts(
        &schema,
        &empty_doc(),
        HandleUnionsBy::IgnoringThem,
        100,
    );

    let expected: Vec<Assertion> = vec![
        assert_status_less_than(400),
        assert_query_matches_predicate(&root_query(), PredicateFunc::IsFloat),
        assert_query_matches_predicate(
            &root_query(),
            PredicateFunc::Compare(
                CompareOp::GreaterOrEqual,
                PredicateNumber::Float("1.0".to_string()),
            ),
        ),
        assert_query_matches_predicate(
            &root_query(),
            PredicateFunc::Compare(CompareOp::Less, PredicateNumber::Float("3.0".to_string())),
        ),
    ];

    assert_eq!(expected, result.unwrap().0);
}

#[test]
fn parse_json_response_body_with_int_returns_int_asserts() {
    let schema = Schema {
        kind: SchemaKind::Integer,
        maximum: Some("3".to_string()),
        exclusive_maximum: true,
        minimum: Some("1".to_string()),
        exclusive_minimum: false,
        ..Schema::default()
    };

    let result = parse_json_response_body_asserts(
        &schema,
        &empty_doc(),
        HandleUnionsBy::IgnoringThem,
        100,
    );

    let expected: Vec<Assertion> = vec![
        assert_status_less_than(400),
        assert_query_matches_predicate(&root_query(), PredicateFunc::IsInteger),
        assert_query_matches_predicate(
            &root_query(),
            PredicateFunc::Compare(CompareOp::GreaterOrEqual, PredicateNumber::Int(1)),
        ),
        assert_query_matches_predicate(
            &root_query(),
            PredicateFunc::Compare(CompareOp::Less, PredicateNumber::Int(3)),
        ),
    ];

    assert_eq!(expected, result.unwrap().0);
}

#[test]
fn object_asserts_skip_optional_properties() {
    let schema = Schema {
        kind: SchemaKind::Object,
        properties: vec![
            (
                "id".to_string(),
                SchemaOrRef::Inline(Box::new(Schema {
                    kind: SchemaKind::Integer,
                    ..Schema::default()
                })),
            ),
            (
                "name".to_string(),
                SchemaOrRef::Inline(Box::new(Schema {
                    kind: SchemaKind::Str,
                    ..Schema::default()
                })),
            ),
        ],
        required: vec!["id".to_string()],
        ..Schema::default()
    };

    let (asserts, _) = parse_json_response_body_asserts(
        &schema,
        &empty_doc(),
        HandleUnionsBy::IgnoringThem,
        100,
    )
    .unwrap();

    let expected: Vec<Assertion> = vec![
        assert_status_less_than(400),
        assert_query_matches_predicate(&root_query(), PredicateFunc::IsCollection),
        assert_query_matches_predicate(
            &QueryExpr::Jsonpath("$.id".to_string()),
            PredicateFunc::IsInteger,
        ),
    ];
    assert_eq!(expected, asserts);
}

#[test]
fn object_asserts_cover_optional_properties_when_treated_as_required() {
    let schema = Schema {
        kind: SchemaKind::Object,
        properties: vec![
            (
                "id".to_string(),
                SchemaOrRef::Inline(Box::new(Schema {
                    kind: SchemaKind::Integer,
                    ..Schema::default()
                })),
            ),
            (
                "name".to_string(),
                SchemaOrRef::Inline(Box::new(Schema {
                    kind: SchemaKind::Str,
                    ..Schema::default()
                })),
            ),
        ],
        required: vec!["id".to_string()],
        ..Schema::default()
    };

    let (asserts, _) = parse_json_response_body_asserts(
        &schema,
        &empty_doc(),
        HandleUnionsBy::TreatingOptionalsAsRequired,
        100,
    )
    .unwrap();

    let expected: Vec<Assertion> = vec![
        assert_status_less_than(400),
        assert_query_matches_predicate(&root_query(), PredicateFunc::IsCollection),
        assert_query_matches_predicate(
            &QueryExpr::Jsonpath("$.id".to_string()),
            PredicateFunc::IsInteger,
        ),
        assert_query_matches_predicate(
            &QueryExpr::Jsonpath("$.name".to_string()),
            PredicateFunc::IsString,
        ),
    ];
    assert_eq!(expected, asserts);
}

#[test]
fn one_of_at_root_yields_only_the_status_assert() {
    let schema = Schema {
        one_of: vec![
            SchemaOrRef::Inline(Box::new(Schema { kind: SchemaKind::Str, ..Schema::default() })),
            SchemaOrRef::Inline(Box::new(Schema {
                kind: SchemaKind::Integer,
                ..Schema::default()
            })),
        ],
        ..Schema::default()
    };

    let (asserts, _) = parse_json_response_body_asserts(
        &schema,
        &empty_doc(),
        HandleUnionsBy::IgnoringThem,
        100,
    )
    .unwrap();

    assert_eq!(vec![assert_status_less_than(400)], asserts);
}

fn string_schema_asserts(min: u64, exclusive: bool) -> Vec<Assertion> {
    let schema = Schema {
        kind: SchemaKind::Str,
        min_length: Some(min),
        exclusive_minimum: exclusive,
        ..Schema::default()
    };
    parse_string_asserts(&schema, &QueryExpr::Body)
}

#[test]
fn string_min_length_asserts_use_length_regexes() {
    let plain = string_schema_asserts(4, false);
    assert_eq!(
        plain[1],
        Assertion {
            query: QueryExpr::Body,
            predicate: PredicateFunc::Matches("^.{0,4}$".to_string()),
            comment: Some("assert min length".to_string()),
        }
    );

    let exclusive = string_schema_asserts(4, true);
    assert_eq!(
        exclusive[1],
        Assertion {
            query: QueryExpr::Body,
            predicate: PredicateFunc::Matches("^.{5}".to_string()),
            comment: Some("assert min length".to_string()),
        }
    );
}

#[test]
fn array_count_bound_too_large_is_dropped_with_a_warning() {
    let schema = Schema {
        kind: SchemaKind::Array,
        min_items: Some(u64::MAX),
        max_items: Some(2),
        ..Schema::default()
    };

    let (asserts, warnings) = parse_json_response_body_asserts(
        &schema,
        &empty_doc(),
        HandleUnionsBy::IgnoringThem,
        100,
    )
    .unwrap();

    let expected: Vec<Assertion> = vec![
        assert_status_less_than(400),
        assert_query_matches_predicate(&root_query(), PredicateFunc::IsCollection),
        assert_query_matches_predicate(
            &root_query(),
            PredicateFunc::CountCompare(CompareOp::LessOrEqual, 2),
        ),
    ];
    assert_eq!(expected, asserts);
    assert_eq!(1, warnings.len());
}

#[test]
fn nested_required_objects_receive_assertions_along_their_paths() {
    let schema = Schema {
        kind: SchemaKind::Object,
        properties: vec![(
            "inner".to_string(),
            SchemaOrRef::Inline(Box::new(Schema {
                kind: SchemaKind::Object,
                properties: vec![(
                    "test".to_string(),
                    SchemaOrRef::Inline(Box::new(Schema {
                        kind: SchemaKind::Str,
                        ..Schema::default()
                    })),
                )],
                required: vec!["test".to_string()],
                ..Schema::default()
            })),
        )],
        required: vec!["inner".to_string()],
        ..Schema::default()
    };

    let (asserts, _) = parse_json_response_body_asserts(
        &schema,
        &empty_doc(),
        HandleUnionsBy::IgnoringThem,
        100,
    )
    .unwrap();

    let expected: Vec<Assertion> = vec![
        assert_status_less_than(400),
        assert_query_matches_predicate(&root_query(), PredicateFunc::IsCollection),
        assert_query_matches_predicate(
            &QueryExpr::Jsonpath("$.inner".to_string()),
            PredicateFunc::IsCollection,
        ),
        assert_query_matches_predicate(
            &QueryExpr::Jsonpath("$.inner.test".to_string()),
            PredicateFunc::IsString,
        ),
    ];
    assert_eq!(expected, asserts);
}
