//! Example synthesis, body rendering and URL substitution.

use openapi_to_hurl::cli::{Formatting, QueryParamChoice};
use openapi_to_hurl::content::ContentType;
use openapi_to_hurl::document::{
    Components, Document, MediaTypeObject, Operation, Parameter, ParamOrRef, PathItem,
    RequestBodyObject,
};
use openapi_to_hurl::errors::{SchemaError, Warning};
use openapi_to_hurl::example::parse_json_from_schema;
use openapi_to_hurl::hurl_files::{files_from_document, to_file, HttpMethod};
use openapi_to_hurl::literal::{render_json_compact, render_json_pretty, LiteralValue};
use openapi_to_hurl::request_body::{from_spec_body, BodyValue, SpecBodySettings};
use openapi_to_hurl::schema::{Schema, SchemaKind, SchemaOrRef};
use openapi_to_hurl::settings::Settings;

fn empty_doc() -> Document {
    Document {
        servers: vec![],
        paths: vec![],
        components: Components {
            schemas: vec![],
            parameters: vec![],
            request_bodies: vec![],
            responses: vec![],
        },
    }
}

fn inline(s: Schema) -> SchemaOrRef {
    SchemaOrRef::Inline(Box::new(s))
}

fn int_schema() -> Schema {
    Schema { kind: SchemaKind::Integer, ..Schema::default() }
}

fn string_schema() -> Schema {
    Schema { kind: SchemaKind::Str, ..Schema::default() }
}

#[test]
fn example_for_object_with_required_and_optional_properties() {
    let schema = Schema {
        kind: SchemaKind::Object,
        properties: vec![
            ("id".to_string(), inline(int_schema())),
            ("name".to_string(), inline(string_schema())),
        ],
        required: vec!["id".to_string()],
        ..Schema::default()
    };

    let value = parse_json_from_schema(&schema, &empty_doc(), 100).unwrap().unwrap();
    assert_eq!("{\"id\":3,\"name\":\"string\"}", render_json_compact(&value));
}

#[test]
fn example_synthesis_is_deterministic() {
    let schema = Schema {
        kind: SchemaKind::Object,
        properties: vec![
            ("id".to_string(), inline(int_schema())),
            ("tags".to_string(), inline(Schema {
                kind: SchemaKind::Array,
                items: Some(Box::new(inline(string_schema()))),
                ..Schema::default()
            })),
        ],
        ..Schema::default()
    };

    let first = parse_json_from_schema(&schema, &empty_doc(), 100).unwrap();
    let second = parse_json_from_schema(&schema, &empty_doc(), 100).unwrap();
    assert_eq!(first, second);
}

#[test]
fn example_merges_all_of_branches_into_one_object() {
    let schema = Schema {
        all_of: vec![
            inline(Schema {
                properties: vec![("a".to_string(), inline(string_schema()))],
                ..Schema::default()
            }),
            inline(Schema {
                properties: vec![("b".to_string(), inline(int_schema()))],
                ..Schema::default()
            }),
        ],
        ..Schema::default()
    };

    let value = parse_json_from_schema(&schema, &empty_doc(), 100).unwrap().unwrap();
    assert_eq!("{\"a\":\"string\",\"b\":3}", render_json_compact(&value));
}

#[test]
fn example_defaults_by_kind() {
    let doc = empty_doc();
    let boolean = parse_json_from_schema(
        &Schema { kind: SchemaKind::Boolean, ..Schema::default() },
        &doc,
        100,
    )
    .unwrap()
    .unwrap();
    assert_eq!(LiteralValue::Bool(true), boolean);

    let number = parse_json_from_schema(
        &Schema { kind: SchemaKind::Number, ..Schema::default() },
        &doc,
        100,
    )
    .unwrap()
    .unwrap();
    assert_eq!(LiteralValue::Number("3.3".to_string()), number);

    let unspecified = parse_json_from_schema(&Schema::default(), &doc, 100).unwrap().unwrap();
    assert_eq!(LiteralValue::Null, unspecified);
}

#[test]
fn example_uses_declared_example_and_enum_first() {
    let doc = empty_doc();
    let with_example = Schema {
        kind: SchemaKind::Integer,
        example: Some(LiteralValue::Number("22".to_string())),
        ..Schema::default()
    };
    assert_eq!(
        LiteralValue::Number("22".to_string()),
        parse_json_from_schema(&with_example, &doc, 100).unwrap().unwrap()
    );

    let with_enum = Schema {
        kind: SchemaKind::Str,
        enum_values: vec![
            LiteralValue::Text("available".to_string()),
            LiteralValue::Text("sold".to_string()),
        ],
        ..Schema::default()
    };
    assert_eq!(
        LiteralValue::Text("available".to_string()),
        parse_json_from_schema(&with_enum, &doc, 100).unwrap().unwrap()
    );
}

#[test]
fn example_omits_read_only_properties() {
    let schema = Schema {
        kind: SchemaKind::Object,
        properties: vec![
            ("id".to_string(), inline(Schema { read_only: true, ..int_schema() })),
            ("name".to_string(), inline(string_schema())),
        ],
        ..Schema::default()
    };

    let value = parse_json_from_schema(&schema, &empty_doc(), 100).unwrap().unwrap();
    assert_eq!("{\"name\":\"string\"}", render_json_compact(&value));
}

#[test]
fn example_resolves_component_references() {
    let doc = Document {
        servers: vec![],
        paths: vec![],
        components: Components {
            schemas: vec![("Pet".to_string(), inline(int_schema()))],
            parameters: vec![],
            request_bodies: vec![],
            responses: vec![],
        },
    };
    let schema = Schema {
        kind: SchemaKind::Object,
        properties: vec![(
            "pet".to_string(),
            SchemaOrRef::Reference("#/components/schemas/Pet".to_string()),
        )],
        ..Schema::default()
    };

    let value = parse_json_from_schema(&schema, &doc, 100).unwrap().unwrap();
    assert_eq!("{\"pet\":3}", render_json_compact(&value));
}

#[test]
fn example_reports_a_broken_reference() {
    let schema = Schema {
        kind: SchemaKind::Object,
        properties: vec![(
            "pet".to_string(),
            SchemaOrRef::Reference("#/components/schemas/Missing".to_string()),
        )],
        ..Schema::default()
    };

    let err = parse_json_from_schema(&schema, &empty_doc(), 100).unwrap_err();
    assert_eq!(
        SchemaError::BrokenReference("#/components/schemas/Missing".to_string()),
        err
    );
}

#[test]
fn example_reports_a_reference_cycle() {
    let doc = Document {
        servers: vec![],
        paths: vec![],
        components: Components {
            schemas: vec![(
                "Loop".to_string(),
                SchemaOrRef::Reference("#/components/schemas/Loop".to_string()),
            )],
            parameters: vec![],
            request_bodies: vec![],
            responses: vec![],
        },
    };
    let schema = Schema {
        kind: SchemaKind::Object,
        properties: vec![(
            "x".to_string(),
            SchemaOrRef::Reference("#/components/schemas/Loop".to_string()),
        )],
        ..Schema::default()
    };

    let err = parse_json_from_schema(&schema, &doc, 50).unwrap_err();
    assert!(matches!(err, SchemaError::ReferenceCycle(_)));
}

#[test]
fn pretty_rendering_matches_the_indented_form() {
    let value = LiteralValue::Object(vec![
        ("id".to_string(), LiteralValue::Number("3".to_string())),
        (
            "tags".to_string(),
            LiteralValue::Array(vec![
                LiteralValue::Text("a".to_string()),
                LiteralValue::Text("b".to_string()),
            ]),
        ),
        ("empty".to_string(), LiteralValue::Array(vec![])),
    ]);

    let expected = "{\n  \"id\": 3,\n  \"tags\": [\n    \"a\",\n    \"b\"\n  ],\n  \"empty\": []\n}";
    assert_eq!(expected, render_json_pretty(&value));
}

#[test]
fn compact_rendering_escapes_strings() {
    let value = LiteralValue::Text("a\"b\\c\nd".to_string());
    assert_eq!("\"a\\\"b\\\\c\\nd\"", render_json_compact(&value));
}

#[test]
fn path_template_with_integer_parameter_renders_its_default() {
    let operation = Operation {
        operation_id: Some("showPetById".to_string()),
        tags: vec![],
        parameters: vec![ParamOrRef::Item(Parameter {
            name: "petId".to_string(),
            location: "path".to_string(),
            schema: Some(Box::new(int_schema())),
        })],
        request_body: None,
        responses: vec![],
    };

    let (file, _) = to_file(
        &"/pets/{petId}".to_string(),
        &empty_doc(),
        &operation,
        &HttpMethod::GET,
        &Settings::default(),
        100,
    )
    .unwrap();

    assert_eq!("{{host}}/pets/3", file.request.url);
}

#[test]
fn path_parameter_example_wins_over_the_default() {
    let operation = Operation {
        operation_id: None,
        tags: vec![],
        parameters: vec![ParamOrRef::Item(Parameter {
            name: "petId".to_string(),
            location: "path".to_string(),
            schema: Some(Box::new(Schema {
                example: Some(LiteralValue::Text("id_11".to_string())),
                ..string_schema()
            })),
        })],
        request_body: None,
        responses: vec![],
    };

    let (file, _) = to_file(
        &"/pets/{petId}".to_string(),
        &empty_doc(),
        &operation,
        &HttpMethod::POST,
        &Settings::default(),
        100,
    )
    .unwrap();

    assert_eq!("{{host}}/pets/id_11", file.request.url);
}

fn query_operation() -> Operation {
    Operation {
        operation_id: None,
        tags: vec![],
        parameters: vec![
            ParamOrRef::Item(Parameter {
                name: "limit".to_string(),
                location: "query".to_string(),
                schema: Some(Box::new(int_schema())),
            }),
            ParamOrRef::Item(Parameter {
                name: "offset".to_string(),
                location: "query".to_string(),
                schema: Some(Box::new(Schema {
                    example: Some(LiteralValue::Number("1".to_string())),
                    ..int_schema()
                })),
            }),
        ],
        request_body: None,
        responses: vec![],
    }
}

#[test]
fn query_parameter_choices_keep_none_one_or_all() {
    let doc = empty_doc();
    let path = "/pets".to_string();

    let none = Settings { query_params_choice: QueryParamChoice::NoParams, ..Settings::default() };
    let (file, _) =
        to_file(&path, &doc, &query_operation(), &HttpMethod::GET, &none, 100).unwrap();
    assert_eq!("{{host}}/pets", file.request.url);

    let first =
        Settings { query_params_choice: QueryParamChoice::Defaults, ..Settings::default() };
    let (file, _) =
        to_file(&path, &doc, &query_operation(), &HttpMethod::GET, &first, 100).unwrap();
    assert_eq!("{{host}}/pets?limit=3", file.request.url);

    let all = Settings { query_params_choice: QueryParamChoice::All, ..Settings::default() };
    let (file, _) =
        to_file(&path, &doc, &query_operation(), &HttpMethod::GET, &all, 100).unwrap();
    assert_eq!("{{host}}/pets?limit=3&offset=1", file.request.url);
}

#[test]
fn request_body_renders_json_under_the_formatting_policy() {
    let body = RequestBodyObject {
        content: vec![(
            "application/json".to_string(),
            MediaTypeObject {
                schema: Some(inline(Schema {
                    kind: SchemaKind::Object,
                    properties: vec![("id".to_string(), inline(int_schema()))],
                    ..Schema::default()
                })),
            },
        )],
    };
    let settings = SpecBodySettings {
        formatting: Formatting::NoFormatting,
        content_type: ContentType::Json,
    };

    let (value, warnings) =
        from_spec_body(&body, &empty_doc(), "op".to_string(), &settings, 100).unwrap();
    assert_eq!(Some(BodyValue::Json("{\"id\":3}".to_string())), value);
    assert!(warnings.is_empty());

    let pretty = SpecBodySettings {
        formatting: Formatting::RequestBodies,
        content_type: ContentType::Json,
    };
    let (value, _) =
        from_spec_body(&body, &empty_doc(), "op".to_string(), &pretty, 100).unwrap();
    assert_eq!(Some(BodyValue::Json("{\n  \"id\": 3\n}".to_string())), value);
}

#[test]
fn request_body_falls_back_to_a_supported_content_type_with_a_warning() {
    let body = RequestBodyObject {
        content: vec![(
            "application/json".to_string(),
            MediaTypeObject { schema: Some(inline(int_schema())) },
        )],
    };
    let settings = SpecBodySettings {
        formatting: Formatting::NoFormatting,
        content_type: ContentType::Text,
    };

    let (value, warnings) =
        from_spec_body(&body, &empty_doc(), "addPet".to_string(), &settings, 100).unwrap();
    assert_eq!(Some(BodyValue::Json("3".to_string())), value);
    assert_eq!(
        vec![Warning::ContentTypeFallback {
            operation_id: "addPet".to_string(),
            requested: "text".to_string(),
            used: "application/json".to_string(),
        }],
        warnings
    );
}

#[test]
fn request_body_with_no_supported_content_type_is_empty_with_a_warning() {
    let body = RequestBodyObject {
        content: vec![(
            "application/xml".to_string(),
            MediaTypeObject { schema: Some(inline(int_schema())) },
        )],
    };
    let settings = SpecBodySettings {
        formatting: Formatting::NoFormatting,
        content_type: ContentType::Json,
    };

    let (value, warnings) =
        from_spec_body(&body, &empty_doc(), "addPet".to_string(), &settings, 100).unwrap();
    assert_eq!(None, value);
    assert_eq!(
        vec![Warning::UnsupportedContentTypes { operation_id: "addPet".to_string() }],
        warnings
    );
}

#[test]
fn plain_text_body_strips_the_quoting_of_the_example() {
    let body = RequestBodyObject {
        content: vec![(
            "text/plain".to_string(),
            MediaTypeObject {
                schema: Some(inline(Schema {
                    kind: SchemaKind::Str,
                    example: Some(LiteralValue::Text("10,\"doggie\"".to_string())),
                    ..Schema::default()
                })),
            },
        )],
    };
    let settings = SpecBodySettings {
        formatting: Formatting::NoFormatting,
        content_type: ContentType::Text,
    };

    let (value, _) =
        from_spec_body(&body, &empty_doc(), "addPet".to_string(), &settings, 100).unwrap();
    assert_eq!(Some(BodyValue::Text("10,\\\"doggie\\\"".to_string())), value);
}

#[test]
fn files_from_document_groups_by_path_and_names_files() {
    let operation = Operation {
        operation_id: Some("listPets".to_string()),
        tags: vec![],
        parameters: vec![],
        request_body: None,
        responses: vec![],
    };
    let doc = Document {
        servers: vec![],
        paths: vec![(
            "/pets".to_string(),
            PathItem {
                get: Some(operation),
                put: None,
                post: None,
                patch: None,
                options: None,
                delete: None,
                head: None,
            },
        )],
        components: Components {
            schemas: vec![],
            parameters: vec![],
            request_bodies: vec![],
            responses: vec![],
        },
    };

    let (groups, warnings) = files_from_document(&doc, &Settings::default()).unwrap();
    assert!(warnings.is_empty());
    assert_eq!(1, groups.len());
    assert_eq!("_pets", groups[0].0);
    assert_eq!(1, groups[0].1.len());
    assert_eq!("listPets", groups[0].1[0].filename());
    assert_eq!("GET", groups[0].1[0].method);
    assert_eq!("{{host}}/pets", groups[0].1[0].file.request.url);
    assert!(groups[0].1[0].file.response.is_none());
}
