//! Variables files: merging, parsing and generation from a document.

use openapi_to_hurl::document::{Components, Document};
use openapi_to_hurl::variable_files::{CustomVariables, VariableFile, VariableFiles};

fn empty_components() -> Components {
    Components { schemas: vec![], parameters: vec![], request_bodies: vec![], responses: vec![] }
}

#[test]
fn variables_file_merge_with_differently_named_files_doesnt_merge() {
    let file1 = VariableFile::from_string("test1".to_string(), "hello=world1".to_string());
    let file2 = VariableFile::from_string("test2".to_string(), "hello=world2".to_string());

    assert_eq!("hello=world1".to_string(), file1.merge(file2).get_contents());
}

#[test]
fn variables_file_merge_with_same_key_overrides_old_key_value() {
    let file1 =
        VariableFile::from_string("test".to_string(), "hello=world1\ntest1=test1".to_string());
    let file2 = VariableFile::from_string("test".to_string(), "hello=world2".to_string());

    assert_eq!("test1=test1\nhello=world2".to_string(), file1.merge(file2).get_contents());
}

#[test]
fn variables_file_merge_with_new_key_appends_key() {
    let file1 =
        VariableFile::from_string("test".to_string(), "hello=world1\ntest1=test1".to_string());
    let file2 = VariableFile::from_string("test".to_string(), "hey=world2".to_string());

    assert_eq!(
        "hello=world1\ntest1=test1\nhey=world2".to_string(),
        file1.merge(file2).get_contents()
    );
}

#[test]
fn variables_file_merge_with_no_new() {
    let file1 =
        VariableFile::from_string("test".to_string(), "hello=world1\ntest1=test1".to_string());
    let file2 = VariableFile::empty("test".to_string());

    assert_eq!("hello=world1\ntest1=test1".to_string(), file1.merge(file2).get_contents());
}

#[test]
fn variables_file_merge_with_no_old() {
    let file1 = VariableFile::empty("test".to_string());
    let file2 =
        VariableFile::from_string("test".to_string(), "hello=world1\ntest1=test1".to_string());

    assert_eq!("hello=world1\ntest1=test1".to_string(), file1.merge(file2).get_contents());
}

#[test]
fn variable_files_variables_file_from_spec() {
    let doc = Document {
        servers: vec!["http://petstore.swagger.io/v1".to_string()],
        paths: vec![],
        components: empty_components(),
    };
    let expected = VariableFiles {
        files: vec![VariableFile {
            name: "petstore.swagger.io_v1".to_string(),
            key_vals: vec![
                ("host".to_string(), "http://petstore.swagger.io/v1".to_string()),
                ("Authorization".to_string(), "Bearer test".to_string()),
            ],
        }],
    };

    assert_eq!(
        expected,
        VariableFiles::from_spec(
            &doc,
            CustomVariables {
                headers: vec![("Authorization".to_string(), "Bearer test".to_string())]
            }
        )
    );
}

#[test]
fn variable_file_variables_file_from_spec() {
    let doc = Document {
        servers: vec!["http://petstore.swagger.io/v1".to_string()],
        paths: vec![],
        components: empty_components(),
    };
    let expected = VariableFiles {
        files: vec![VariableFile {
            name: "petstore.swagger.io_v1".to_string(),
            key_vals: vec![("host".to_string(), "http://petstore.swagger.io/v1".to_string())],
        }],
    };

    assert_eq!(expected, VariableFiles::from_spec(&doc, CustomVariables { headers: vec![] }));
}

#[test]
fn variables_file_from_string_splits_lines_and_pairs() {
    let file = VariableFile::from_string("test".to_string(), "a=1\nb=2=3\nc".to_string());
    assert_eq!(
        vec![
            ("a".to_string(), "1".to_string()),
            ("b".to_string(), "2".to_string()),
            ("c".to_string(), "".to_string()),
        ],
        file.key_vals
    );
}
