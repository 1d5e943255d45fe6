//! Generation of Hurl test artifacts from a resolved OpenAPI-style document.
//!
//! The crate models the document (schemas, operations, parameters, bodies and
//! responses) as plain data, and derives from it example request bodies,
//! response assertions and substituted request URLs.  The synthesis engine is
//! verified: every public function carries a contract that pins its result
//! down over a mathematical model of the data.

pub mod asserts;
pub mod cli;
pub mod content;
pub mod document;
pub mod errors;
pub mod example;
pub mod hurl_files;
pub mod json_asserts;
pub mod literal;
pub mod num;
pub mod request_body;
pub mod response;
pub mod schema;
pub mod settings;
pub mod text;
pub mod variable_files;
