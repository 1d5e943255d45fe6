//! The document model: paths, operations, parameters, bodies, responses and
//! the component tables, together with the reference resolver.  Resolution is
//! a pure lookup against the component tables; a chain of schema references
//! is followed under a depth allowance, so a reference cycle surfaces as an
//! error instead of recursing without bound.

use vstd::prelude::*;
use crate::errors::{SchemaError, SchemaErrorV};
use crate::schema::{Schema, SchemaOrRef};
use crate::text::{chars_of, matches_at, slice_chars, string_from_chars};

verus! {

/// How many schema references one resolution may follow before it reports a
/// cycle.
pub const DEPTH_LIMIT: u64 = 10000;

/// A path or query parameter.  Its schema, where given, is inline.
#[derive(Debug, PartialEq, Eq)]
pub struct Parameter {
    pub name: String,
    pub location: String,
    pub schema: Option<Box<Schema>>,
}

/// A parameter, or a pointer to one among the components.
#[derive(Debug, PartialEq, Eq)]
pub enum ParamOrRef {
    Item(Parameter),
    Reference(String),
}

/// One declared media type of a body.
#[derive(Debug, PartialEq, Eq)]
pub struct MediaTypeObject {
    pub schema: Option<SchemaOrRef>,
}

/// A request body: its declared media types in declaration order.
#[derive(Debug, PartialEq, Eq)]
pub struct RequestBodyObject {
    pub content: Vec<(String, MediaTypeObject)>,
}

/// A request body, or a pointer to one among the components.
#[derive(Debug, PartialEq, Eq)]
pub enum BodyOrRef {
    Item(RequestBodyObject),
    Reference(String),
}

/// A response: its declared media types in declaration order.
#[derive(Debug, PartialEq, Eq)]
pub struct ResponseObject {
    pub content: Vec<(String, MediaTypeObject)>,
}

/// A response, or a pointer to one among the components.
#[derive(Debug, PartialEq, Eq)]
pub enum ResponseOrRef {
    Item(ResponseObject),
    Reference(String),
}

/// One operation of a path.
#[derive(Debug, PartialEq, Eq)]
pub struct Operation {
    pub operation_id: Option<String>,
    pub tags: Vec<String>,
    pub parameters: Vec<ParamOrRef>,
    pub request_body: Option<BodyOrRef>,
    pub responses: Vec<(String, ResponseOrRef)>,
}

/// The operations declared under one path template.
#[derive(Debug, PartialEq, Eq)]
pub struct PathItem {
    pub get: Option<Operation>,
    pub put: Option<Operation>,
    pub post: Option<Operation>,
    pub patch: Option<Operation>,
    pub options: Option<Operation>,
    pub delete: Option<Operation>,
    pub head: Option<Operation>,
}

/// The component tables that references point into.
#[derive(Debug, PartialEq, Eq)]
pub struct Components {
    pub schemas: Vec<(String, SchemaOrRef)>,
    pub parameters: Vec<(String, Parameter)>,
    pub request_bodies: Vec<(String, RequestBodyObject)>,
    pub responses: Vec<(String, ResponseObject)>,
}

/// The whole document: server URLs, paths in declaration order, and the
/// component tables.
#[derive(Debug, PartialEq, Eq)]
pub struct Document {
    pub servers: Vec<String>,
    pub paths: Vec<(String, PathItem)>,
    pub components: Components,
}

/// The first entry of `l` named `name`.
pub open spec fn spec_lookup<T>(l: Seq<(String, T)>, name: Seq<char>) -> Option<T>
    decreases l.len(),
{
    if l.len() == 0 {
        None
    } else if l[0].0@ == name {
        Some(l[0].1)
    } else {
        spec_lookup(l.drop_first(), name)
    }
}

/// Finds the first entry of `l` named `name`.
pub fn lookup_by_name<'a, T>(l: &'a Vec<(String, T)>, name: &String) -> (r: Option<&'a T>)
    ensures
        (match spec_lookup(l@, name@) {
            Some(v) => r matches Some(p) && *p == v,
            None => r is None,
        }),
{
    let mut i: usize = 0;
    proof {
        assert(l@.subrange(0, l@.len() as int) =~= l@);
    }
    while i < l.len()
        invariant
            i <= l@.len(),
            spec_lookup(l@, name@) == spec_lookup(l@.subrange(i as int, l@.len() as int), name@),
        decreases l@.len() - i,
    {
        let ghost suffix = l@.subrange(i as int, l@.len() as int);
        if l[i].0 == *name {
            proof {
                assert(suffix[0] == l@[i as int]);
            }
            return Some(&l[i].1);
        }
        i = i + 1;
        proof {
            assert(suffix.drop_first() =~= l@.subrange(i as int, l@.len() as int));
            assert(suffix[0] == l@[i - 1]);
        }
    }
    proof {
        assert(l@.subrange(l@.len() as int, l@.len() as int) =~= Seq::<(String, T)>::empty());
    }
    None
}

/// The component name of a pointer under `prefix`, where the pointer starts
/// with it.
pub open spec fn spec_ref_target(p: Seq<char>, prefix: Seq<char>) -> Option<Seq<char>> {
    if p.len() >= prefix.len() && p.subrange(0, prefix.len() as int) == prefix {
        Some(p.subrange(prefix.len() as int, p.len() as int))
    } else {
        None
    }
}

/// Splits a pointer into the component name after `prefix`, if the pointer
/// carries that prefix.
fn ref_target(p: &String, prefix: &str) -> (r: Option<String>)
    ensures
        (match spec_ref_target(p@, prefix@) {
            Some(name) => r matches Some(s) && s@ == name,
            None => r is None,
        }),
{
    let pc = chars_of(p.as_str());
    let prefc = chars_of(prefix);
    if prefc.len() <= pc.len() && matches_at(&pc, &prefc, 0) {
        let namec = slice_chars(&pc, prefc.len(), pc.len());
        Some(string_from_chars(&namec))
    } else {
        None
    }
}

/// The schema a schema-or-reference resolves to: the inline node itself, or
/// the component the pointer chain leads to within the depth allowance.
pub open spec fn spec_resolve_schema(doc: Document, sref: SchemaOrRef, fuel: nat) -> Result<
    Schema,
    SchemaErrorV,
>
    decreases fuel,
{
    match sref {
        SchemaOrRef::Inline(b) => Ok(*b),
        SchemaOrRef::Reference(p) => {
            if fuel == 0 {
                Err(SchemaErrorV::ReferenceCycle(p@))
            } else {
                match spec_ref_target(p@, "#/components/schemas/"@) {
                    None => Err(SchemaErrorV::BrokenReference(p@)),
                    Some(name) => match spec_lookup(doc.components.schemas@, name) {
                        None => Err(SchemaErrorV::BrokenReference(p@)),
                        Some(next) => spec_resolve_schema(doc, next, (fuel - 1) as nat),
                    },
                }
            }
        },
    }
}

/// Resolves a schema-or-reference against the document.
pub fn resolve_schema<'a>(doc: &'a Document, sref: &'a SchemaOrRef, fuel: u64) -> (r: Result<
    &'a Schema,
    SchemaError,
>)
    ensures
        (match spec_resolve_schema(*doc, *sref, fuel as nat) {
            Ok(s) => r matches Ok(p) && *p == s,
            Err(e) => r matches Err(x) && x@ == e,
        }),
    decreases fuel,
{
    match sref {
        SchemaOrRef::Inline(b) => Ok(&**b),
        SchemaOrRef::Reference(p) => {
            if fuel == 0 {
                Err(SchemaError::ReferenceCycle(p.clone()))
            } else {
                match ref_target(p, "#/components/schemas/") {
                    None => Err(SchemaError::BrokenReference(p.clone())),
                    Some(name) => match lookup_by_name(&doc.components.schemas, &name) {
                        None => Err(SchemaError::BrokenReference(p.clone())),
                        Some(next) => resolve_schema(doc, next, fuel - 1),
                    },
                }
            }
        },
    }
}

/// The schema an optional schema-or-reference resolves to, where one is
/// given.
pub open spec fn spec_parse_schema(
    schema: Option<SchemaOrRef>,
    doc: Document,
    fuel: nat,
) -> Result<Option<Schema>, SchemaErrorV> {
    match schema {
        None => Ok(None),
        Some(sref) => match spec_resolve_schema(doc, sref, fuel) {
            Ok(s) => Ok(Some(s)),
            Err(e) => Err(e),
        },
    }
}

/// Resolves an optional schema-or-reference against the document: no schema
/// resolves to no schema, a broken or cyclic pointer is an error.
pub fn parse_schema<'a>(schema: &'a Option<SchemaOrRef>, doc: &'a Document, fuel: u64) -> (r:
    Result<Option<&'a Schema>, SchemaError>)
    ensures
        (match spec_parse_schema(*schema, *doc, fuel as nat) {
            Ok(Some(s)) => r matches Ok(o) && o matches Some(p) && *p == s,
            Ok(None) => r matches Ok(o) && o is None,
            Err(e) => r matches Err(x) && x@ == e,
        }),
{
    match schema {
        None => Ok(None),
        Some(sref) => match resolve_schema(doc, sref, fuel) {
            Ok(s) => Ok(Some(s)),
            Err(e) => Err(e),
        },
    }
}

/// The parameter a parameter-or-reference resolves to.  A component
/// parameter is itself concrete, so one step suffices.
pub open spec fn spec_resolve_parameter(doc: Document, p: ParamOrRef) -> Result<
    Parameter,
    SchemaErrorV,
> {
    match p {
        ParamOrRef::Item(v) => Ok(v),
        ParamOrRef::Reference(path) => match spec_ref_target(
            path@,
            "#/components/parameters/"@,
        ) {
            None => Err(SchemaErrorV::BrokenReference(path@)),
            Some(name) => match spec_lookup(doc.components.parameters@, name) {
                None => Err(SchemaErrorV::BrokenReference(path@)),
                Some(v) => Ok(v),
            },
        },
    }
}

/// Resolves a parameter-or-reference against the document.
pub fn resolve_parameter<'a>(doc: &'a Document, p: &'a ParamOrRef) -> (r: Result<
    &'a Parameter,
    SchemaError,
>)
    ensures
        (match spec_resolve_parameter(*doc, *p) {
            Ok(v) => r matches Ok(q) && *q == v,
            Err(e) => r matches Err(x) && x@ == e,
        }),
{
    match p {
        ParamOrRef::Item(v) => Ok(v),
        ParamOrRef::Reference(path) => match ref_target(path, "#/components/parameters/") {
            None => Err(SchemaError::BrokenReference(path.clone())),
            Some(name) => match lookup_by_name(&doc.components.parameters, &name) {
                None => Err(SchemaError::BrokenReference(path.clone())),
                Some(v) => Ok(v),
            },
        },
    }
}

/// The request body a body-or-reference resolves to.
pub open spec fn spec_resolve_request_body(doc: Document, b: BodyOrRef) -> Result<
    RequestBodyObject,
    SchemaErrorV,
> {
    match b {
        BodyOrRef::Item(v) => Ok(v),
        BodyOrRef::Reference(path) => match spec_ref_target(
            path@,
            "#/components/requestBodies/"@,
        ) {
            None => Err(SchemaErrorV::BrokenReference(path@)),
            Some(name) => match spec_lookup(doc.components.request_bodies@, name) {
                None => Err(SchemaErrorV::BrokenReference(path@)),
                Some(v) => Ok(v),
            },
        },
    }
}

/// Resolves a request-body-or-reference against the document.
pub fn resolve_request_body<'a>(doc: &'a Document, b: &'a BodyOrRef) -> (r: Result<
    &'a RequestBodyObject,
    SchemaError,
>)
    ensures
        (match spec_resolve_request_body(*doc, *b) {
            Ok(v) => r matches Ok(q) && *q == v,
            Err(e) => r matches Err(x) && x@ == e,
        }),
{
    match b {
        BodyOrRef::Item(v) => Ok(v),
        BodyOrRef::Reference(path) => match ref_target(path, "#/components/requestBodies/") {
            None => Err(SchemaError::BrokenReference(path.clone())),
            Some(name) => match lookup_by_name(&doc.components.request_bodies, &name) {
                None => Err(SchemaError::BrokenReference(path.clone())),
                Some(v) => Ok(v),
            },
        },
    }
}

/// The response a response-or-reference resolves to.
pub open spec fn spec_resolve_response(doc: Document, b: ResponseOrRef) -> Result<
    ResponseObject,
    SchemaErrorV,
> {
    match b {
        ResponseOrRef::Item(v) => Ok(v),
        ResponseOrRef::Reference(path) => match spec_ref_target(
            path@,
            "#/components/responses/"@,
        ) {
            None => Err(SchemaErrorV::BrokenReference(path@)),
            Some(name) => match spec_lookup(doc.components.responses@, name) {
                None => Err(SchemaErrorV::BrokenReference(path@)),
                Some(v) => Ok(v),
            },
        },
    }
}

/// Resolves a response-or-reference against the document.
pub fn resolve_response<'a>(doc: &'a Document, b: &'a ResponseOrRef) -> (r: Result<
    &'a ResponseObject,
    SchemaError,
>)
    ensures
        (match spec_resolve_response(*doc, *b) {
            Ok(v) => r matches Ok(q) && *q == v,
            Err(e) => r matches Err(x) && x@ == e,
        }),
{
    match b {
        ResponseOrRef::Item(v) => Ok(v),
        ResponseOrRef::Reference(path) => match ref_target(path, "#/components/responses/") {
            None => Err(SchemaError::BrokenReference(path.clone())),
            Some(name) => match lookup_by_name(&doc.components.responses, &name) {
                None => Err(SchemaError::BrokenReference(path.clone())),
                Some(v) => Ok(v),
            },
        },
    }
}

} // verus!
