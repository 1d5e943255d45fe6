//! Response validation: the union-handling policy, the bare status check,
//! and the full response validation that picks the operation's success
//! response, negotiates a media type, and walks its schema into assertions.

use vstd::prelude::*;
use crate::asserts::{
    assert_seq_model, assert_status_less_than, lemma_assert_seq_model_push, parse_string_asserts,
    spec_status_less_than, spec_string_asserts, AssertV, Assertion, QueryExpr, QueryV,
};
use crate::content::{
    select_content, spec_marker, spec_select_content, spec_supported, ContentType,
};
use crate::document::{
    resolve_response, spec_lookup, spec_resolve_response, spec_resolve_schema, lookup_by_name,
    resolve_schema, Document, Operation, ResponseOrRef,
};
use crate::errors::{warn_seq_model, SchemaError, SchemaErrorV, WarnV, Warning};
use crate::json_asserts::{parse_json_response_body_asserts, spec_json_response_asserts};
use crate::schema::Schema;
use crate::text::str_contains;

verus! {

/// Whether object properties absent from `required` still receive nested
/// assertions.
#[derive(Clone, Copy, Debug, PartialEq, Eq, Structural)]
pub enum HandleUnionsBy {
    IgnoringThem,
    TreatingOptionalsAsRequired,
}

/// What status line a validated response expects: any status, with the
/// assertions deciding.
#[derive(Clone, Copy, Debug, PartialEq, Eq, Structural)]
pub enum StatusMatch {
    Any,
}

/// A validated response: the expected status and the assertion list.
#[derive(Debug, PartialEq, Eq)]
pub struct ResponseModel {
    pub status: StatusMatch,
    pub asserts: Vec<Assertion>,
}

/// The response that only requires a non-error status: any status line,
/// with the single assertion that the status is below 400.
pub fn validate_response_not_error() -> (r: ResponseModel)
    ensures
        r.status == StatusMatch::Any,
        assert_seq_model(r.asserts@) == seq![spec_status_less_than(400)],
{
    let mut asserts: Vec<Assertion> = Vec::new();
    asserts.push(assert_status_less_than(400));
    proof {
        assert(assert_seq_model(Seq::<Assertion>::empty()) =~= Seq::<AssertV>::empty());
        lemma_assert_seq_model_push(Seq::<Assertion>::empty(), asserts@.last());
        assert(asserts@ =~= Seq::<Assertion>::empty().push(asserts@.last()));
    }
    ResponseModel { status: StatusMatch::Any, asserts }
}

/// The assertions for a plain-text response body: the status check, then
/// the string assertions of the schema applied to the whole body.
pub open spec fn spec_plain_text_response_asserts(schema: Schema) -> Seq<AssertV> {
    seq![spec_status_less_than(400)] + spec_string_asserts(schema, QueryV::Body)
}

/// The assertions for a plain-text response body.
pub fn parse_plain_text_response_body(schema: &Schema) -> (r: Vec<Assertion>)
    ensures
        assert_seq_model(r@) == spec_plain_text_response_asserts(*schema),
{
    let mut out: Vec<Assertion> = Vec::new();
    out.push(assert_status_less_than(400));
    proof {
        assert(assert_seq_model(Seq::<Assertion>::empty()) =~= Seq::<AssertV>::empty());
        lemma_assert_seq_model_push(Seq::<Assertion>::empty(), out@.last());
        assert(out@ =~= Seq::<Assertion>::empty().push(out@.last()));
    }
    let q = QueryExpr::Body;
    let mut tail = parse_string_asserts(schema, &q);
    let ghost outview = out@;
    let ghost tailview = tail@;
    out.append(&mut tail);
    proof {
        crate::asserts::lemma_assert_seq_model_add(outview, tailview);
    }
    out
}

/// The outcome of full response validation: the assertion list for the
/// success response's negotiated media type; the bare status check where no
/// success response is declared; nothing, with a warning, where no declared
/// media type is supported or the media type carries no schema.
pub open spec fn spec_validation_response_full(
    operation: Operation,
    doc: Document,
    content_type: ContentType,
    policy: HandleUnionsBy,
    fuel: nat,
) -> Result<(Option<Seq<AssertV>>, Seq<WarnV>), SchemaErrorV> {
    let operation_id = spec_operation_id(operation);
    match spec_lookup(operation.responses@, "200"@) {
        None => Ok((Some(seq![spec_status_less_than(400)]), Seq::empty())),
        Some(rref) => match spec_resolve_response(doc, rref) {
            Err(e) => Err(e),
            Ok(resp) => match spec_select_content(resp.content@, content_type) {
                None => Ok(
                    (
                        None,
                        seq![WarnV::UnsupportedContentTypes { operation_id: operation_id }],
                    ),
                ),
                Some((i, fallback)) => {
                    let media = resp.content@[i].0@;
                    let warns: Seq<WarnV> = if fallback {
                        seq![
                            WarnV::ContentTypeFallback {
                                operation_id: operation_id,
                                requested: spec_marker(content_type),
                                used: media,
                            },
                        ]
                    } else {
                        Seq::empty()
                    };
                    if !spec_supported(media) {
                        Ok(
                            (
                                None,
                                warns + seq![
                                    WarnV::UnsupportedContentTypes {
                                        operation_id: operation_id,
                                    },
                                ],
                            ),
                        )
                    } else {
                        match resp.content@[i].1.schema {
                            None => Ok((None, warns)),
                            Some(sref) => match spec_resolve_schema(doc, sref, fuel) {
                                Err(e) => Err(e),
                                Ok(schema) => {
                                    if crate::text::spec_contains(media, "text"@) {
                                        Ok(
                                            (
                                                Some(spec_plain_text_response_asserts(schema)),
                                                warns,
                                            ),
                                        )
                                    } else {
                                        match spec_json_response_asserts(doc, schema, policy,
                                            fuel) {
                                            Err(e) => Err(e),
                                            Ok((a, w)) => Ok((Some(a), warns + w)),
                                        }
                                    }
                                },
                            },
                        }
                    }
                },
            },
        },
    }
}

/// The operation's id, or its placeholder where none is declared.
pub open spec fn spec_operation_id(operation: Operation) -> Seq<char> {
    match operation.operation_id {
        Some(id) => id@,
        None => "operationWithNoId"@,
    }
}

/// The operation's id, or its placeholder where none is declared.
pub fn operation_id_of(operation: &Operation) -> (r: String)
    ensures
        r@ == spec_operation_id(*operation),
{
    match &operation.operation_id {
        Some(id) => id.clone(),
        None => "operationWithNoId".to_owned(),
    }
}

/// Validates the success response of an operation: looks up its `200`
/// response, negotiates a media type, and synthesizes assertions for its
/// schema.
pub fn validation_response_full(
    operation: &Operation,
    doc: &Document,
    content_type: &ContentType,
    policy: HandleUnionsBy,
    fuel: u64,
) -> (r: Result<(Option<Vec<Assertion>>, Vec<Warning>), SchemaError>)
    ensures
        (match spec_validation_response_full(*operation, *doc, *content_type, policy,
            fuel as nat) {
            Ok((oa, w)) => r matches Ok(pair) && warn_seq_model(pair.1@) == w && (match oa {
                Some(a) => pair.0 matches Some(v) && assert_seq_model(v@) == a,
                None => pair.0 is None,
            }),
            Err(e) => r matches Err(x) && x@ == e,
        }),
{
    let operation_id = operation_id_of(operation);
    let key = "200".to_owned();
    let rref = match lookup_by_name(&operation.responses, &key) {
        None => {
            let not_error = validate_response_not_error();
            return Ok((Some(not_error.asserts), Vec::new()));
        },
        Some(rref) => rref,
    };
    let resp = match resolve_response(doc, rref) {
        Ok(resp) => resp,
        Err(e) => {
            return Err(e);
        },
    };
    match select_content(&resp.content, content_type) {
        None => {
            let mut warns: Vec<Warning> = Vec::new();
            warns.push(Warning::UnsupportedContentTypes { operation_id });
            proof {
                assert(warns@.drop_last() =~= Seq::<Warning>::empty());
                assert(warn_seq_model(warns@.drop_last()) =~= Seq::<WarnV>::empty());
            }
            Ok((None, warns))
        },
        Some((i, fallback)) => {
            let mut warns: Vec<Warning> = Vec::new();
            if fallback {
                warns.push(
                    Warning::ContentTypeFallback {
                        operation_id: operation_id.clone(),
                        requested: content_type.to_str().to_owned(),
                        used: resp.content[i].0.clone(),
                    },
                );
                proof {
                    assert(warns@.drop_last() =~= Seq::<Warning>::empty());
                    assert(warn_seq_model(warns@.drop_last()) =~= Seq::<WarnV>::empty());
                }
            }
            if !ContentType::is_supported(&resp.content[i].0) {
                let ghost w0 = warns@;
                warns.push(Warning::UnsupportedContentTypes { operation_id });
                proof {
                    crate::errors::lemma_warn_seq_model_push(w0, warns@.last());
                    assert(warns@ =~= w0.push(warns@.last()));
                }
                return Ok((None, warns));
            }
            match &resp.content[i].1.schema {
                None => Ok((None, warns)),
                Some(sref) => {
                    let schema = match resolve_schema(doc, sref, fuel) {
                        Ok(s) => s,
                        Err(e) => {
                            return Err(e);
                        },
                    };
                    let text_marker = "text".to_owned();
                    if str_contains(&resp.content[i].0, &text_marker) {
                        Ok((Some(parse_plain_text_response_body(schema)), warns))
                    } else {
                        match parse_json_response_body_asserts(schema, doc, policy, fuel) {
                            Err(e) => Err(e),
                            Ok((a, mut w)) => {
                                let ghost warnsview = warns@;
                                let ghost wview = w@;
                                warns.append(&mut w);
                                proof {
                                    crate::errors::lemma_warn_seq_model_add(warnsview, wview);
                                }
                                Ok((Some(a), warns))
                            },
                        }
                    }
                },
            }
        },
    }
}

} // verus!
