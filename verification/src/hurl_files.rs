//! One test file per operation: substitutes path and query parameters into
//! the URL template, attaches header variables, synthesizes the request body
//! and the response validation, and walks a path item's operations.

use vstd::prelude::*;
use crate::asserts::{assert_seq_model, spec_status_less_than, AssertV, Assertion};
use crate::cli::{ErrorHandling, QueryParamChoice, ResponseValidationChoice};
use crate::document::{
    resolve_parameter, resolve_request_body, spec_resolve_parameter, spec_resolve_request_body,
    Document, Operation, Parameter, PathItem,
};
use crate::errors::{
    spec_operation_error_text, warn_seq_model, OperationError, SchemaError, SchemaErrorV, WarnV,
    Warning,
};
use crate::literal::{lit_model, render_json_compact, spec_json_compact};
use crate::request_body::{
    from_spec_body, spec_from_spec_body, BodyV, BodyValue, SpecBodySettings,
};
use crate::response::{
    spec_operation_id, operation_id_of, spec_validation_response_full, validate_response_not_error,
    validation_response_full, HandleUnionsBy, ResponseModel, StatusMatch,
};
use crate::schema::{Schema, SchemaKind};
use crate::settings::Settings;
use crate::text::{
    chars_of, contains_string, push_all, spec_replace, str_in_list, str_replace,
    string_from_chars,
};

verus! {

/// An HTTP method of a path item.
#[derive(Clone, Copy, Debug, PartialEq, Eq, Structural)]
pub enum HttpMethod {
    GET,
    PUT,
    POST,
    PATCH,
    OPTIONS,
    HEAD,
    DELETE,
}

/// The request-line text of a method.
pub open spec fn spec_method_text(m: HttpMethod) -> Seq<char> {
    match m {
        HttpMethod::GET => "GET"@,
        HttpMethod::PUT => "PUT"@,
        HttpMethod::POST => "POST"@,
        HttpMethod::PATCH => "PATCH"@,
        HttpMethod::OPTIONS => "OPTIONS"@,
        HttpMethod::HEAD => "HEAD"@,
        HttpMethod::DELETE => "DELETE"@,
    }
}

impl HttpMethod {
    /// The request-line text of the method.
    pub fn to_string(&self) -> (r: String)
        ensures
            r@ == spec_method_text(*self),
    {
        match self {
            HttpMethod::GET => "GET".to_owned(),
            HttpMethod::PUT => "PUT".to_owned(),
            HttpMethod::POST => "POST".to_owned(),
            HttpMethod::PATCH => "PATCH".to_owned(),
            HttpMethod::OPTIONS => "OPTIONS".to_owned(),
            HttpMethod::HEAD => "HEAD".to_owned(),
            HttpMethod::DELETE => "DELETE".to_owned(),
        }
    }
}

/// Whether the two lists share an element.
pub open spec fn spec_share_element(a: Seq<String>, b: Seq<String>) -> bool {
    exists|i: int| 0 <= i < a.len() && str_in_list(b, (#[trigger] a[i])@)
}

/// Whether the two lists share an element.
pub fn share_element(vec1: &Vec<String>, vec2: &Vec<String>) -> (r: bool)
    ensures
        r == spec_share_element(vec1@, vec2@),
{
    let mut i: usize = 0;
    while i < vec1.len()
        invariant
            i <= vec1@.len(),
            forall|k: int| 0 <= k < i ==> !str_in_list(vec2@, (#[trigger] vec1@[k])@),
        decreases vec1@.len() - i,
    {
        if contains_string(vec2, &vec1[i]) {
            return true;
        }
        i = i + 1;
    }
    false
}

/// The default URL token of a schema kind, used for a parameter without an
/// example.
pub open spec fn spec_default_token(kind: SchemaKind) -> Seq<char> {
    match kind {
        SchemaKind::Boolean => "true"@,
        SchemaKind::Integer => "3"@,
        SchemaKind::Number => "5.5"@,
        SchemaKind::Str => "string_value"@,
        SchemaKind::Array => "[]array_value"@,
        SchemaKind::Object => "{}"@,
        SchemaKind::Unspecified => "string_value"@,
    }
}

/// The default URL token of a schema kind.
pub fn path_param_from_schema_type(kind: SchemaKind) -> (r: &'static str)
    ensures
        r@ == spec_default_token(kind),
{
    match kind {
        SchemaKind::Boolean => "true",
        SchemaKind::Integer => "3",
        SchemaKind::Number => "5.5",
        SchemaKind::Str => "string_value",
        SchemaKind::Array => "[]array_value",
        SchemaKind::Object => "{}",
        SchemaKind::Unspecified => "string_value",
    }
}

/// The URL token a parameter renders as: its example's compact JSON text
/// with every quote removed, else the default token of its schema's kind; a
/// parameter without a schema renders as a string's default.
pub open spec fn spec_param_value(p: Parameter) -> Seq<char> {
    match p.schema {
        Some(b) => match b.example {
            Some(e) => spec_replace(spec_json_compact(lit_model(e)), seq!['"'], Seq::empty()),
            None => spec_default_token(b.kind),
        },
        None => "string_value"@,
    }
}

/// The URL token a parameter renders as.
pub fn param_value(p: &Parameter) -> (r: String)
    ensures
        r@ == spec_param_value(*p),
{
    match &p.schema {
        Some(b) => match &b.example {
            Some(e) => {
                let text = render_json_compact(e);
                let quote = "\"".to_owned();
                let nothing = "".to_owned();
                proof {
                    reveal_strlit("\"");
                    assert(quote@ =~= seq!['"']);
                    reveal_strlit("");
                    assert(nothing@ =~= Seq::<char>::empty());
                }
                str_replace(&text, &quote, &nothing)
            },
            None => path_param_from_schema_type(b.kind).to_owned(),
        },
        None => "string_value".to_owned(),
    }
}

/// The URL after substituting each of the first `i` resolved path
/// parameters: every `{name}` token replaced by the parameter's value.
pub open spec fn spec_path_uri(uri: Seq<char>, params: Seq<Parameter>, i: int) -> Seq<char>
    decreases i,
{
    if i <= 0 || params.len() < i {
        uri
    } else {
        let prev = spec_path_uri(uri, params, i - 1);
        let p = params[i - 1];
        if p.location@ == "path"@ {
            spec_replace(prev, seq!['{'] + p.name@ + seq!['}'], spec_param_value(p))
        } else {
            prev
        }
    }
}

/// The name-value pairs of the first `i` resolved query parameters, in
/// declaration order.
pub open spec fn spec_query_pairs(params: Seq<Parameter>, i: int) -> Seq<(Seq<char>, Seq<char>)>
    decreases i,
{
    if i <= 0 || params.len() < i {
        Seq::empty()
    } else {
        let prev = spec_query_pairs(params, i - 1);
        let p = params[i - 1];
        if p.location@ == "query"@ {
            prev.push((p.name@, spec_param_value(p)))
        } else {
            prev
        }
    }
}

/// The query string of the first `i` pairs: `?name=value` for the first,
/// `&name=value` for each later one.
pub open spec fn spec_render_query(pairs: Seq<(Seq<char>, Seq<char>)>, i: int) -> Seq<char>
    decreases i,
{
    if i <= 0 || pairs.len() < i {
        Seq::empty()
    } else {
        spec_render_query(pairs, i - 1) + (if i - 1 == 0 {
            seq!['?']
        } else {
            seq!['&']
        }) + pairs[i - 1].0 + seq!['='] + pairs[i - 1].1
    }
}

/// How many query pairs a choice keeps: none, the first, or all.
pub open spec fn spec_kept_pairs(n: int, choice: QueryParamChoice) -> int {
    match choice {
        QueryParamChoice::NoParams => 0,
        QueryParamChoice::Defaults => if n > 0 {
            1
        } else {
            0
        },
        QueryParamChoice::All => n,
    }
}

/// The whole request URL: the host placeholder, the path with parameters
/// substituted, and the query string the choice keeps.
pub open spec fn spec_url(
    path_name: Seq<char>,
    params: Seq<Parameter>,
    choice: QueryParamChoice,
) -> Seq<char> {
    let uri = spec_path_uri(path_name, params, params.len() as int);
    let pairs = spec_query_pairs(params, params.len() as int);
    "{{host}}"@ + uri + spec_render_query(pairs, spec_kept_pairs(pairs.len() as int, choice))
}

/// A synthesized request: method, substituted URL, header variables, and
/// body.
#[derive(Debug, PartialEq, Eq)]
pub struct RequestModel {
    pub method: String,
    pub url: String,
    pub headers: Vec<(String, String)>,
    pub body: Option<BodyValue>,
}

/// The model of a synthesized request.
pub struct RequestV {
    pub method: Seq<char>,
    pub url: Seq<char>,
    pub headers: Seq<(Seq<char>, Seq<char>)>,
    pub body: Option<BodyV>,
}

/// The model of a synthesized request.
pub open spec fn request_model(r: RequestModel) -> RequestV {
    RequestV {
        method: r.method@,
        url: r.url@,
        headers: crate::variable_files::kvs_model(r.headers@),
        body: match r.body {
            Some(b) => Some(crate::request_body::body_model(b)),
            None => None,
        },
    }
}

/// One synthesized test file: its request and, where validation was asked
/// for, its response.
#[derive(Debug, PartialEq, Eq)]
pub struct HurlFileModel {
    pub request: RequestModel,
    pub response: Option<ResponseModel>,
}

/// The model of a test file.
pub struct FileV {
    pub request: RequestV,
    pub response: Option<(StatusMatch, Seq<AssertV>)>,
}

/// The model of a test file.
pub open spec fn file_model(f: HurlFileModel) -> FileV {
    FileV {
        request: request_model(f.request),
        response: match f.response {
            Some(r) => Some((r.status, assert_seq_model(r.asserts@))),
            None => None,
        },
    }
}

/// A rendered test file: its file name and its full text, as a rendering
/// collaborator produces them from the file model.
#[derive(Debug, PartialEq, Eq)]
pub struct HurlFileString {
    pub filename: String,
    pub file: String,
}

/// A test file together with the operation and method it came from.
#[derive(Debug, PartialEq, Eq)]
pub struct LocalHurlFile {
    pub operation: Option<String>,
    pub method: String,
    pub file: HurlFileModel,
}

/// The model of a test file entry.
pub struct EntryV {
    pub operation: Option<Seq<char>>,
    pub method: Seq<char>,
    pub file: FileV,
}

/// The model of a test file entry.
pub open spec fn entry_model(e: LocalHurlFile) -> EntryV {
    EntryV {
        operation: match e.operation {
            Some(id) => Some(id@),
            None => None,
        },
        method: e.method@,
        file: file_model(e.file),
    }
}

/// The models of a sequence of entries.
pub open spec fn entries_model(s: Seq<LocalHurlFile>) -> Seq<EntryV>
    decreases s,
{
    if s.len() == 0 {
        Seq::empty()
    } else {
        entries_model(s.drop_last()).push(entry_model(s.last()))
    }
}

/// The model of an operation error: the operation id and the failure.
pub open spec fn op_err_model(e: OperationError) -> (Option<Seq<char>>, SchemaErrorV) {
    match e {
        OperationError::Ref(id, err) => (
            match id {
                Some(s) => Some(s@),
                None => None,
            },
            crate::errors::schema_error_model(err),
        ),
    }
}

/// The models of a sequence of operation errors.
pub open spec fn op_errs_model(s: Seq<OperationError>) -> Seq<
    (Option<Seq<char>>, SchemaErrorV),
>
    decreases s,
{
    if s.len() == 0 {
        Seq::empty()
    } else {
        op_errs_model(s.drop_last()).push(op_err_model(s.last()))
    }
}

/// The models of a sequence of resolution errors.
pub open spec fn schema_errs_model(s: Seq<SchemaError>) -> Seq<SchemaErrorV>
    decreases s,
{
    if s.len() == 0 {
        Seq::empty()
    } else {
        schema_errs_model(s.drop_last()).push(crate::errors::schema_error_model(s.last()))
    }
}

/// The header lines of the request: each custom variable's key paired with
/// its placeholder.
pub open spec fn spec_header_pairs(headers: Seq<(String, String)>, i: int) -> Seq<
    (Seq<char>, Seq<char>),
>
    decreases i,
{
    if i <= 0 || headers.len() < i {
        Seq::empty()
    } else {
        spec_header_pairs(headers, i - 1).push(
            (headers[i - 1].0@, "{{"@ + headers[i - 1].0@ + "}}"@),
        )
    }
}

/// The parameters an operation's list resolves to, and the failures met, in
/// order.
pub open spec fn spec_param_results(
    doc: Document,
    params: Seq<crate::document::ParamOrRef>,
    i: int,
) -> (Seq<Parameter>, Seq<SchemaErrorV>)
    decreases i,
{
    if i <= 0 || params.len() < i {
        (Seq::empty(), Seq::empty())
    } else {
        let (oks, errs) = spec_param_results(doc, params, i - 1);
        match spec_resolve_parameter(doc, params[i - 1]) {
            Ok(p) => (oks.push(p), errs),
            Err(e) => (oks, errs.push(e)),
        }
    }
}

/// The request body synthesized for an operation: nothing where none is
/// declared, else the resolved body's negotiated rendering.
pub open spec fn spec_request_body(
    operation: Operation,
    doc: Document,
    settings: Settings,
    fuel: nat,
) -> Result<(Option<BodyV>, Seq<WarnV>), SchemaErrorV> {
    match operation.request_body {
        None => Ok((None, Seq::empty())),
        Some(bref) => match spec_resolve_request_body(doc, bref) {
            Err(e) => Err(e),
            Ok(b) => spec_from_spec_body(
                b,
                doc,
                spec_operation_id(operation),
                SpecBodySettings {
                    formatting: settings.formatting,
                    content_type: settings.content_type,
                },
                fuel,
            ),
        },
    }
}

/// The response section of the file, by validation choice: nothing; the bare
/// status check; or the full validation of the success response.
pub open spec fn spec_response_step(
    operation: Operation,
    doc: Document,
    settings: Settings,
    fuel: nat,
) -> Result<(Option<(StatusMatch, Seq<AssertV>)>, Seq<WarnV>), SchemaErrorV> {
    match settings.validate_response {
        ResponseValidationChoice::No => Ok((None, Seq::empty())),
        ResponseValidationChoice::NonErrorCode => Ok(
            (Some((StatusMatch::Any, seq![spec_status_less_than(400)])), Seq::empty()),
        ),
        ResponseValidationChoice::Body => (match spec_validation_response_full(
            operation,
            doc,
            settings.content_type,
            HandleUnionsBy::IgnoringThem,
            fuel,
        ) {
            Err(e) => Err(e),
            Ok((None, w)) => Ok((None, w)),
            Ok((Some(a), w)) => Ok((Some((StatusMatch::Any, a)), w)),
        }),
        ResponseValidationChoice::BodyWithOptionals => (match spec_validation_response_full(
            operation,
            doc,
            settings.content_type,
            HandleUnionsBy::TreatingOptionalsAsRequired,
            fuel,
        ) {
            Err(e) => Err(e),
            Ok((None, w)) => Ok((None, w)),
            Ok((Some(a), w)) => Ok((Some((StatusMatch::Any, a)), w)),
        }),
    }
}

/// The test file of one operation: parameter failures collected first, the
/// body synthesized, and on success the substituted URL, headers, body and
/// response; any failure yields the collected failures instead.
#[verifier::opaque]
pub open spec fn spec_to_file(
    path_name: Seq<char>,
    doc: Document,
    operation: Operation,
    method: HttpMethod,
    settings: Settings,
    fuel: nat,
) -> Result<(FileV, Seq<WarnV>), Seq<SchemaErrorV>> {
    let (okp, perrs) = spec_param_results(doc, operation.parameters@,
        operation.parameters@.len() as int);
    match spec_request_body(operation, doc, settings, fuel) {
        Err(e) => Err(perrs.push(e)),
        Ok((body, bw)) => {
            if perrs.len() > 0 {
                Err(perrs)
            } else {
                match spec_response_step(operation, doc, settings, fuel) {
                    Err(e) => Err(seq![e]),
                    Ok((resp, rw)) => Ok(
                        (
                            FileV {
                                request: RequestV {
                                    method: spec_method_text(method),
                                    url: spec_url(path_name, okp,
                                        settings.query_params_choice),
                                    headers: spec_header_pairs(
                                        settings.custom_variables.headers@,
                                        settings.custom_variables.headers@.len() as int,
                                    ),
                                    body: body,
                                },
                                response: resp,
                            },
                            bw + rw,
                        ),
                    ),
                }
            }
        },
    }
}

/// Synthesizes the test file of one operation: resolves its parameters,
/// substitutes them into the URL template, attaches header variables, and
/// builds the body and response sections.
pub fn to_file(
    path_name: &String,
    doc: &Document,
    operation: &Operation,
    method: &HttpMethod,
    settings: &Settings,
    fuel: u64,
) -> (r: Result<(HurlFileModel, Vec<Warning>), Vec<SchemaError>>)
    ensures
        (match spec_to_file(path_name@, *doc, *operation, *method, *settings, fuel as nat) {
            Ok((f, w)) => r matches Ok(pair) && file_model(pair.0) == f && warn_seq_model(
                pair.1@,
            ) == w,
            Err(es) => r matches Err(v) && schema_errs_model(v@) == es,
        }),
{
    proof {
        reveal(spec_to_file);
    }
    let params = &operation.parameters;
    let ghost pr = spec_param_results(*doc, params@, params@.len() as int);
    let mut okvec: Vec<&Parameter> = Vec::new();
    let mut errvec: Vec<SchemaError> = Vec::new();
    let mut i: usize = 0;
    while i < params.len()
        invariant
            i <= params@.len(),
            okvec@.len() == spec_param_results(*doc, params@, i as int).0.len(),
            forall|k: int|
                0 <= k < okvec@.len() ==> *(#[trigger] okvec@[k]) == spec_param_results(
                    *doc,
                    params@,
                    i as int,
                ).0[k],
            schema_errs_model(errvec@) == spec_param_results(*doc, params@, i as int).1,
        decreases params@.len() - i,
    {
        let ghost prev = spec_param_results(*doc, params@, i as int);
        match resolve_parameter(doc, &params[i]) {
            Ok(p) => {
                okvec.push(p);
            },
            Err(e) => {
                let ghost errpre = errvec@;
                errvec.push(e);
                proof {
                    assert(errvec@.drop_last() =~= errpre);
                }
            },
        }
        i = i + 1;
        proof {
            let cur = spec_param_results(*doc, params@, i as int);
            assert(forall|k: int|
                0 <= k < prev.0.len() ==> #[trigger] cur.0[k] == prev.0[k]);
        }
    }
    let ghost okp = pr.0;
    let ghost perrs = pr.1;
    let body_settings = SpecBodySettings::from_settings(settings);
    let body_result: Result<(Option<BodyValue>, Vec<Warning>), SchemaError> = match
        &operation.request_body {
        None => Ok((None, Vec::new())),
        Some(bref) => match resolve_request_body(doc, bref) {
            Err(e) => Err(e),
            Ok(b) => from_spec_body(b, doc, operation_id_of(operation), &body_settings, fuel),
        },
    };
    let (body, bw) = match body_result {
        Ok(pair) => pair,
        Err(e) => {
            let ghost errpre = errvec@;
            errvec.push(e);
            proof {
                assert(errvec@.drop_last() =~= errpre);
            }
            return Err(errvec);
        },
    };
    proof {
        assert(warn_seq_model(Seq::<Warning>::empty()) =~= Seq::<WarnV>::empty());
    }
    if errvec.len() > 0 {
        return Err(errvec);
    }
    let response_result: Result<(Option<ResponseModel>, Vec<Warning>), SchemaError> = match
        settings.validate_response {
        ResponseValidationChoice::No => Ok((None, Vec::new())),
        ResponseValidationChoice::NonErrorCode => Ok(
            (Some(validate_response_not_error()), Vec::new()),
        ),
        ResponseValidationChoice::Body => {
            match validation_response_full(operation, doc, &settings.content_type,
                HandleUnionsBy::IgnoringThem, fuel) {
                Err(e) => Err(e),
                Ok((None, w)) => Ok((None, w)),
                Ok((Some(a), w)) => Ok(
                    (Some(ResponseModel { status: StatusMatch::Any, asserts: a }), w),
                ),
            }
        },
        ResponseValidationChoice::BodyWithOptionals => {
            match validation_response_full(operation, doc, &settings.content_type,
                HandleUnionsBy::TreatingOptionalsAsRequired, fuel) {
                Err(e) => Err(e),
                Ok((None, w)) => Ok((None, w)),
                Ok((Some(a), w)) => Ok(
                    (Some(ResponseModel { status: StatusMatch::Any, asserts: a }), w),
                ),
            }
        },
    };
    let (resp, rw) = match response_result {
        Ok(pair) => pair,
        Err(e) => {
            let mut only: Vec<SchemaError> = Vec::new();
            only.push(e);
            proof {
                assert(schema_errs_model(Seq::<SchemaError>::empty()) =~= Seq::<
                    SchemaErrorV,
                >::empty());
                assert(only@.drop_last() =~= Seq::<SchemaError>::empty());
                assert(schema_errs_model(only@) =~= seq![
                    crate::errors::schema_error_model(only@.last()),
                ]);
            }
            return Err(only);
        },
    };
    let path_lit = "path".to_owned();
    let query_lit = "query".to_owned();
    let mut uri = path_name.clone();
    let mut pi: usize = 0;
    while pi < okvec.len()
        invariant
            pi <= okvec@.len(),
            okvec@.len() == okp.len(),
            forall|k: int| 0 <= k < okp.len() ==> *(#[trigger] okvec@[k]) == okp[k],
            path_lit@ == "path"@,
            uri@ == spec_path_uri(path_name@, okp, pi as int),
        decreases okvec@.len() - pi,
    {
        let p = okvec[pi];
        if p.location == path_lit {
            let mut pat: Vec<char> = Vec::new();
            pat.push('{');
            let namec = chars_of(p.name.as_str());
            push_all(&mut pat, &namec);
            pat.push('}');
            proof {
                assert(pat@ =~= seq!['{'] + p.name@ + seq!['}']);
            }
            let pats = string_from_chars(&pat);
            let v = param_value(p);
            uri = str_replace(&uri, &pats, &v);
        }
        pi = pi + 1;
    }
    let mut qvec: Vec<(String, String)> = Vec::new();
    let mut qi: usize = 0;
    proof {
        assert(crate::variable_files::kvs_model(Seq::<(String, String)>::empty()) =~= Seq::<
            (Seq<char>, Seq<char>),
        >::empty());
    }
    while qi < okvec.len()
        invariant
            qi <= okvec@.len(),
            okvec@.len() == okp.len(),
            forall|k: int| 0 <= k < okp.len() ==> *(#[trigger] okvec@[k]) == okp[k],
            query_lit@ == "query"@,
            crate::variable_files::kvs_model(qvec@) == spec_query_pairs(okp, qi as int),
        decreases okvec@.len() - qi,
    {
        let p = okvec[qi];
        if p.location == query_lit {
            let ghost qpre = qvec@;
            let pair = (p.name.clone(), param_value(p));
            qvec.push(pair);
            proof {
                assert(qvec@.drop_last() =~= qpre);
            }
        }
        qi = qi + 1;
    }
    let kept: usize = match settings.query_params_choice {
        QueryParamChoice::NoParams => 0,
        QueryParamChoice::Defaults => if qvec.len() > 0 {
            1
        } else {
            0
        },
        QueryParamChoice::All => qvec.len(),
    };
    let ghost qpairs = spec_query_pairs(okp, okp.len() as int);
    proof {
        crate::variable_files::lemma_kvs_model(qvec@);
    }
    let mut urlc = chars_of("{{host}}");
    let uric = chars_of(uri.as_str());
    push_all(&mut urlc, &uric);
    let mut j: usize = 0;
    while j < kept
        invariant
            j <= kept,
            kept <= qvec@.len(),
            qpairs == crate::variable_files::kvs_model(qvec@),
            qpairs.len() == qvec@.len(),
            forall|k: int|
                0 <= k < qvec@.len() ==> qpairs[k] == ((#[trigger] qvec@[k]).0@, qvec@[k].1@),
            urlc@ == "{{host}}"@ + uri@ + spec_render_query(qpairs, j as int),
        decreases kept - j,
    {
        if j == 0 {
            urlc.push('?');
        } else {
            urlc.push('&');
        }
        let namec = chars_of(qvec[j].0.as_str());
        push_all(&mut urlc, &namec);
        urlc.push('=');
        let valc = chars_of(qvec[j].1.as_str());
        push_all(&mut urlc, &valc);
        j = j + 1;
        proof {
            assert(urlc@ =~= "{{host}}"@ + uri@ + spec_render_query(qpairs, j as int));
        }
    }
    let url = string_from_chars(&urlc);
    let headers_src = &settings.custom_variables.headers;
    let mut headers: Vec<(String, String)> = Vec::new();
    let mut hi: usize = 0;
    proof {
        assert(crate::variable_files::kvs_model(Seq::<(String, String)>::empty()) =~= Seq::<
            (Seq<char>, Seq<char>),
        >::empty());
    }
    while hi < headers_src.len()
        invariant
            hi <= headers_src@.len(),
            crate::variable_files::kvs_model(headers@) == spec_header_pairs(headers_src@,
                hi as int),
        decreases headers_src@.len() - hi,
    {
        let ghost hpre = headers@;
        let key = headers_src[hi].0.clone();
        let tpl = "{{".to_owned();
        let tpl = tpl.concat(key.as_str());
        let tpl = tpl.concat("}}");
        headers.push((key, tpl));
        hi = hi + 1;
        proof {
            assert(headers@.drop_last() =~= hpre);
        }
    }
    let mut warns = bw;
    let mut rwm = rw;
    let ghost bwview = warns@;
    let ghost rwview = rwm@;
    warns.append(&mut rwm);
    proof {
        crate::errors::lemma_warn_seq_model_add(bwview, rwview);
    }
    let request = RequestModel { method: method.to_string(), url, headers, body };
    Ok((HurlFileModel { request, response: resp }, warns))
}

/// The models of a sequence of entries have the same length.
proof fn lemma_entries_model_len(s: Seq<LocalHurlFile>)
    ensures
        entries_model(s).len() == s.len(),
    decreases s,
{
    if s.len() > 0 {
        lemma_entries_model_len(s.drop_last());
    }
}

/// The models of a sequence of resolution errors, elementwise.
proof fn lemma_schema_errs_model(s: Seq<SchemaError>)
    ensures
        schema_errs_model(s).len() == s.len(),
        forall|i: int|
            0 <= i < s.len() ==> schema_errs_model(s)[i] == crate::errors::schema_error_model(
                #[trigger] s[i],
            ),
    decreases s,
{
    if s.len() > 0 {
        lemma_schema_errs_model(s.drop_last());
        assert(forall|i: int| 0 <= i < s.len() - 1 ==> s.drop_last()[i] == #[trigger] s[i]);
    }
}

/// The models of a sequence of operation errors, elementwise.
proof fn lemma_op_errs_model(s: Seq<OperationError>)
    ensures
        op_errs_model(s).len() == s.len(),
        forall|i: int|
            0 <= i < s.len() ==> op_errs_model(s)[i] == op_err_model(#[trigger] s[i]),
    decreases s,
{
    if s.len() > 0 {
        lemma_op_errs_model(s.drop_last());
        assert(forall|i: int| 0 <= i < s.len() - 1 ==> s.drop_last()[i] == #[trigger] s[i]);
    }
}

/// The synthesized files, failures and warnings of one path item.
#[derive(Debug, PartialEq, Eq)]
pub struct HurlFiles {
    pub hurl_files: Vec<LocalHurlFile>,
    pub errors: Vec<OperationError>,
    pub warnings: Vec<Warning>,
}

/// The model of an accumulated build: files, failures and warnings so far.
pub struct BuildV {
    pub files: Seq<EntryV>,
    pub errors: Seq<(Option<Seq<char>>, SchemaErrorV)>,
    pub warnings: Seq<WarnV>,
}

/// The model of the synthesized files of a path item.
pub open spec fn hurl_files_model(h: HurlFiles) -> BuildV {
    BuildV {
        files: entries_model(h.hurl_files@),
        errors: op_errs_model(h.errors@),
        warnings: warn_seq_model(h.warnings@),
    }
}

/// The operation's id, or the placeholder used for selection.
pub open spec fn spec_opid_or_no_id(o: Operation) -> Seq<char> {
    match o.operation_id {
        Some(id) => id@,
        None => "no_id"@,
    }
}

/// The operation's id as an optional value.
pub open spec fn spec_opid_opt(o: Operation) -> Option<Seq<char>> {
    match o.operation_id {
        Some(id) => Some(id@),
        None => None,
    }
}

/// Whether the configuration selects the operation: it lies in a selected
/// tag, and its id is among the selected ids, where either filter is given.
pub open spec fn spec_selected(args: Settings, o: Operation) -> bool {
    (match args.tags {
        Some(ts) => spec_share_element(ts@, o.tags@),
        None => true,
    }) && (match args.operation_id_selection {
        Some(sel) => str_in_list(sel@, spec_opid_or_no_id(o)),
        None => true,
    })
}

/// Each failure tagged with the operation's id.
pub open spec fn spec_errs_to_op(id: Option<Seq<char>>, es: Seq<SchemaErrorV>) -> Seq<
    (Option<Seq<char>>, SchemaErrorV),
>
    decreases es,
{
    if es.len() == 0 {
        Seq::empty()
    } else {
        spec_errs_to_op(id, es.drop_last()).push((id, es.last()))
    }
}

/// The build after one operation: unchanged where the operation is absent
/// or filtered out; its file and warnings appended on success; its failures
/// appended, tagged with the operation id, otherwise.
pub open spec fn spec_add_operation(
    st: BuildV,
    path_name: Seq<char>,
    doc: Document,
    args: Settings,
    op: Option<Operation>,
    method: HttpMethod,
    fuel: nat,
) -> BuildV {
    match op {
        None => st,
        Some(o) => {
            if !spec_selected(args, o) {
                st
            } else {
                match spec_to_file(path_name, doc, o, method, args, fuel) {
                    Ok((f, w)) => BuildV {
                        files: st.files.push(
                            EntryV {
                                operation: spec_opid_opt(o),
                                method: spec_method_text(method),
                                file: f,
                            },
                        ),
                        errors: st.errors,
                        warnings: st.warnings + w,
                    },
                    Err(es) => BuildV {
                        files: st.files,
                        errors: st.errors + spec_errs_to_op(spec_opid_opt(o), es),
                        warnings: st.warnings,
                    },
                }
            }
        },
    }
}

/// Builds the test files of one path item, operation by operation.
pub struct HurlFileBuilder<'a> {
    pub hurl_files: Vec<LocalHurlFile>,
    pub errors: Vec<OperationError>,
    pub warnings: Vec<Warning>,
    pub path: (&'a String, &'a PathItem),
    pub doc: &'a Document,
    pub args: &'a Settings,
}

/// The model of a builder's accumulated state.
pub open spec fn builder_model(b: HurlFileBuilder) -> BuildV {
    BuildV {
        files: entries_model(b.hurl_files@),
        errors: op_errs_model(b.errors@),
        warnings: warn_seq_model(b.warnings@),
    }
}

impl<'a> HurlFileBuilder<'a> {
    /// The empty build of a path item.
    pub fn new(path: (&'a String, &'a PathItem), doc: &'a Document, args: &'a Settings) -> (r:
        HurlFileBuilder<'a>)
        ensures
            r.path == path,
            r.doc == doc,
            r.args == args,
            builder_model(r).files == Seq::<EntryV>::empty(),
            builder_model(r).errors == Seq::<(Option<Seq<char>>, SchemaErrorV)>::empty(),
            builder_model(r).warnings == Seq::<WarnV>::empty(),
    {
        HurlFileBuilder {
            hurl_files: Vec::new(),
            errors: Vec::new(),
            warnings: Vec::new(),
            path,
            doc,
            args,
        }
    }

    /// Adds one operation's file, failures and warnings to the build, where
    /// the operation exists and the configuration selects it.
    pub fn add_operation(self, operation: &Option<Operation>, method: &HttpMethod) -> (r:
        HurlFileBuilder<'a>)
        ensures
            r.path == self.path,
            r.doc == self.doc,
            r.args == self.args,
            builder_model(r) == spec_add_operation(
                builder_model(self),
                self.path.0@,
                *self.doc,
                *self.args,
                *operation,
                *method,
                crate::document::DEPTH_LIMIT as nat,
            ),
    {
        let o = match operation {
            Some(o) => o,
            None => {
                return self;
            },
        };
        let in_tag = match &self.args.tags {
            Some(ts) => share_element(ts, &o.tags),
            None => true,
        };
        let id_selected = match &self.args.operation_id_selection {
            Some(sel) => {
                let id = match &o.operation_id {
                    Some(id) => id.clone(),
                    None => "no_id".to_owned(),
                };
                contains_string(sel, &id)
            },
            None => true,
        };
        if !(in_tag && id_selected) {
            return self;
        }
        let mut this = self;
        match to_file(this.path.0, this.doc, o, method, this.args,
            crate::document::DEPTH_LIMIT) {
            Ok((file, mut w)) => {
                let ghost filespre = this.hurl_files@;
                let opid = match &o.operation_id {
                    Some(id) => Some(id.clone()),
                    None => None,
                };
                this.hurl_files.push(
                    LocalHurlFile { operation: opid, method: method.to_string(), file },
                );
                let ghost warnspre = this.warnings@;
                let ghost wview = w@;
                this.warnings.append(&mut w);
                proof {
                    assert(this.hurl_files@.drop_last() =~= filespre);
                    crate::errors::lemma_warn_seq_model_add(warnspre, wview);
                }
                this
            },
            Err(es) => {
                let ghost esall = es@;
                let ghost id = spec_opid_opt(*o);
                let ghost errspre = this.errors@;
                let mut es = es;
                let ghost mut k: int = 0;
                proof {
                    lemma_schema_errs_model(esall);
                    assert(esall.subrange(0, 0) =~= Seq::<SchemaError>::empty());
                    assert(schema_errs_model(Seq::<SchemaError>::empty()) =~= Seq::<
                        SchemaErrorV,
                    >::empty());
                    assert(op_errs_model(errspre) + Seq::<
                        (Option<Seq<char>>, SchemaErrorV),
                    >::empty() =~= op_errs_model(errspre));
                }
                while es.len() > 0
                    invariant
                        0 <= k <= esall.len(),
                        es@ == esall.subrange(k, esall.len() as int),
                        op_errs_model(this.errors@) == op_errs_model(errspre) + spec_errs_to_op(
                            id,
                            schema_errs_model(esall.subrange(0, k)),
                        ),
                        this.hurl_files@ == self.hurl_files@,
                        this.warnings@ == self.warnings@,
                        this.path == self.path,
                        this.doc == self.doc,
                        this.args == self.args,
                        id == spec_opid_opt(*o),
                    decreases es@.len(),
                {
                    let ghost pre = esall.subrange(0, k);
                    let e = es.remove(0);
                    proof {
                        assert(e == esall[k]);
                        assert(es@ =~= esall.subrange(k + 1, esall.len() as int));
                    }
                    let opid = match &o.operation_id {
                        Some(id) => Some(id.clone()),
                        None => None,
                    };
                    let ghost errsbefore = this.errors@;
                    this.errors.push(OperationError::Ref(opid, e));
                    proof {
                        k = k + 1;
                        let pre1 = esall.subrange(0, k);
                        assert(pre1.drop_last() =~= pre);
                        assert(pre1.last() == esall[k - 1]);
                        assert(schema_errs_model(pre1).drop_last() =~= schema_errs_model(pre));
                        assert(this.errors@.drop_last() =~= errsbefore);
                        assert(op_errs_model(this.errors@) =~= op_errs_model(errspre)
                            + spec_errs_to_op(id, schema_errs_model(pre1)));
                    }
                }
                proof {
                    assert(esall.subrange(0, esall.len() as int) =~= esall);
                }
                this
            },
        }
    }

    /// The accumulated build as a result.
    pub fn to_hurl_files(self) -> (r: HurlFiles)
        ensures
            hurl_files_model(r) == builder_model(self),
    {
        HurlFiles {
            hurl_files: self.hurl_files,
            errors: self.errors,
            warnings: self.warnings,
        }
    }
}

/// The build of one path item: its operations added in method order.
#[verifier::opaque]
pub open spec fn spec_from_oai_path(
    path_name: Seq<char>,
    item: PathItem,
    doc: Document,
    args: Settings,
    fuel: nat,
) -> BuildV {
    let st0 = BuildV { files: Seq::empty(), errors: Seq::empty(), warnings: Seq::empty() };
    let st1 = spec_add_operation(st0, path_name, doc, args, item.get, HttpMethod::GET, fuel);
    let st2 = spec_add_operation(st1, path_name, doc, args, item.post, HttpMethod::POST, fuel);
    let st3 = spec_add_operation(st2, path_name, doc, args, item.put, HttpMethod::PUT, fuel);
    let st4 = spec_add_operation(st3, path_name, doc, args, item.patch, HttpMethod::PATCH, fuel);
    let st5 = spec_add_operation(st4, path_name, doc, args, item.options, HttpMethod::OPTIONS,
        fuel);
    let st6 = spec_add_operation(st5, path_name, doc, args, item.delete, HttpMethod::DELETE,
        fuel);
    spec_add_operation(st6, path_name, doc, args, item.head, HttpMethod::HEAD, fuel)
}

impl HurlFiles {
    /// The test files of one path item: each declared operation's file, in
    /// method order, with the failures and warnings met on the way.
    pub fn from_oai_path(path: (&String, &PathItem), doc: &Document, args: &Settings) -> (r:
        HurlFiles)
        ensures
            hurl_files_model(r) == spec_from_oai_path(
                path.0@,
                *path.1,
                *doc,
                *args,
                crate::document::DEPTH_LIMIT as nat,
            ),
    {
        proof {
            reveal(spec_from_oai_path);
        }
        HurlFileBuilder::new(path, doc, args).add_operation(&path.1.get, &HttpMethod::GET)
            .add_operation(&path.1.post, &HttpMethod::POST)
            .add_operation(&path.1.put, &HttpMethod::PUT)
            .add_operation(&path.1.patch, &HttpMethod::PATCH)
            .add_operation(&path.1.options, &HttpMethod::OPTIONS)
            .add_operation(&path.1.delete, &HttpMethod::DELETE)
            .add_operation(&path.1.head, &HttpMethod::HEAD)
            .to_hurl_files()
    }
}

impl LocalHurlFile {
    /// The file name of the entry: its operation id, or the method where no
    /// id is declared.
    pub fn filename(&self) -> (r: String)
        ensures
            (match self.operation {
                Some(id) => r@ == id@,
                None => r@ == self.method@,
            }),
    {
        match &self.operation {
            Some(id) => id.clone(),
            None => self.method.clone(),
        }
    }
}

/// The failure texts of the first `i` operation errors, joined by newlines.
pub open spec fn spec_error_join(
    errs: Seq<(Option<Seq<char>>, SchemaErrorV)>,
    i: int,
) -> Seq<char>
    decreases i,
{
    if i <= 0 || errs.len() < i {
        Seq::empty()
    } else {
        spec_error_join(errs, i - 1) + (if i - 1 > 0 {
            seq!['\n']
        } else {
            Seq::empty()
        }) + spec_operation_error_text(errs[i - 1].0, errs[i - 1].1)
    }
}

/// The message that stops a run on a path item's failures.
pub open spec fn spec_errors_message(errs: Seq<(Option<Seq<char>>, SchemaErrorV)>) -> Seq<
    char,
> {
    "Found errors while parsing openapi file:\n\n"@ + spec_error_join(errs, errs.len() as int)
}

/// The grouped test files of the paths from `i` on: one group per path with
/// any files, named for the path with slashes turned into underscores; a
/// path item's failures either stop the whole run with a joined message or
/// are passed over, by the configured error handling.
pub open spec fn spec_files_from_document(
    doc: Document,
    args: Settings,
    fuel: nat,
    i: int,
) -> Result<(Seq<(Seq<char>, Seq<EntryV>)>, Seq<WarnV>), Seq<char>>
    decreases doc.paths@.len() - i,
{
    if i < 0 || i >= doc.paths@.len() {
        Ok((Seq::empty(), Seq::empty()))
    } else {
        let bv = spec_from_oai_path(doc.paths@[i].0@, doc.paths@[i].1, doc, args, fuel);
        if bv.errors.len() > 0 && args.error_handling == ErrorHandling::Terminate {
            Err(spec_errors_message(bv.errors))
        } else {
            match spec_files_from_document(doc, args, fuel, i + 1) {
                Err(m) => Err(m),
                Ok((gs, ws)) => Ok(
                    (
                        (if bv.files.len() > 0 {
                            seq![
                                (spec_replace(doc.paths@[i].0@, seq!['/'], seq!['_']),
                                bv.files),
                            ]
                        } else {
                            Seq::empty()
                        }) + gs,
                        bv.warnings + ws,
                    ),
                ),
            }
        }
    }
}

/// The models of grouped test files.
pub open spec fn groups_model(s: Seq<(String, Vec<LocalHurlFile>)>) -> Seq<
    (Seq<char>, Seq<EntryV>),
>
    decreases s,
{
    if s.len() == 0 {
        Seq::empty()
    } else {
        groups_model(s.drop_last()).push((s.last().0@, entries_model(s.last().1@)))
    }
}

/// One step of the document walk, unfolded.
proof fn lemma_files_step(doc: Document, args: Settings, fuel: nat, i: int)
    requires
        0 <= i < doc.paths@.len(),
        !(spec_from_oai_path(doc.paths@[i].0@, doc.paths@[i].1, doc, args, fuel).errors.len() > 0
            && args.error_handling == ErrorHandling::Terminate),
    ensures
        ({
            let bv = spec_from_oai_path(doc.paths@[i].0@, doc.paths@[i].1, doc, args, fuel);
            let xgroup: Seq<(Seq<char>, Seq<EntryV>)> = if bv.files.len() > 0 {
                seq![(spec_replace(doc.paths@[i].0@, seq!['/'], seq!['_']), bv.files)]
            } else {
                Seq::empty()
            };
            spec_files_from_document(doc, args, fuel, i) == (match spec_files_from_document(
                doc,
                args,
                fuel,
                i + 1,
            ) {
                Err(m) => Err::<(Seq<(Seq<char>, Seq<EntryV>)>, Seq<WarnV>), Seq<char>>(m),
                Ok((gs, ws)) => Ok((xgroup + gs, bv.warnings + ws)),
            })
        }),
{
}

fn errors_message(errs: &Vec<OperationError>) -> (r: String)
    ensures
        r@ == spec_errors_message(op_errs_model(errs@)),
{
    proof {
        lemma_op_errs_model(errs@);
    }
    let head = "Found errors while parsing openapi file:\n\n".to_owned();
    let mut out = chars_of(head.as_str());
    let mut k: usize = 0;
    while k < errs.len()
        invariant
            k <= errs@.len(),
            op_errs_model(errs@).len() == errs@.len(),
            forall|j: int|
                0 <= j < errs@.len() ==> op_errs_model(errs@)[j] == op_err_model(
                    #[trigger] errs@[j],
                ),
            out@ == "Found errors while parsing openapi file:\n\n"@ + spec_error_join(
                op_errs_model(errs@),
                k as int,
            ),
        decreases errs@.len() - k,
    {
        if k > 0 {
            out.push('\n');
        }
        let msg = errs[k].message();
        let msgc = chars_of(msg.as_str());
        push_all(&mut out, &msgc);
        k = k + 1;
        proof {
            assert(out@ =~= "Found errors while parsing openapi file:\n\n"@ + spec_error_join(
                op_errs_model(errs@),
                k as int,
            ));
        }
    }
    proof {
        assert(out@ =~= spec_errors_message(op_errs_model(errs@)));
    }
    string_from_chars(&out)
}

/// Walks the whole document into grouped test files, one group per path
/// template, collecting warnings, and stopping with a joined message where
/// a path item fails and the configuration says to terminate.
#[verifier::rlimit(100)]
pub fn files_from_document(doc: &Document, args: &Settings) -> (r: Result<
    (Vec<(String, Vec<LocalHurlFile>)>, Vec<Warning>),
    String,
>)
    ensures
        (match spec_files_from_document(*doc, *args, crate::document::DEPTH_LIMIT as nat, 0) {
            Ok((gs, ws)) => r matches Ok(pair) && groups_model(pair.0@) == gs && warn_seq_model(
                pair.1@,
            ) == ws,
            Err(m) => r matches Err(s) && s@ == m,
        }),
{
    let ghost fuel = crate::document::DEPTH_LIMIT as nat;
    let mut groups: Vec<(String, Vec<LocalHurlFile>)> = Vec::new();
    let mut warns: Vec<Warning> = Vec::new();
    let mut i: usize = 0;
    let n = doc.paths.len();
    proof {
        assert(groups_model(Seq::<(String, Vec<LocalHurlFile>)>::empty()) =~= Seq::<
            (Seq<char>, Seq<EntryV>),
        >::empty());
        assert(warn_seq_model(Seq::<Warning>::empty()) =~= Seq::<WarnV>::empty());
    }
    while i < n
        invariant
            i <= n,
            n == doc.paths@.len(),
            fuel == crate::document::DEPTH_LIMIT as nat,
            (match spec_files_from_document(*doc, *args, fuel, 0) {
                Ok((gs, ws)) => spec_files_from_document(*doc, *args, fuel, i as int) matches Ok(
                    rest,
                ) && gs == groups_model(groups@) + rest.0 && ws == warn_seq_model(warns@)
                    + rest.1,
                Err(m) => (match spec_files_from_document(*doc, *args, fuel, i as int) {
                    Ok(_) => false,
                    Err(m2) => m2 == m,
                }),
            }),
        decreases n - i,
    {
        let pname: &String = &doc.paths[i].0;
        let pitem: &PathItem = &doc.paths[i].1;
        proof {
            assert(*pname == doc.paths@[i as int].0);
            assert(*pitem == doc.paths@[i as int].1);
        }
        let hf = HurlFiles::from_oai_path((pname, pitem), doc, args);
        let ghost bv = spec_from_oai_path(doc.paths@[i as int].0@, doc.paths@[i as int].1, *doc,
            *args, fuel);
        proof {
            assert(hurl_files_model(hf) == bv);
            lemma_op_errs_model(hf.errors@);
            lemma_entries_model_len(hf.hurl_files@);
        }
        if hf.errors.len() > 0 {
            match args.error_handling {
                ErrorHandling::Terminate => {
                    proof {
                        assert(bv.errors.len() > 0);
                    }
                    return Err(errors_message(&hf.errors));
                },
                ErrorHandling::Log => {},
            }
        }
        proof {
            assert(!(bv.errors.len() > 0 && args.error_handling == ErrorHandling::Terminate));
        }
        let files = hf.hurl_files;
        let mut w = hf.warnings;
        let ghost gm_old = groups_model(groups@);
        let ghost wm_old = warn_seq_model(warns@);
        let ghost wview = w@;
        let ghost warnspre = warns@;
        warns.append(&mut w);
        proof {
            crate::errors::lemma_warn_seq_model_add(warnspre, wview);
        }
        let ghost xgroup: Seq<(Seq<char>, Seq<EntryV>)> = if bv.files.len() > 0 {
            seq![(spec_replace(doc.paths@[i as int].0@, seq!['/'], seq!['_']), bv.files)]
        } else {
            Seq::empty()
        };
        if files.len() > 0 {
            let slash = "/".to_owned();
            let under = "_".to_owned();
            proof {
                reveal_strlit("/");
                reveal_strlit("_");
                assert(slash@ =~= seq!['/']);
                assert(under@ =~= seq!['_']);
            }
            let name = str_replace(pname, &slash, &under);
            let ghost groupspre = groups@;
            groups.push((name, files));
            proof {
                assert(groups@.drop_last() =~= groupspre);
                assert(groups@.last().0@ == spec_replace(doc.paths@[i as int].0@, seq!['/'],
                    seq!['_']));
                assert(entries_model(groups@.last().1@) == bv.files);
                assert(groups_model(groups@) == groups_model(groupspre).push(
                    (groups@.last().0@, entries_model(groups@.last().1@)),
                ));
                assert(groups_model(groups@) =~~= gm_old + xgroup);
            }
        } else {
            proof {
                assert(groups_model(groups@) + xgroup =~~= groups_model(groups@));
            }
        }
        i = i + 1;
        proof {
            lemma_files_step(*doc, *args, fuel, (i - 1) as int);
            let rest1 = spec_files_from_document(*doc, *args, fuel, i as int);
            let rest0 = spec_files_from_document(*doc, *args, fuel, (i - 1) as int);
            match rest0 {
                Ok(p0) => {
                    match rest1 {
                        Ok(p1) => {
                            assert(p0.0 == xgroup + p1.0);
                            assert(p0.1 == bv.warnings + p1.1);
                            assert(gm_old + (xgroup + p1.0) =~~= (gm_old + xgroup) + p1.0);
                            assert(wm_old + (bv.warnings + p1.1) =~= (wm_old + bv.warnings)
                                + p1.1);
                        },
                        Err(_) => {},
                    }
                },
                Err(_) => {},
            }
        }
    }
    proof {
        assert(groups_model(groups@) + Seq::<(Seq<char>, Seq<EntryV>)>::empty() =~=
            groups_model(groups@));
        assert(warn_seq_model(warns@) + Seq::<WarnV>::empty() =~= warn_seq_model(warns@));
    }
    Ok((groups, warns))
}

} // verus!
