//! Request body synthesis: negotiates a media type among the declared ones,
//! resolves its schema, and renders either a JSON example value under the
//! formatting policy or a plain-text body from the schema's example.

use vstd::prelude::*;
use crate::cli::Formatting;
use crate::content::{
    select_content, spec_marker, spec_select_content, spec_supported, ContentType,
};
use crate::document::{spec_resolve_schema, resolve_schema, Document, RequestBodyObject};
use crate::errors::{warn_seq_model, SchemaError, SchemaErrorV, WarnV, Warning};
use crate::example::{parse_json_from_schema, spec_example};
use crate::literal::{
    lit_model, render_json_compact, render_json_pretty, spec_json_compact, spec_json_pretty,
    LitV, LiteralValue,
};
use crate::schema::Schema;
use crate::settings::Settings;
use crate::text::{chars_of, slice_chars, str_contains, string_from_chars};

verus! {

/// What body synthesis needs of the configuration.
#[derive(Clone, Copy, Debug, PartialEq, Eq, Structural)]
pub struct SpecBodySettings {
    pub formatting: Formatting,
    pub content_type: ContentType,
}

impl SpecBodySettings {
    /// The body settings a configuration carries.
    pub fn from_settings(settings: &Settings) -> (r: SpecBodySettings)
        ensures
            r.formatting == settings.formatting,
            r.content_type == settings.content_type,
    {
        SpecBodySettings { formatting: settings.formatting, content_type: settings.content_type }
    }
}

/// A synthesized request body: JSON text, or plain text.
#[derive(Debug, PartialEq, Eq)]
pub enum BodyValue {
    Json(String),
    Text(String),
}

/// The model of a synthesized request body.
pub enum BodyV {
    Json(Seq<char>),
    Text(Seq<char>),
}

/// The model of a synthesized request body.
pub open spec fn body_model(b: BodyValue) -> BodyV {
    match b {
        BodyValue::Json(t) => BodyV::Json(t@),
        BodyValue::Text(t) => BodyV::Text(t@),
    }
}

impl View for BodyValue {
    type V = BodyV;

    open spec fn view(&self) -> BodyV {
        body_model(*self)
    }
}

/// The string with its first and last characters removed; one character or
/// less leaves nothing.
pub open spec fn spec_rem_first_and_last(s: Seq<char>) -> Seq<char> {
    if s.len() <= 1 {
        Seq::empty()
    } else {
        s.subrange(1, s.len() - 1)
    }
}

/// Removes the first and last characters of the string, however it is
/// quoted.
pub fn rem_first_and_last(value: String) -> (r: String)
    ensures
        r@ == spec_rem_first_and_last(value@),
{
    let cs = chars_of(value.as_str());
    if cs.len() <= 1 {
        let empty: Vec<char> = Vec::new();
        string_from_chars(&empty)
    } else {
        let inner = slice_chars(&cs, 1, cs.len() - 1);
        string_from_chars(&inner)
    }
}

/// The space between JSON list elements under a formatting policy: none
/// without formatting, one with it.
pub fn build_json_list_space(formatting: &Formatting) -> (r: String)
    ensures
        formatting == Formatting::NoFormatting ==> r@ == ""@,
        formatting == Formatting::RequestBodies ==> r@ == " "@,
{
    match formatting {
        Formatting::NoFormatting => "".to_owned(),
        Formatting::RequestBodies => " ".to_owned(),
    }
}

/// The JSON text of a value under a formatting policy.
pub open spec fn spec_json_string(v: LitV, formatting: Formatting) -> Seq<char> {
    match formatting {
        Formatting::NoFormatting => spec_json_compact(v),
        Formatting::RequestBodies => spec_json_pretty(v, 0),
    }
}

/// Renders a value as JSON text: compact without formatting, indented with
/// it.
pub fn to_json_string(json_value: &LiteralValue, settings: &SpecBodySettings) -> (r: String)
    ensures
        r@ == spec_json_string(json_value@, settings.formatting),
{
    match settings.formatting {
        Formatting::NoFormatting => render_json_compact(json_value),
        Formatting::RequestBodies => render_json_pretty(json_value),
    }
}

/// The plain-text body of a schema: nothing for a read-only node; the
/// example's compact JSON text with its first and last characters stripped,
/// to undo the quoting that generic literal rendering adds; an empty text
/// where no example is declared.
pub open spec fn spec_plain_text(schema: Schema) -> Option<Seq<char>> {
    if schema.read_only {
        None
    } else {
        match schema.example {
            Some(e) => Some(spec_rem_first_and_last(spec_json_compact(lit_model(e)))),
            None => Some(Seq::empty()),
        }
    }
}

/// Renders the plain-text body of a schema.
pub fn parse_plain_text(schema: &Schema) -> (r: Option<String>)
    ensures
        (match spec_plain_text(*schema) {
            Some(t) => r matches Some(s) && s@ == t,
            None => r is None,
        }),
{
    if schema.read_only {
        return None;
    }
    match &schema.example {
        Some(e) => Some(rem_first_and_last(render_json_compact(e))),
        None => {
            let empty: Vec<char> = Vec::new();
            Some(string_from_chars(&empty))
        },
    }
}

/// The request body synthesized for a declared body: the negotiated media
/// type's schema rendered as JSON or plain text, with a warning where the
/// preferred kind was missing or nothing was supported; the only failure is
/// a broken or cyclic reference.
pub open spec fn spec_from_spec_body(
    spec_body: RequestBodyObject,
    doc: Document,
    operation_id: Seq<char>,
    settings: SpecBodySettings,
    fuel: nat,
) -> Result<(Option<BodyV>, Seq<WarnV>), SchemaErrorV> {
    match spec_select_content(spec_body.content@, settings.content_type) {
        None => Ok(
            (
                None,
                seq![WarnV::UnsupportedContentTypes { operation_id: operation_id }],
            ),
        ),
        Some((i, fallback)) => {
            let media = spec_body.content@[i].0@;
            let warns: Seq<WarnV> = if fallback {
                seq![
                    WarnV::ContentTypeFallback {
                        operation_id: operation_id,
                        requested: spec_marker(settings.content_type),
                        used: media,
                    },
                ]
            } else {
                Seq::empty()
            };
            match spec_body.content@[i].1.schema {
                None => Ok((None, warns)),
                Some(sref) => match spec_resolve_schema(doc, sref, fuel) {
                    Err(e) => Err(e),
                    Ok(schema) => {
                        if !spec_supported(media) {
                            Ok(
                                (
                                    None,
                                    warns + seq![
                                        WarnV::UnsupportedContentTypes {
                                            operation_id: operation_id,
                                        },
                                    ],
                                ),
                            )
                        } else if spec_contains_text(media) {
                            match spec_plain_text(schema) {
                                Some(t) => Ok((Some(BodyV::Text(t)), warns)),
                                None => Ok((None, warns)),
                            }
                        } else {
                            match spec_example(doc, schema, fuel) {
                                Err(e) => Err(e),
                                Ok(None) => Ok((None, warns)),
                                Ok(Some(v)) => Ok(
                                    (
                                        Some(BodyV::Json(spec_json_string(v,
                                            settings.formatting))),
                                        warns,
                                    ),
                                ),
                            }
                        }
                    },
                },
            }
        },
    }
}

/// Whether a media-type string names the text kind.
pub open spec fn spec_contains_text(s: Seq<char>) -> bool {
    crate::text::spec_contains(s, "text"@)
}

/// Synthesizes the request body for a declared body under the configured
/// content kind and formatting.
pub fn from_spec_body(
    spec_body: &RequestBodyObject,
    doc: &Document,
    operation_id: String,
    settings: &SpecBodySettings,
    fuel: u64,
) -> (r: Result<(Option<BodyValue>, Vec<Warning>), SchemaError>)
    ensures
        (match spec_from_spec_body(*spec_body, *doc, operation_id@, *settings, fuel as nat) {
            Ok((ob, w)) => r matches Ok(pair) && warn_seq_model(pair.1@) == w && (match ob {
                Some(bv) => pair.0 matches Some(b) && b@ == bv,
                None => pair.0 is None,
            }),
            Err(e) => r matches Err(x) && x@ == e,
        }),
{
    let sel = select_content(&spec_body.content, &settings.content_type);
    match sel {
        None => {
            let mut warns: Vec<Warning> = Vec::new();
            warns.push(Warning::UnsupportedContentTypes { operation_id });
            proof {
                assert(warn_seq_model(warns@.drop_last()) =~= Seq::<WarnV>::empty());
                assert(warns@.drop_last() =~= Seq::<Warning>::empty());
                assert(warn_seq_model(warns@) =~= seq![
                    WarnV::UnsupportedContentTypes { operation_id: operation_id@ },
                ]);
            }
            Ok((None, warns))
        },
        Some((i, fallback)) => {
            let mut warns: Vec<Warning> = Vec::new();
            if fallback {
                warns.push(
                    Warning::ContentTypeFallback {
                        operation_id: operation_id.clone(),
                        requested: settings.content_type.to_str().to_owned(),
                        used: spec_body.content[i].0.clone(),
                    },
                );
                proof {
                    assert(warns@.drop_last() =~= Seq::<Warning>::empty());
                    assert(warn_seq_model(warns@.drop_last()) =~= Seq::<WarnV>::empty());
                }
            }
            match &spec_body.content[i].1.schema {
                None => Ok((None, warns)),
                Some(sref) => {
                    let schema = match resolve_schema(doc, sref, fuel) {
                        Ok(s) => s,
                        Err(e) => {
                            return Err(e);
                        },
                    };
                    if !ContentType::is_supported(&spec_body.content[i].0) {
                        let ghost w0 = warns@;
                        warns.push(Warning::UnsupportedContentTypes { operation_id });
                        proof {
                            crate::errors::lemma_warn_seq_model_push(w0, warns@.last());
                            assert(warns@ =~= w0.push(warns@.last()));
                        }
                        Ok((None, warns))
                    } else {
                        let text_marker = "text".to_owned();
                        if str_contains(&spec_body.content[i].0, &text_marker) {
                            match parse_plain_text(schema) {
                                Some(t) => Ok((Some(BodyValue::Text(t)), warns)),
                                None => Ok((None, warns)),
                            }
                        } else {
                            match parse_json_from_schema(schema, doc, fuel) {
                                Err(e) => Err(e),
                                Ok(None) => Ok((None, warns)),
                                Ok(Some(v)) => Ok(
                                    (
                                        Some(BodyValue::Json(to_json_string(&v, settings))),
                                        warns,
                                    ),
                                ),
                            }
                        }
                    }
                },
            }
        },
    }
}

} // verus!
