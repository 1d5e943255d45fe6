//! Errors and warnings that synthesis can produce.  A broken or cyclic
//! reference is fatal to the current operation; unsupported content types and
//! numeric bounds too large for an integer literal are recoverable and
//! surface as warnings.

use vstd::prelude::*;

verus! {

/// A failure of reference resolution, fatal to the operation being
/// synthesized.
#[derive(Debug, PartialEq, Eq)]
pub enum SchemaError {
    /// The pointer path does not lead to a component of the document.
    BrokenReference(String),
    /// Following the pointer exceeded the depth allowance, which is how a
    /// reference cycle surfaces.
    ReferenceCycle(String),
}

/// The model of a resolution failure.
pub enum SchemaErrorV {
    BrokenReference(Seq<char>),
    ReferenceCycle(Seq<char>),
}

/// The model of a resolution failure.
pub open spec fn schema_error_model(e: SchemaError) -> SchemaErrorV {
    match e {
        SchemaError::BrokenReference(p) => SchemaErrorV::BrokenReference(p@),
        SchemaError::ReferenceCycle(p) => SchemaErrorV::ReferenceCycle(p@),
    }
}

impl View for SchemaError {
    type V = SchemaErrorV;

    open spec fn view(&self) -> SchemaErrorV {
        schema_error_model(*self)
    }
}

/// A resolution failure together with the operation it belongs to, where one
/// is known.
#[derive(Debug, PartialEq, Eq)]
pub enum OperationError {
    Ref(Option<String>, SchemaError),
}

/// The text of a resolution failure.
pub open spec fn spec_schema_error_text(e: SchemaErrorV) -> Seq<char> {
    match e {
        SchemaErrorV::BrokenReference(p) => "broken reference: "@ + p,
        SchemaErrorV::ReferenceCycle(p) => "reference cycle or depth limit at: "@ + p,
    }
}

/// The text of an operation error: the operation id, where one is known,
/// followed by the failure.
pub open spec fn spec_operation_error_text(id: Option<Seq<char>>, e: SchemaErrorV) -> Seq<char> {
    match id {
        Some(s) => s + ": "@ + spec_schema_error_text(e),
        None => spec_schema_error_text(e),
    }
}

impl SchemaError {
    /// The text of the failure.
    pub fn message(&self) -> (r: String)
        ensures
            r@ == spec_schema_error_text(self@),
    {
        match self {
            SchemaError::BrokenReference(p) => {
                let s = "broken reference: ".to_owned();
                s.concat(p.as_str())
            },
            SchemaError::ReferenceCycle(p) => {
                let s = "reference cycle or depth limit at: ".to_owned();
                s.concat(p.as_str())
            },
        }
    }
}

impl OperationError {
    /// The text of the error.
    pub fn message(&self) -> (r: String)
        ensures
            (match self {
                OperationError::Ref(id, e) => r@ == spec_operation_error_text(
                    match id {
                        Some(s) => Some(s@),
                        None => None,
                    },
                    e@,
                ),
            }),
    {
        match self {
            OperationError::Ref(id, e) => {
                match id {
                    Some(s) => {
                        let head = s.clone();
                        let head = head.concat(": ");
                        head.concat(e.message().as_str())
                    },
                    None => e.message(),
                }
            },
        }
    }
}

/// A recoverable condition that synthesis reports and works around.
#[derive(Debug, PartialEq, Eq)]
pub enum Warning {
    /// The requested content type is not declared; the named one is used
    /// instead.
    ContentTypeFallback { operation_id: String, requested: String, used: String },
    /// No declared content type is supported; the body is left empty.
    UnsupportedContentTypes { operation_id: String },
    /// An item-count bound does not fit the integer literal of a count
    /// assertion; that assertion is dropped.
    NumericBoundOverflow { title: String, bound: u64, is_min: bool },
}

/// The model of a warning.
pub enum WarnV {
    ContentTypeFallback { operation_id: Seq<char>, requested: Seq<char>, used: Seq<char> },
    UnsupportedContentTypes { operation_id: Seq<char> },
    NumericBoundOverflow { title: Seq<char>, bound: u64, is_min: bool },
}

/// The model of a warning.
pub open spec fn warning_model(w: Warning) -> WarnV {
    match w {
        Warning::ContentTypeFallback { operation_id, requested, used } => (
        WarnV::ContentTypeFallback {
            operation_id: operation_id@,
            requested: requested@,
            used: used@,
        }),
        Warning::UnsupportedContentTypes { operation_id } => (WarnV::UnsupportedContentTypes {
            operation_id: operation_id@,
        }),
        Warning::NumericBoundOverflow { title, bound, is_min } => (WarnV::NumericBoundOverflow {
            title: title@,
            bound: bound,
            is_min: is_min,
        }),
    }
}

impl View for Warning {
    type V = WarnV;

    open spec fn view(&self) -> WarnV {
        warning_model(*self)
    }
}

/// The models of a sequence of warnings.
pub open spec fn warn_seq_model(s: Seq<Warning>) -> Seq<WarnV>
    decreases s,
{
    if s.len() == 0 {
        Seq::empty()
    } else {
        warn_seq_model(s.drop_last()).push(warning_model(s.last()))
    }
}

/// The model of a pushed warning is the pushed model.
pub proof fn lemma_warn_seq_model_push(s: Seq<Warning>, x: Warning)
    ensures
        warn_seq_model(s.push(x)) == warn_seq_model(s).push(warning_model(x)),
{
    assert(s.push(x).drop_last() =~= s);
    assert(s.push(x).last() == x);
}

/// Appending distributes over the warning-sequence model.
pub proof fn lemma_warn_seq_model_add(a: Seq<Warning>, b: Seq<Warning>)
    ensures
        warn_seq_model(a + b) == warn_seq_model(a) + warn_seq_model(b),
    decreases b,
{
    if b.len() == 0 {
        assert(a + b =~= a);
        assert(warn_seq_model(a) + warn_seq_model(b) =~= warn_seq_model(a));
    } else {
        lemma_warn_seq_model_add(a, b.drop_last());
        assert((a + b).drop_last() =~= a + b.drop_last());
        assert((a + b).last() == b.last());
        assert(warn_seq_model(a) + warn_seq_model(b) =~= (warn_seq_model(a) + warn_seq_model(
            b.drop_last(),
        )).push(warning_model(b.last())));
    }
}

} // verus!
