//! Response assertions: the predicate model, the builders shared by the text
//! and JSON paths, and the flat assertion sets for scalar and array schemas.
//! Numeric bounds render as integer literals where their text reads as one,
//! and as float literals otherwise; string length bounds become regex
//! matches.

use vstd::prelude::*;
use crate::errors::{WarnV, Warning};
use crate::num::{parse_i64_chars, spec_dec_nat, spec_parse_i64, u64_to_dec_chars};
use crate::schema::Schema;
use crate::text::{chars_of, push_all, string_from_chars};

verus! {

/// What a response assertion queries: the status line, the whole body, or a
/// JSON path into the body.
#[derive(Debug, PartialEq, Eq)]
pub enum QueryExpr {
    Status,
    Body,
    Jsonpath(String),
}

/// The model of a query expression.
pub enum QueryV {
    Status,
    Body,
    Jsonpath(Seq<char>),
}

/// The model of a query expression.
pub open spec fn query_model(q: QueryExpr) -> QueryV {
    match q {
        QueryExpr::Status => QueryV::Status,
        QueryExpr::Body => QueryV::Body,
        QueryExpr::Jsonpath(p) => QueryV::Jsonpath(p@),
    }
}

impl View for QueryExpr {
    type V = QueryV;

    open spec fn view(&self) -> QueryV {
        query_model(*self)
    }
}

impl QueryExpr {
    /// A structurally equal copy.
    pub fn duplicate(&self) -> (r: QueryExpr)
        ensures
            r@ == self@,
    {
        match self {
            QueryExpr::Status => QueryExpr::Status,
            QueryExpr::Body => QueryExpr::Body,
            QueryExpr::Jsonpath(p) => QueryExpr::Jsonpath(p.clone()),
        }
    }
}

/// A comparison operator of an assertion predicate.
#[derive(Clone, Copy, Debug, PartialEq, Eq, Structural)]
pub enum CompareOp {
    Less,
    LessOrEqual,
    Greater,
    GreaterOrEqual,
}

/// The numeric literal of a comparison: an integer, or a float carried by
/// its decimal text.
#[derive(Debug, PartialEq, Eq)]
pub enum PredicateNumber {
    Int(i64),
    Float(String),
}

/// The model of a predicate number.
pub enum PredNumV {
    Int(i64),
    Float(Seq<char>),
}

/// The model of a predicate number.
pub open spec fn prednum_model(n: PredicateNumber) -> PredNumV {
    match n {
        PredicateNumber::Int(v) => PredNumV::Int(v),
        PredicateNumber::Float(t) => PredNumV::Float(t@),
    }
}

/// What an assertion checks of the queried value.
#[derive(Debug, PartialEq, Eq)]
pub enum PredicateFunc {
    IsBoolean,
    IsInteger,
    IsFloat,
    IsString,
    IsCollection,
    /// The value matches the regex whose source is carried.
    Matches(String),
    /// The value compares against a numeric literal.
    Compare(CompareOp, PredicateNumber),
    /// The element count of the value compares against an integer literal.
    CountCompare(CompareOp, i64),
}

/// The model of a predicate.
pub enum PredV {
    IsBoolean,
    IsInteger,
    IsFloat,
    IsString,
    IsCollection,
    Matches(Seq<char>),
    Compare(CompareOp, PredNumV),
    CountCompare(CompareOp, i64),
}

/// The model of a predicate.
pub open spec fn pred_model(p: PredicateFunc) -> PredV {
    match p {
        PredicateFunc::IsBoolean => PredV::IsBoolean,
        PredicateFunc::IsInteger => PredV::IsInteger,
        PredicateFunc::IsFloat => PredV::IsFloat,
        PredicateFunc::IsString => PredV::IsString,
        PredicateFunc::IsCollection => PredV::IsCollection,
        PredicateFunc::Matches(s) => PredV::Matches(s@),
        PredicateFunc::Compare(op, n) => PredV::Compare(op, prednum_model(n)),
        PredicateFunc::CountCompare(op, n) => PredV::CountCompare(op, n),
    }
}

/// One response assertion: a query, a predicate, and an optional trailing
/// comment.
#[derive(Debug, PartialEq, Eq)]
pub struct Assertion {
    pub query: QueryExpr,
    pub predicate: PredicateFunc,
    pub comment: Option<String>,
}

/// The model of an assertion.
pub struct AssertV {
    pub query: QueryV,
    pub predicate: PredV,
    pub comment: Option<Seq<char>>,
}

/// The model of an assertion.
pub open spec fn assert_model(a: Assertion) -> AssertV {
    AssertV {
        query: query_model(a.query),
        predicate: pred_model(a.predicate),
        comment: match a.comment {
            Some(c) => Some(c@),
            None => None,
        },
    }
}

impl View for Assertion {
    type V = AssertV;

    open spec fn view(&self) -> AssertV {
        assert_model(*self)
    }
}

/// The models of a sequence of assertions.
pub open spec fn assert_seq_model(s: Seq<Assertion>) -> Seq<AssertV>
    decreases s,
{
    if s.len() == 0 {
        Seq::empty()
    } else {
        assert_seq_model(s.drop_last()).push(assert_model(s.last()))
    }
}

/// Appending distributes over the assertion-sequence model.
pub proof fn lemma_assert_seq_model_add(a: Seq<Assertion>, b: Seq<Assertion>)
    ensures
        assert_seq_model(a + b) == assert_seq_model(a) + assert_seq_model(b),
    decreases b,
{
    if b.len() == 0 {
        assert(a + b =~= a);
        assert(assert_seq_model(a) + assert_seq_model(b) =~= assert_seq_model(a));
    } else {
        lemma_assert_seq_model_add(a, b.drop_last());
        assert((a + b).drop_last() =~= a + b.drop_last());
        assert((a + b).last() == b.last());
        assert(assert_seq_model(a) + assert_seq_model(b) =~= (assert_seq_model(a)
            + assert_seq_model(b.drop_last())).push(assert_model(b.last())));
    }
}

/// The model of a pushed assertion is the pushed model.
pub proof fn lemma_assert_seq_model_push(s: Seq<Assertion>, x: Assertion)
    ensures
        assert_seq_model(s.push(x)) == assert_seq_model(s).push(assert_model(x)),
{
    assert(s.push(x).drop_last() =~= s);
    assert(s.push(x).last() == x);
}

/// The model of a bare assertion of `p` at `q`.
pub open spec fn spec_assert_of(q: QueryV, p: PredV) -> AssertV {
    AssertV { query: q, predicate: p, comment: None }
}

/// An assertion that the value at `query` satisfies `predicate`.
pub fn assert_query_matches_predicate(query: &QueryExpr, predicate: PredicateFunc) -> (r:
    Assertion)
    ensures
        r@ == spec_assert_of(query@, pred_model(predicate)),
{
    Assertion { query: query.duplicate(), predicate, comment: None }
}

/// An assertion that the value at `query` satisfies `predicate`, with a
/// trailing comment.
pub fn assert_query_matches_with_comment(
    query: &QueryExpr,
    predicate: PredicateFunc,
    comment: String,
) -> (r: Assertion)
    ensures
        r@ == (AssertV {
            query: query@,
            predicate: pred_model(predicate),
            comment: Some(comment@),
        }),
{
    Assertion { query: query.duplicate(), predicate, comment: Some(comment) }
}

/// The model of the status assertion `status < num`.
pub open spec fn spec_status_less_than(num: i64) -> AssertV {
    spec_assert_of(QueryV::Status, PredV::Compare(CompareOp::Less, PredNumV::Int(num)))
}

/// The assertion that the response status is below `num`.
pub fn assert_status_less_than(num: i64) -> (r: Assertion)
    ensures
        r@ == spec_status_less_than(num),
{
    Assertion {
        query: QueryExpr::Status,
        predicate: PredicateFunc::Compare(CompareOp::Less, PredicateNumber::Int(num)),
        comment: None,
    }
}

/// The numeric literal a bound's text renders as: an integer literal where
/// the text reads as an `i64`, its float form otherwise.
pub open spec fn spec_bound_num(t: Seq<char>) -> PredNumV {
    match spec_parse_i64(t) {
        Some(v) => PredNumV::Int(v),
        None => PredNumV::Float(t),
    }
}

/// Renders a bound's text as a predicate number: an integer literal where
/// the text reads as an `i64`, its float form otherwise.
pub fn predicate_integer_number(t: &String) -> (r: PredicateNumber)
    ensures
        prednum_model(r) == spec_bound_num(t@),
{
    let cs = chars_of(t.as_str());
    match parse_i64_chars(&cs) {
        Some(v) => PredicateNumber::Int(v),
        None => PredicateNumber::Float(t.clone()),
    }
}

/// The assertions for an integer schema: the type check, then a lower and an
/// upper bound where declared, strict where the bound is exclusive, each
/// rendered as an integer literal where its text reads as one.
pub open spec fn spec_int_asserts(schema: Schema, q: QueryV) -> Seq<AssertV> {
    let s0 = seq![spec_assert_of(q, PredV::IsInteger)];
    let s1 = match schema.minimum {
        Some(t) => s0.push(
            spec_assert_of(
                q,
                PredV::Compare(
                    if schema.exclusive_minimum {
                        CompareOp::Greater
                    } else {
                        CompareOp::GreaterOrEqual
                    },
                    spec_bound_num(t@),
                ),
            ),
        ),
        None => s0,
    };
    match schema.maximum {
        Some(t) => s1.push(
            spec_assert_of(
                q,
                PredV::Compare(
                    if schema.exclusive_maximum {
                        CompareOp::Less
                    } else {
                        CompareOp::LessOrEqual
                    },
                    spec_bound_num(t@),
                ),
            ),
        ),
        None => s1,
    }
}

/// The assertions for a number schema: the type check, then bounds as float
/// literals.
pub open spec fn spec_number_asserts(schema: Schema, q: QueryV) -> Seq<AssertV> {
    let s0 = seq![spec_assert_of(q, PredV::IsFloat)];
    let s1 = match schema.minimum {
        Some(t) => s0.push(
            spec_assert_of(
                q,
                PredV::Compare(
                    if schema.exclusive_minimum {
                        CompareOp::Greater
                    } else {
                        CompareOp::GreaterOrEqual
                    },
                    PredNumV::Float(t@),
                ),
            ),
        ),
        None => s0,
    };
    match schema.maximum {
        Some(t) => s1.push(
            spec_assert_of(
                q,
                PredV::Compare(
                    if schema.exclusive_maximum {
                        CompareOp::Less
                    } else {
                        CompareOp::LessOrEqual
                    },
                    PredNumV::Float(t@),
                ),
            ),
        ),
        None => s1,
    }
}

/// The regex source asserting a length of at least `min + 1` characters.
pub open spec fn spec_min_length_exclusive_regex(min: nat) -> Seq<char> {
    "^.{"@ + spec_dec_nat(min + 1) + "}"@
}

/// The regex source asserting a length of at most `max` characters.
pub open spec fn spec_max_length_regex(max: nat) -> Seq<char> {
    "^.{0,"@ + spec_dec_nat(max) + "}$"@
}

/// The assertions for a string schema: the type check; a pattern match where
/// a pattern is declared; then length bounds as regex matches.  A write-only
/// string contributes nothing.  An exclusive upper bound of zero stays at
/// zero rather than fall below it.
pub open spec fn spec_string_asserts(schema: Schema, q: QueryV) -> Seq<AssertV> {
    if schema.write_only {
        Seq::empty()
    } else {
        let s0 = seq![spec_assert_of(q, PredV::IsString)];
        let s1 = match schema.pattern {
            Some(p) => s0.push(spec_assert_of(q, PredV::Matches(p@))),
            None => s0,
        };
        let s2 = match schema.min_length {
            Some(min) => s1.push(
                AssertV {
                    query: q,
                    predicate: if schema.exclusive_minimum {
                        PredV::Matches(spec_min_length_exclusive_regex(min as nat))
                    } else {
                        PredV::Matches(spec_max_length_regex(min as nat))
                    },
                    comment: Some("assert min length"@),
                },
            ),
            None => s1,
        };
        match schema.max_length {
            Some(max) => s2.push(
                AssertV {
                    query: q,
                    predicate: if schema.exclusive_maximum {
                        PredV::Matches(
                            spec_max_length_regex(if max == 0 {
                                0
                            } else {
                                (max - 1) as nat
                            }),
                        )
                    } else {
                        PredV::Matches(spec_max_length_regex(max as nat))
                    },
                    comment: Some("assert max length"@),
                },
            ),
            None => s2,
        }
    }
}

/// The assertions and warnings for an array schema: the collection check,
/// then a count bound for each declared item bound that fits the integer
/// literal; one that does not fit is dropped with a warning naming the
/// schema.
pub open spec fn spec_array_asserts(schema: Schema, q: QueryV) -> (Seq<AssertV>, Seq<WarnV>) {
    let title = match schema.title {
        Some(t) => t@,
        None => "schema"@,
    };
    let s0 = seq![spec_assert_of(q, PredV::IsCollection)];
    let w0 = Seq::<WarnV>::empty();
    let (s1, w1): (Seq<AssertV>, Seq<WarnV>) = match schema.min_items {
        Some(n) => if n <= i64::MAX as u64 {
            (
                s0.push(
                    spec_assert_of(q, PredV::CountCompare(CompareOp::GreaterOrEqual, n as i64)),
                ),
                w0,
            )
        } else {
            (s0, w0.push(WarnV::NumericBoundOverflow { title: title, bound: n, is_min: true }))
        },
        None => (s0, w0),
    };
    match schema.max_items {
        Some(n) => if n <= i64::MAX as u64 {
            (
                s1.push(spec_assert_of(q, PredV::CountCompare(CompareOp::LessOrEqual, n as i64))),
                w1,
            )
        } else {
            (s1, w1.push(WarnV::NumericBoundOverflow { title: title, bound: n, is_min: false }))
        },
        None => (s1, w1),
    }
}

fn int_bound_assert(q: &QueryExpr, op: CompareOp, t: &String) -> (r: Assertion)
    ensures
        r@ == spec_assert_of(q@, PredV::Compare(op, spec_bound_num(t@))),
{
    assert_query_matches_predicate(q, PredicateFunc::Compare(op, predicate_integer_number(t)))
}

/// The assertions for an integer schema.
pub fn add_int_asserts(schema: &Schema, q: &QueryExpr) -> (r: Vec<Assertion>)
    ensures
        assert_seq_model(r@) == spec_int_asserts(*schema, q@),
{
    let mut out: Vec<Assertion> = Vec::new();
    out.push(assert_query_matches_predicate(q, PredicateFunc::IsInteger));
    proof {
        assert(assert_seq_model(Seq::<Assertion>::empty()) =~= Seq::<AssertV>::empty());
        lemma_assert_seq_model_push(Seq::<Assertion>::empty(), out@.last());
        assert(out@ =~= Seq::<Assertion>::empty().push(out@.last()));
    }
    match &schema.minimum {
        Some(t) => {
            let ghost pre = out@;
            let op = if schema.exclusive_minimum {
                CompareOp::Greater
            } else {
                CompareOp::GreaterOrEqual
            };
            out.push(int_bound_assert(q, op, t));
            proof {
                lemma_assert_seq_model_push(pre, out@.last());
                assert(out@ =~= pre.push(out@.last()));
            }
        },
        None => {},
    }
    match &schema.maximum {
        Some(t) => {
            let ghost pre = out@;
            let op = if schema.exclusive_maximum {
                CompareOp::Less
            } else {
                CompareOp::LessOrEqual
            };
            out.push(int_bound_assert(q, op, t));
            proof {
                lemma_assert_seq_model_push(pre, out@.last());
                assert(out@ =~= pre.push(out@.last()));
            }
        },
        None => {},
    }
    proof {
        assert(assert_seq_model(out@) =~= spec_int_asserts(*schema, q@));
    }
    out
}

fn float_bound_assert(q: &QueryExpr, op: CompareOp, t: &String) -> (r: Assertion)
    ensures
        r@ == spec_assert_of(q@, PredV::Compare(op, PredNumV::Float(t@))),
{
    assert_query_matches_predicate(
        q,
        PredicateFunc::Compare(op, PredicateNumber::Float(t.clone())),
    )
}

/// The assertions for a number schema.
pub fn add_number_asserts(schema: &Schema, q: &QueryExpr) -> (r: Vec<Assertion>)
    ensures
        assert_seq_model(r@) == spec_number_asserts(*schema, q@),
{
    let mut out: Vec<Assertion> = Vec::new();
    out.push(assert_query_matches_predicate(q, PredicateFunc::IsFloat));
    proof {
        assert(assert_seq_model(Seq::<Assertion>::empty()) =~= Seq::<AssertV>::empty());
        lemma_assert_seq_model_push(Seq::<Assertion>::empty(), out@.last());
        assert(out@ =~= Seq::<Assertion>::empty().push(out@.last()));
    }
    match &schema.minimum {
        Some(t) => {
            let ghost pre = out@;
            let op = if schema.exclusive_minimum {
                CompareOp::Greater
            } else {
                CompareOp::GreaterOrEqual
            };
            out.push(float_bound_assert(q, op, t));
            proof {
                lemma_assert_seq_model_push(pre, out@.last());
                assert(out@ =~= pre.push(out@.last()));
            }
        },
        None => {},
    }
    match &schema.maximum {
        Some(t) => {
            let ghost pre = out@;
            let op = if schema.exclusive_maximum {
                CompareOp::Less
            } else {
                CompareOp::LessOrEqual
            };
            out.push(float_bound_assert(q, op, t));
            proof {
                lemma_assert_seq_model_push(pre, out@.last());
                assert(out@ =~= pre.push(out@.last()));
            }
        },
        None => {},
    }
    proof {
        assert(assert_seq_model(out@) =~= spec_number_asserts(*schema, q@));
    }
    out
}

fn min_length_exclusive_regex(min: u64) -> (r: String)
    ensures
        r@ == spec_min_length_exclusive_regex(min as nat),
{
    let mut cs = chars_of("^.{");
    if min == u64::MAX {
        let mut digits = u64_to_dec_chars(1844674407370955161u64);
        proof {
            assert((u64::MAX as nat) + 1 == 18446744073709551616nat);
            assert(18446744073709551616nat == 1844674407370955161nat * 10 + 6);
            assert(18446744073709551616nat / 10 == 1844674407370955161nat);
            assert(18446744073709551616nat % 10 == 6nat);
        }
        cs.append(&mut digits);
        cs.push('6');
        proof {
            assert(spec_dec_nat(18446744073709551616nat) == spec_dec_nat(1844674407370955161nat)
                + seq![crate::num::spec_digit(6)]);
            assert(cs@ =~= "^.{"@ + spec_dec_nat((min as nat) + 1));
        }
    } else {
        let mut digits = u64_to_dec_chars(min + 1);
        cs.append(&mut digits);
    }
    let mut tail = chars_of("}");
    cs.append(&mut tail);
    proof {
        assert(cs@ =~= spec_min_length_exclusive_regex(min as nat));
    }
    string_from_chars(&cs)
}

fn max_length_regex(max: u64) -> (r: String)
    ensures
        r@ == spec_max_length_regex(max as nat),
{
    let mut cs = chars_of("^.{0,");
    let mut digits = u64_to_dec_chars(max);
    cs.append(&mut digits);
    let mut tail = chars_of("}$");
    cs.append(&mut tail);
    proof {
        assert(cs@ =~= spec_max_length_regex(max as nat));
    }
    string_from_chars(&cs)
}

/// The assertions for a string schema, shared by the JSON body walk and the
/// plain-text body check.
pub fn parse_string_asserts(schema: &Schema, q: &QueryExpr) -> (r: Vec<Assertion>)
    ensures
        assert_seq_model(r@) == spec_string_asserts(*schema, q@),
{
    let mut out: Vec<Assertion> = Vec::new();
    if schema.write_only {
        return out;
    }
    out.push(assert_query_matches_predicate(q, PredicateFunc::IsString));
    proof {
        assert(assert_seq_model(Seq::<Assertion>::empty()) =~= Seq::<AssertV>::empty());
        lemma_assert_seq_model_push(Seq::<Assertion>::empty(), out@.last());
        assert(out@ =~= Seq::<Assertion>::empty().push(out@.last()));
    }
    match &schema.pattern {
        Some(p) => {
            let ghost pre = out@;
            out.push(assert_query_matches_predicate(q, PredicateFunc::Matches(p.clone())));
            proof {
                lemma_assert_seq_model_push(pre, out@.last());
                assert(out@ =~= pre.push(out@.last()));
            }
        },
        None => {},
    }
    match &schema.min_length {
        Some(min) => {
            let ghost pre = out@;
            let regex = if schema.exclusive_minimum {
                min_length_exclusive_regex(*min)
            } else {
                max_length_regex(*min)
            };
            out.push(
                assert_query_matches_with_comment(
                    q,
                    PredicateFunc::Matches(regex),
                    "assert min length".to_owned(),
                ),
            );
            proof {
                lemma_assert_seq_model_push(pre, out@.last());
                assert(out@ =~= pre.push(out@.last()));
            }
        },
        None => {},
    }
    match &schema.max_length {
        Some(max) => {
            let ghost pre = out@;
            let bound: u64 = if schema.exclusive_maximum {
                if *max == 0 {
                    0
                } else {
                    *max - 1
                }
            } else {
                *max
            };
            out.push(
                assert_query_matches_with_comment(
                    q,
                    PredicateFunc::Matches(max_length_regex(bound)),
                    "assert max length".to_owned(),
                ),
            );
            proof {
                lemma_assert_seq_model_push(pre, out@.last());
                assert(out@ =~= pre.push(out@.last()));
            }
        },
        None => {},
    }
    proof {
        assert(assert_seq_model(out@) =~= spec_string_asserts(*schema, q@));
    }
    out
}

/// The assertions for an array schema, with a warning for each item-count
/// bound too large for an integer literal.
pub fn add_array_asserts(schema: &Schema, q: &QueryExpr, warnings: &mut Vec<Warning>) -> (r: Vec<
    Assertion,
>)
    ensures
        assert_seq_model(r@) == spec_array_asserts(*schema, q@).0,
        crate::errors::warn_seq_model(final(warnings)@) == crate::errors::warn_seq_model(
            old(warnings)@,
        ) + spec_array_asserts(*schema, q@).1,
{
    let mut out: Vec<Assertion> = Vec::new();
    let ghost w0 = warnings@;
    out.push(assert_query_matches_predicate(q, PredicateFunc::IsCollection));
    proof {
        assert(assert_seq_model(Seq::<Assertion>::empty()) =~= Seq::<AssertV>::empty());
        lemma_assert_seq_model_push(Seq::<Assertion>::empty(), out@.last());
        assert(out@ =~= Seq::<Assertion>::empty().push(out@.last()));
        assert(crate::errors::warn_seq_model(w0) + Seq::<WarnV>::empty() =~=
            crate::errors::warn_seq_model(w0));
    }
    match &schema.min_items {
        Some(n) => {
            let ghost pre = out@;
            let ghost wpre = warnings@;
            if *n <= 9223372036854775807u64 {
                out.push(
                    assert_query_matches_predicate(
                        q,
                        PredicateFunc::CountCompare(CompareOp::GreaterOrEqual, *n as i64),
                    ),
                );
                proof {
                    lemma_assert_seq_model_push(pre, out@.last());
                    assert(out@ =~= pre.push(out@.last()));
                }
            } else {
                let title = match &schema.title {
                    Some(t) => t.clone(),
                    None => "schema".to_owned(),
                };
                warnings.push(
                    Warning::NumericBoundOverflow { title, bound: *n, is_min: true },
                );
                proof {
                    crate::errors::lemma_warn_seq_model_push(wpre, warnings@.last());
                    assert(warnings@ =~= wpre.push(warnings@.last()));
                }
            }
        },
        None => {},
    }
    match &schema.max_items {
        Some(n) => {
            let ghost pre = out@;
            let ghost wpre = warnings@;
            if *n <= 9223372036854775807u64 {
                out.push(
                    assert_query_matches_predicate(
                        q,
                        PredicateFunc::CountCompare(CompareOp::LessOrEqual, *n as i64),
                    ),
                );
                proof {
                    lemma_assert_seq_model_push(pre, out@.last());
                    assert(out@ =~= pre.push(out@.last()));
                }
            } else {
                let title = match &schema.title {
                    Some(t) => t.clone(),
                    None => "schema".to_owned(),
                };
                warnings.push(
                    Warning::NumericBoundOverflow { title, bound: *n, is_min: false },
                );
                proof {
                    crate::errors::lemma_warn_seq_model_push(wpre, warnings@.last());
                    assert(warnings@ =~= wpre.push(warnings@.last()));
                }
            }
        },
        None => {},
    }
    proof {
        assert(assert_seq_model(out@) =~= spec_array_asserts(*schema, q@).0);
        assert(crate::errors::warn_seq_model(warnings@) =~= crate::errors::warn_seq_model(
            old(warnings)@,
        ) + spec_array_asserts(*schema, q@).1);
    }
    out
}

} // verus!
