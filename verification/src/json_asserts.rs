//! The assertion synthesizer for JSON response bodies: walks a resolved
//! schema and produces an ordered list of response assertions, headed by the
//! status check.  A nullable node or one composed with `oneOf`/`anyOf`
//! contributes nothing below itself; `allOf` branches are merged into one
//! synthetic object, later branches overwriting earlier same-named
//! properties and the node's own properties overwriting all of them; object
//! properties receive nested assertions only where required, unless the
//! policy treats optional properties as required.

use vstd::prelude::*;
use crate::asserts::{
    add_array_asserts, add_int_asserts, add_number_asserts, assert_query_matches_predicate,
    assert_seq_model, assert_status_less_than, lemma_assert_seq_model_push, parse_string_asserts,
    spec_array_asserts, spec_assert_of, spec_int_asserts, spec_number_asserts,
    spec_status_less_than, spec_string_asserts, AssertV, Assertion, PredV, PredicateFunc,
    QueryExpr, QueryV,
};
use crate::document::{resolve_schema, spec_resolve_schema, Document};
use crate::errors::{warn_seq_model, SchemaError, SchemaErrorV, WarnV, Warning};
use crate::response::HandleUnionsBy;
use crate::schema::{Schema, SchemaKind, SchemaOrRef};
use crate::text::{contains_string, str_in_list};

verus! {

/// The model of one property's contribution: its nested assertions and
/// warnings, or a marker for a property that is skipped.
pub open spec fn contrib_model(c: Option<(Vec<Assertion>, Vec<Warning>)>) -> Option<
    (Seq<AssertV>, Seq<WarnV>),
> {
    match c {
        Some((a, w)) => Some((assert_seq_model(a@), warn_seq_model(w@))),
        None => None,
    }
}

/// The models of a sequence of named contributions.
pub open spec fn contribs_model(s: Seq<(String, Option<(Vec<Assertion>, Vec<Warning>)>)>) -> Seq<
    (Seq<char>, Option<(Seq<AssertV>, Seq<WarnV>)>),
>
    decreases s,
{
    if s.len() == 0 {
        Seq::empty()
    } else {
        contribs_model(s.drop_last()).push((s.last().0@, contrib_model(s.last().1)))
    }
}

/// The model of a sequence of contributions is elementwise.
pub proof fn lemma_contribs_model(s: Seq<(String, Option<(Vec<Assertion>, Vec<Warning>)>)>)
    ensures
        contribs_model(s).len() == s.len(),
        forall|i: int|
            0 <= i < s.len() ==> contribs_model(s)[i] == ((#[trigger] s[i]).0@, contrib_model(
                s[i].1,
            )),
    decreases s,
{
    if s.len() > 0 {
        lemma_contribs_model(s.drop_last());
        assert(forall|i: int| 0 <= i < s.len() - 1 ==> s.drop_last()[i] == #[trigger] s[i]);
    }
}

/// Appending distributes over the contribution-sequence model.
pub proof fn lemma_contribs_model_add(
    a: Seq<(String, Option<(Vec<Assertion>, Vec<Warning>)>)>,
    b: Seq<(String, Option<(Vec<Assertion>, Vec<Warning>)>)>,
)
    ensures
        contribs_model(a + b) == contribs_model(a) + contribs_model(b),
    decreases b,
{
    if b.len() == 0 {
        assert(a + b =~= a);
        assert(contribs_model(a) + contribs_model(b) =~= contribs_model(a));
    } else {
        lemma_contribs_model_add(a, b.drop_last());
        assert((a + b).drop_last() =~= a + b.drop_last());
        assert((a + b).last() == b.last());
        assert(contribs_model(a) + contribs_model(b) =~= (contribs_model(a) + contribs_model(
            b.drop_last(),
        )).push((b.last().0@, contrib_model(b.last().1))));
    }
}

/// The first position of key `k` among the contributions, or a negative
/// value where it does not occur.
pub open spec fn spec_cfind(
    s: Seq<(Seq<char>, Option<(Seq<AssertV>, Seq<WarnV>)>)>,
    k: Seq<char>,
) -> int
    decreases s.len(),
{
    if s.len() == 0 {
        -1
    } else if s[0].0 == k {
        0
    } else {
        let r = spec_cfind(s.drop_first(), k);
        if r < 0 {
            -1
        } else {
            r + 1
        }
    }
}

/// The first position of `k` is a position of `k`, and nothing before it is
/// one.
pub proof fn lemma_cfind(s: Seq<(Seq<char>, Option<(Seq<AssertV>, Seq<WarnV>)>)>, k: Seq<char>)
    ensures
        spec_cfind(s, k) < 0 ==> forall|i: int| 0 <= i < s.len() ==> (#[trigger] s[i]).0 != k,
        spec_cfind(s, k) >= 0 ==> 0 <= spec_cfind(s, k) < s.len() && s[spec_cfind(s, k)].0 == k,
        spec_cfind(s, k) >= 0 ==> forall|i: int|
            0 <= i < spec_cfind(s, k) ==> (#[trigger] s[i]).0 != k,
    decreases s.len(),
{
    if s.len() > 0 && s[0].0 != k {
        lemma_cfind(s.drop_first(), k);
        assert(forall|i: int| 1 <= i < s.len() ==> s.drop_first()[i - 1] == #[trigger] s[i]);
    }
}

/// Writes `(k, v)` into the contribution map: in place of the first entry
/// named `k` where one exists, appended otherwise.
pub open spec fn spec_cupsert(
    s: Seq<(Seq<char>, Option<(Seq<AssertV>, Seq<WarnV>)>)>,
    k: Seq<char>,
    v: Option<(Seq<AssertV>, Seq<WarnV>)>,
) -> Seq<(Seq<char>, Option<(Seq<AssertV>, Seq<WarnV>)>)> {
    let f = spec_cfind(s, k);
    if f < 0 {
        s.push((k, v))
    } else {
        s.update(f, (k, v))
    }
}

/// The merge of a contribution sequence: entries are written left to right,
/// a later entry overwriting an earlier one of the same name in place, so
/// first-seen declaration order is kept.
pub open spec fn spec_cmerge(pairs: Seq<(Seq<char>, Option<(Seq<AssertV>, Seq<WarnV>)>)>) -> Seq<
    (Seq<char>, Option<(Seq<AssertV>, Seq<WarnV>)>),
>
    decreases pairs,
{
    if pairs.len() == 0 {
        Seq::empty()
    } else {
        spec_cupsert(spec_cmerge(pairs.drop_last()), pairs.last().0, pairs.last().1)
    }
}

/// The concatenation of the present contributions, assertions and warnings
/// each in order.
pub open spec fn spec_cflatten(s: Seq<(Seq<char>, Option<(Seq<AssertV>, Seq<WarnV>)>)>) -> (
    Seq<AssertV>,
    Seq<WarnV>,
)
    decreases s,
{
    if s.len() == 0 {
        (Seq::empty(), Seq::empty())
    } else {
        let (a, w) = spec_cflatten(s.drop_last());
        match s.last().1 {
            Some((ca, cw)) => (a + ca, w + cw),
            None => (a, w),
        }
    }
}

/// The JSON path of a property under its parent's path.
pub open spec fn spec_child_path(path: Seq<char>, name: Seq<char>) -> Seq<char> {
    path + "."@ + name
}

/// The assertions and warnings that a resolved schema contributes at a
/// query, under a union-handling policy and a depth allowance.
pub open spec fn spec_asserts(
    doc: Document,
    schema: Schema,
    q: QueryV,
    policy: HandleUnionsBy,
    fuel: nat,
) -> Result<(Seq<AssertV>, Seq<WarnV>), SchemaErrorV>
    decreases fuel, 0int, 0int,
{
    if fuel == 0 {
        Err(SchemaErrorV::ReferenceCycle(Seq::empty()))
    } else if schema.write_only {
        Ok((Seq::empty(), Seq::empty()))
    } else if schema.nullable || schema.one_of@.len() > 0 || schema.any_of@.len() > 0 {
        Ok((Seq::empty(), Seq::empty()))
    } else if schema.all_of@.len() > 0 {
        let head = seq![spec_assert_of(q, PredV::IsCollection)];
        match q {
            QueryV::Jsonpath(path) => match spec_allof_contribs(
                doc,
                schema.all_of@,
                schema.all_of@.len() as int,
                path,
                schema.required@,
                policy,
                (fuel - 1) as nat,
            ) {
                Err(e) => Err(e),
                Ok(bc) => match spec_prop_contribs(
                    doc,
                    schema.properties@,
                    schema.properties@.len() as int,
                    path,
                    schema.required@,
                    policy,
                    (fuel - 1) as nat,
                ) {
                    Err(e) => Err(e),
                    Ok(oc) => {
                        let (a, w) = spec_cflatten(spec_cmerge(bc + oc));
                        Ok((head + a, w))
                    },
                },
            },
            _ => Ok((head, Seq::empty())),
        }
    } else {
        match schema.kind {
            SchemaKind::Boolean => Ok(
                (seq![spec_assert_of(q, PredV::IsBoolean)], Seq::empty()),
            ),
            SchemaKind::Integer => Ok((spec_int_asserts(schema, q), Seq::empty())),
            SchemaKind::Number => Ok((spec_number_asserts(schema, q), Seq::empty())),
            SchemaKind::Str => Ok((spec_string_asserts(schema, q), Seq::empty())),
            SchemaKind::Array => Ok(spec_array_asserts(schema, q)),
            SchemaKind::Object => {
                let head = seq![spec_assert_of(q, PredV::IsCollection)];
                match q {
                    QueryV::Jsonpath(path) => match spec_obj_walk(
                        doc,
                        schema.properties@,
                        schema.properties@.len() as int,
                        path,
                        schema.required@,
                        policy,
                        (fuel - 1) as nat,
                    ) {
                        Err(e) => Err(e),
                        Ok((a, w)) => Ok((head + a, w)),
                    },
                    _ => Ok((head, Seq::empty())),
                }
            },
            SchemaKind::Unspecified => Ok((Seq::empty(), Seq::empty())),
        }
    }
}

/// The nested assertions of the first `i` properties of a plain object, in
/// declaration order: a property receives them where it is required or the
/// policy treats optional properties as required, and is skipped silently
/// otherwise.
pub open spec fn spec_obj_walk(
    doc: Document,
    props: Seq<(String, SchemaOrRef)>,
    i: int,
    path: Seq<char>,
    required: Seq<String>,
    policy: HandleUnionsBy,
    fuel: nat,
) -> Result<(Seq<AssertV>, Seq<WarnV>), SchemaErrorV>
    decreases fuel, 1int, i,
{
    if i <= 0 || props.len() < i {
        Ok((Seq::empty(), Seq::empty()))
    } else {
        match spec_obj_walk(doc, props, i - 1, path, required, policy, fuel) {
            Err(e) => Err(e),
            Ok((a, w)) => {
                if str_in_list(required, props[i - 1].0@) || policy
                    == HandleUnionsBy::TreatingOptionalsAsRequired {
                    match spec_resolve_schema(doc, props[i - 1].1, fuel) {
                        Err(e) => Err(e),
                        Ok(s) => match spec_asserts(
                            doc,
                            s,
                            QueryV::Jsonpath(spec_child_path(path, props[i - 1].0@)),
                            policy,
                            fuel,
                        ) {
                            Err(e) => Err(e),
                            Ok((ca, cw)) => Ok((a + ca, w + cw)),
                        },
                    }
                } else {
                    Ok((a, w))
                }
            },
        }
    }
}

/// The contribution of each of the first `i` properties of a merged branch,
/// in order: nested assertions for a required (or policy-covered) property,
/// a skip marker otherwise.
pub open spec fn spec_prop_contribs(
    doc: Document,
    props: Seq<(String, SchemaOrRef)>,
    i: int,
    path: Seq<char>,
    required: Seq<String>,
    policy: HandleUnionsBy,
    fuel: nat,
) -> Result<Seq<(Seq<char>, Option<(Seq<AssertV>, Seq<WarnV>)>)>, SchemaErrorV>
    decreases fuel, 2int, i,
{
    if i <= 0 || props.len() < i {
        Ok(Seq::empty())
    } else {
        match spec_prop_contribs(doc, props, i - 1, path, required, policy, fuel) {
            Err(e) => Err(e),
            Ok(acc) => {
                if str_in_list(required, props[i - 1].0@) || policy
                    == HandleUnionsBy::TreatingOptionalsAsRequired {
                    match spec_resolve_schema(doc, props[i - 1].1, fuel) {
                        Err(e) => Err(e),
                        Ok(s) => match spec_asserts(
                            doc,
                            s,
                            QueryV::Jsonpath(spec_child_path(path, props[i - 1].0@)),
                            policy,
                            fuel,
                        ) {
                            Err(e) => Err(e),
                            Ok(pair) => Ok(acc.push((props[i - 1].0@, Some(pair)))),
                        },
                    }
                } else {
                    Ok(acc.push((props[i - 1].0@, None)))
                }
            },
        }
    }
}

/// The contributions of the first `i` branches of an `allOf` list,
/// concatenated in branch order.
pub open spec fn spec_allof_contribs(
    doc: Document,
    branches: Seq<SchemaOrRef>,
    i: int,
    path: Seq<char>,
    required: Seq<String>,
    policy: HandleUnionsBy,
    fuel: nat,
) -> Result<Seq<(Seq<char>, Option<(Seq<AssertV>, Seq<WarnV>)>)>, SchemaErrorV>
    decreases fuel, 3int, i,
{
    if i <= 0 || branches.len() < i {
        Ok(Seq::empty())
    } else {
        match spec_allof_contribs(doc, branches, i - 1, path, required, policy, fuel) {
            Err(e) => Err(e),
            Ok(acc) => match spec_resolve_schema(doc, branches[i - 1], fuel) {
                Err(e) => Err(e),
                Ok(b) => match spec_prop_contribs(
                    doc,
                    b.properties@,
                    b.properties@.len() as int,
                    path,
                    required,
                    policy,
                    fuel,
                ) {
                    Err(e) => Err(e),
                    Ok(ps) => Ok(acc + ps),
                },
            },
        }
    }
}

/// A failed prefix fails the whole object walk.
proof fn lemma_obj_walk_err(
    doc: Document,
    props: Seq<(String, SchemaOrRef)>,
    i: int,
    j: int,
    path: Seq<char>,
    required: Seq<String>,
    policy: HandleUnionsBy,
    fuel: nat,
)
    requires
        0 < i <= j <= props.len(),
        spec_obj_walk(doc, props, i, path, required, policy, fuel) is Err,
    ensures
        spec_obj_walk(doc, props, j, path, required, policy, fuel) == spec_obj_walk(
            doc,
            props,
            i,
            path,
            required,
            policy,
            fuel,
        ),
    decreases j - i,
{
    if i < j {
        lemma_obj_walk_err(doc, props, i, j - 1, path, required, policy, fuel);
    }
}

/// A failed prefix fails the whole contribution walk.
proof fn lemma_prop_contribs_err(
    doc: Document,
    props: Seq<(String, SchemaOrRef)>,
    i: int,
    j: int,
    path: Seq<char>,
    required: Seq<String>,
    policy: HandleUnionsBy,
    fuel: nat,
)
    requires
        0 < i <= j <= props.len(),
        spec_prop_contribs(doc, props, i, path, required, policy, fuel) is Err,
    ensures
        spec_prop_contribs(doc, props, j, path, required, policy, fuel) == spec_prop_contribs(
            doc,
            props,
            i,
            path,
            required,
            policy,
            fuel,
        ),
    decreases j - i,
{
    if i < j {
        lemma_prop_contribs_err(doc, props, i, j - 1, path, required, policy, fuel);
    }
}

/// A failed prefix fails the whole branch walk.
proof fn lemma_allof_contribs_err(
    doc: Document,
    branches: Seq<SchemaOrRef>,
    i: int,
    j: int,
    path: Seq<char>,
    required: Seq<String>,
    policy: HandleUnionsBy,
    fuel: nat,
)
    requires
        0 < i <= j <= branches.len(),
        spec_allof_contribs(doc, branches, i, path, required, policy, fuel) is Err,
    ensures
        spec_allof_contribs(doc, branches, j, path, required, policy, fuel)
            == spec_allof_contribs(doc, branches, i, path, required, policy, fuel),
    decreases j - i,
{
    if i < j {
        lemma_allof_contribs_err(doc, branches, i, j - 1, path, required, policy, fuel);
    }
}

/// Writes `(name, val)` into the accumulated contributions: in place of the
/// first entry of that name where one exists, appended otherwise.
fn upsert_contrib(
    acc: &mut Vec<(String, Option<(Vec<Assertion>, Vec<Warning>)>)>,
    name: String,
    val: Option<(Vec<Assertion>, Vec<Warning>)>,
)
    ensures
        contribs_model(final(acc)@) == spec_cupsert(
            contribs_model(old(acc)@),
            name@,
            contrib_model(val),
        ),
{
    let ghost m = contribs_model(acc@);
    proof {
        lemma_contribs_model(acc@);
        lemma_cfind(m, name@);
    }
    let mut i: usize = 0;
    while i < acc.len()
        invariant
            acc@ == old(acc)@,
            m == contribs_model(acc@),
            m.len() == acc@.len(),
            forall|k: int|
                0 <= k < acc@.len() ==> m[k] == ((#[trigger] acc@[k]).0@, contrib_model(
                    acc@[k].1,
                )),
            i <= acc@.len(),
            forall|k: int| 0 <= k < i ==> (#[trigger] m[k]).0 != name@,
            spec_cfind(m, name@) < 0 || spec_cfind(m, name@) >= i,
            spec_cfind(m, name@) < 0 ==> forall|k: int|
                0 <= k < m.len() ==> (#[trigger] m[k]).0 != name@,
            spec_cfind(m, name@) >= 0 ==> spec_cfind(m, name@) < m.len() && m[spec_cfind(
                m,
                name@,
            )].0 == name@,
        decreases acc@.len() - i,
    {
        if acc[i].0 == name {
            proof {
                lemma_cfind(m, name@);
                assert(m[i as int] == (acc@[i as int].0@, contrib_model(acc@[i as int].1)));
                assert(m[i as int].0 == name@);
                assert(spec_cfind(m, name@) == i);
            }
            let ghost before = acc@;
            acc[i] = (name, val);
            proof {
                lemma_contribs_model(acc@);
                let u = spec_cupsert(m, name@, contrib_model(val));
                assert(u == m.update(i as int, (name@, contrib_model(val))));
                assert(acc@ == before.update(i as int, (name, val)));
                assert(contribs_model(acc@).len() == u.len());
                assert forall|k: int| 0 <= k < u.len() implies contribs_model(acc@)[k] == u[k] by {
                    assert(contribs_model(acc@)[k] == ((acc@[k]).0@, contrib_model(acc@[k].1)));
                    if k != i {
                        assert(acc@[k] == before[k]);
                        assert(m[k] == ((before[k]).0@, contrib_model(before[k].1)));
                    } else {
                        assert(acc@[k] == (name, val));
                    }
                }
                assert(contribs_model(acc@) =~= u);
            }
            return ;
        }
        i = i + 1;
    }
    let ghost before = acc@;
    acc.push((name, val));
    proof {
        assert(spec_cfind(m, name@) < 0);
        assert(acc@.drop_last() =~= before);
        assert(contribs_model(acc@) =~= spec_cupsert(m, name@, contrib_model(val)));
    }
}

/// Merges contributions: a later entry overwrites an earlier one of the
/// same name in place, keeping first-seen order.
fn merge_contribs(pairs: Vec<(String, Option<(Vec<Assertion>, Vec<Warning>)>)>) -> (r: Vec<(
    String,
    Option<(Vec<Assertion>, Vec<Warning>)>,
)>)
    ensures
        contribs_model(r@) == spec_cmerge(contribs_model(pairs@)),
{
    let mut out: Vec<(String, Option<(Vec<Assertion>, Vec<Warning>)>)> = Vec::new();
    let mut pairs = pairs;
    let ghost all = pairs@;
    let ghost mut i: int = 0;
    proof {
        assert(all.subrange(0, 0) =~= Seq::<
            (String, Option<(Vec<Assertion>, Vec<Warning>)>),
        >::empty());
    }
    while pairs.len() > 0
        invariant
            0 <= i <= all.len(),
            pairs@ == all.subrange(i, all.len() as int),
            contribs_model(out@) == spec_cmerge(contribs_model(all.subrange(0, i))),
        decreases pairs@.len(),
    {
        let ghost pre = all.subrange(0, i);
        let entry = pairs.remove(0);
        proof {
            assert(entry == all[i]);
            assert(pairs@ =~= all.subrange(i + 1, all.len() as int));
        }
        upsert_contrib(&mut out, entry.0, entry.1);
        proof {
            i = i + 1;
            let pre1 = all.subrange(0, i);
            assert(pre1.drop_last() =~= pre);
            assert(pre1.last() == all[i - 1]);
            assert(contribs_model(pre1).drop_last() =~= contribs_model(pre));
        }
    }
    proof {
        assert(i == all.len());
        assert(all.subrange(0, all.len() as int) =~= all);
    }
    out
}

/// Concatenates the present contributions, assertions and warnings each in
/// order.
fn flatten_contribs(pairs: Vec<(String, Option<(Vec<Assertion>, Vec<Warning>)>)>) -> (r: (
    Vec<Assertion>,
    Vec<Warning>,
))
    ensures
        assert_seq_model(r.0@) == spec_cflatten(contribs_model(pairs@)).0,
        warn_seq_model(r.1@) == spec_cflatten(contribs_model(pairs@)).1,
{
    let mut out_a: Vec<Assertion> = Vec::new();
    let mut out_w: Vec<Warning> = Vec::new();
    let mut pairs = pairs;
    let ghost all = pairs@;
    let ghost mut i: int = 0;
    proof {
        assert(all.subrange(0, 0) =~= Seq::<
            (String, Option<(Vec<Assertion>, Vec<Warning>)>),
        >::empty());
    }
    while pairs.len() > 0
        invariant
            0 <= i <= all.len(),
            pairs@ == all.subrange(i, all.len() as int),
            assert_seq_model(out_a@) == spec_cflatten(contribs_model(all.subrange(0, i))).0,
            warn_seq_model(out_w@) == spec_cflatten(contribs_model(all.subrange(0, i))).1,
        decreases pairs@.len(),
    {
        let ghost pre = all.subrange(0, i);
        let entry = pairs.remove(0);
        proof {
            assert(entry == all[i]);
            assert(pairs@ =~= all.subrange(i + 1, all.len() as int));
        }
        let ghost a0 = out_a@;
        let ghost w0 = out_w@;
        match entry.1 {
            Some(present) => {
                let mut ca = present.0;
                let mut cw = present.1;
                let ghost cav = ca@;
                let ghost cwv = cw@;
                out_a.append(&mut ca);
                out_w.append(&mut cw);
                proof {
                    crate::asserts::lemma_assert_seq_model_add(a0, cav);
                    crate::errors::lemma_warn_seq_model_add(w0, cwv);
                }
            },
            None => {},
        }
        proof {
            i = i + 1;
            let pre1 = all.subrange(0, i);
            assert(pre1.drop_last() =~= pre);
            assert(pre1.last() == all[i - 1]);
            assert(contribs_model(pre1).drop_last() =~= contribs_model(pre));
        }
    }
    proof {
        assert(i == all.len());
        assert(all.subrange(0, all.len() as int) =~= all);
    }
    (out_a, out_w)
}

fn child_path(path: &String, name: &String) -> (r: String)
    ensures
        r@ == spec_child_path(path@, name@),
{
    let s = path.clone();
    let s = s.concat(".");
    s.concat(name.as_str())
}

/// The nested assertions of the properties of a plain object, in
/// declaration order under the required set and policy.
fn obj_walk_exec(
    doc: &Document,
    props: &Vec<(String, SchemaOrRef)>,
    path: &String,
    required: &Vec<String>,
    policy: HandleUnionsBy,
    fuel: u64,
) -> (r: Result<(Vec<Assertion>, Vec<Warning>), SchemaError>)
    ensures
        (match spec_obj_walk(*doc, props@, props@.len() as int, path@, required@, policy,
            fuel as nat) {
            Ok(pair) => r matches Ok(v) && assert_seq_model(v.0@) == pair.0 && warn_seq_model(
                v.1@,
            ) == pair.1,
            Err(e) => r matches Err(x) && x@ == e,
        }),
    decreases fuel, 1int, 0int,
{
    let mut out_a: Vec<Assertion> = Vec::new();
    let mut out_w: Vec<Warning> = Vec::new();
    let mut i: usize = 0;
    while i < props.len()
        invariant
            i <= props@.len(),
            spec_obj_walk(*doc, props@, i as int, path@, required@, policy, fuel as nat)
                == Ok::<(Seq<AssertV>, Seq<WarnV>), SchemaErrorV>(
                (assert_seq_model(out_a@), warn_seq_model(out_w@)),
            ),
        decreases props@.len() - i,
    {
        if contains_string(required, &props[i].0) || policy_is_treating(policy) {
            let s = match resolve_schema(doc, &props[i].1, fuel) {
                Ok(s) => s,
                Err(e) => {
                    proof {
                        lemma_obj_walk_err(*doc, props@, i + 1, props@.len() as int, path@,
                            required@, policy, fuel as nat);
                    }
                    return Err(e);
                },
            };
            let q = QueryExpr::Jsonpath(child_path(path, &props[i].0));
            let (mut ca, mut cw) = match add_asserts_from_schema(doc, s, &q, policy, fuel) {
                Ok(pair) => pair,
                Err(e) => {
                    proof {
                        lemma_obj_walk_err(*doc, props@, i + 1, props@.len() as int, path@,
                            required@, policy, fuel as nat);
                    }
                    return Err(e);
                },
            };
            let ghost a0 = out_a@;
            let ghost w0 = out_w@;
            let ghost cav = ca@;
            let ghost cwv = cw@;
            out_a.append(&mut ca);
            out_w.append(&mut cw);
            proof {
                crate::asserts::lemma_assert_seq_model_add(a0, cav);
                crate::errors::lemma_warn_seq_model_add(w0, cwv);
            }
        }
        i = i + 1;
    }
    Ok((out_a, out_w))
}

fn policy_is_treating(policy: HandleUnionsBy) -> (r: bool)
    ensures
        r == (policy == HandleUnionsBy::TreatingOptionalsAsRequired),
{
    match policy {
        HandleUnionsBy::TreatingOptionalsAsRequired => true,
        HandleUnionsBy::IgnoringThem => false,
    }
}

/// The contribution of each property of a merged branch, in order.
fn prop_contribs_exec(
    doc: &Document,
    props: &Vec<(String, SchemaOrRef)>,
    path: &String,
    required: &Vec<String>,
    policy: HandleUnionsBy,
    fuel: u64,
) -> (r: Result<Vec<(String, Option<(Vec<Assertion>, Vec<Warning>)>)>, SchemaError>)
    ensures
        (match spec_prop_contribs(*doc, props@, props@.len() as int, path@, required@, policy,
            fuel as nat) {
            Ok(ps) => r matches Ok(v) && contribs_model(v@) == ps,
            Err(e) => r matches Err(x) && x@ == e,
        }),
    decreases fuel, 2int, 0int,
{
    let mut out: Vec<(String, Option<(Vec<Assertion>, Vec<Warning>)>)> = Vec::new();
    let mut i: usize = 0;
    while i < props.len()
        invariant
            i <= props@.len(),
            spec_prop_contribs(*doc, props@, i as int, path@, required@, policy, fuel as nat)
                == Ok::<Seq<(Seq<char>, Option<(Seq<AssertV>, Seq<WarnV>)>)>, SchemaErrorV>(
                contribs_model(out@),
            ),
        decreases props@.len() - i,
    {
        let ghost outpre = out@;
        if contains_string(required, &props[i].0) || policy_is_treating(policy) {
            let s = match resolve_schema(doc, &props[i].1, fuel) {
                Ok(s) => s,
                Err(e) => {
                    proof {
                        lemma_prop_contribs_err(*doc, props@, i + 1, props@.len() as int, path@,
                            required@, policy, fuel as nat);
                    }
                    return Err(e);
                },
            };
            let q = QueryExpr::Jsonpath(child_path(path, &props[i].0));
            let pair = match add_asserts_from_schema(doc, s, &q, policy, fuel) {
                Ok(pair) => pair,
                Err(e) => {
                    proof {
                        lemma_prop_contribs_err(*doc, props@, i + 1, props@.len() as int, path@,
                            required@, policy, fuel as nat);
                    }
                    return Err(e);
                },
            };
            out.push((props[i].0.clone(), Some(pair)));
        } else {
            out.push((props[i].0.clone(), None));
        }
        i = i + 1;
        proof {
            assert(out@.drop_last() =~= outpre);
        }
    }
    Ok(out)
}

/// The contributions of the branches of an `allOf` list, concatenated in
/// branch order.
fn allof_contribs_exec(
    doc: &Document,
    branches: &Vec<SchemaOrRef>,
    path: &String,
    required: &Vec<String>,
    policy: HandleUnionsBy,
    fuel: u64,
) -> (r: Result<Vec<(String, Option<(Vec<Assertion>, Vec<Warning>)>)>, SchemaError>)
    ensures
        (match spec_allof_contribs(*doc, branches@, branches@.len() as int, path@, required@,
            policy, fuel as nat) {
            Ok(ps) => r matches Ok(v) && contribs_model(v@) == ps,
            Err(e) => r matches Err(x) && x@ == e,
        }),
    decreases fuel, 3int, 0int,
{
    let mut out: Vec<(String, Option<(Vec<Assertion>, Vec<Warning>)>)> = Vec::new();
    let mut i: usize = 0;
    while i < branches.len()
        invariant
            i <= branches@.len(),
            spec_allof_contribs(*doc, branches@, i as int, path@, required@, policy, fuel as nat)
                == Ok::<Seq<(Seq<char>, Option<(Seq<AssertV>, Seq<WarnV>)>)>, SchemaErrorV>(
                contribs_model(out@),
            ),
        decreases branches@.len() - i,
    {
        let b = match resolve_schema(doc, &branches[i], fuel) {
            Ok(b) => b,
            Err(e) => {
                proof {
                    lemma_allof_contribs_err(*doc, branches@, i + 1, branches@.len() as int,
                        path@, required@, policy, fuel as nat);
                }
                return Err(e);
            },
        };
        let mut ps = match prop_contribs_exec(doc, &b.properties, path, required, policy, fuel) {
            Ok(ps) => ps,
            Err(e) => {
                proof {
                    lemma_allof_contribs_err(*doc, branches@, i + 1, branches@.len() as int,
                        path@, required@, policy, fuel as nat);
                }
                return Err(e);
            },
        };
        let ghost outpre = out@;
        let ghost psview = ps@;
        out.append(&mut ps);
        i = i + 1;
        proof {
            lemma_contribs_model_add(outpre, psview);
        }
    }
    Ok(out)
}

/// The assertions and warnings that a resolved schema contributes at a
/// query, under a union-handling policy and a depth allowance.
pub fn add_asserts_from_schema(
    doc: &Document,
    schema: &Schema,
    q: &QueryExpr,
    policy: HandleUnionsBy,
    fuel: u64,
) -> (r: Result<(Vec<Assertion>, Vec<Warning>), SchemaError>)
    ensures
        (match spec_asserts(*doc, *schema, q@, policy, fuel as nat) {
            Ok(pair) => r matches Ok(v) && assert_seq_model(v.0@) == pair.0 && warn_seq_model(
                v.1@,
            ) == pair.1,
            Err(e) => r matches Err(x) && x@ == e,
        }),
    decreases fuel, 0int, 0int,
{
    if fuel == 0 {
        return Err(SchemaError::ReferenceCycle(String::new()));
    }
    if schema.write_only {
        return Ok((Vec::new(), Vec::new()));
    }
    if schema.nullable || schema.one_of.len() > 0 || schema.any_of.len() > 0 {
        return Ok((Vec::new(), Vec::new()));
    }
    if schema.all_of.len() > 0 {
        let mut head: Vec<Assertion> = Vec::new();
        head.push(assert_query_matches_predicate(q, PredicateFunc::IsCollection));
        proof {
            assert(assert_seq_model(Seq::<Assertion>::empty()) =~= Seq::<AssertV>::empty());
            lemma_assert_seq_model_push(Seq::<Assertion>::empty(), head@.last());
            assert(head@ =~= Seq::<Assertion>::empty().push(head@.last()));
        }
        match q {
            QueryExpr::Jsonpath(path) => {
                let mut bc = match allof_contribs_exec(doc, &schema.all_of, path,
                    &schema.required, policy, fuel - 1) {
                    Ok(v) => v,
                    Err(e) => {
                        return Err(e);
                    },
                };
                let mut oc = match prop_contribs_exec(doc, &schema.properties, path,
                    &schema.required, policy, fuel - 1) {
                    Ok(v) => v,
                    Err(e) => {
                        return Err(e);
                    },
                };
                let ghost bcview = bc@;
                let ghost ocview = oc@;
                bc.append(&mut oc);
                proof {
                    lemma_contribs_model_add(bcview, ocview);
                }
                let merged = merge_contribs(bc);
                let (mut a, w) = flatten_contribs(merged);
                let ghost headview = head@;
                let ghost aview = a@;
                head.append(&mut a);
                proof {
                    crate::asserts::lemma_assert_seq_model_add(headview, aview);
                }
                Ok((head, w))
            },
            _ => Ok((head, Vec::new())),
        }
    } else {
        match schema.kind {
            SchemaKind::Boolean => {
                let mut out: Vec<Assertion> = Vec::new();
                out.push(assert_query_matches_predicate(q, PredicateFunc::IsBoolean));
                proof {
                    assert(assert_seq_model(Seq::<Assertion>::empty()) =~= Seq::<
                        AssertV,
                    >::empty());
                    lemma_assert_seq_model_push(Seq::<Assertion>::empty(), out@.last());
                    assert(out@ =~= Seq::<Assertion>::empty().push(out@.last()));
                }
                Ok((out, Vec::new()))
            },
            SchemaKind::Integer => Ok((add_int_asserts(schema, q), Vec::new())),
            SchemaKind::Number => Ok((add_number_asserts(schema, q), Vec::new())),
            SchemaKind::Str => Ok((parse_string_asserts(schema, q), Vec::new())),
            SchemaKind::Array => {
                let mut warns: Vec<Warning> = Vec::new();
                let ghost w0 = warns@;
                let a = add_array_asserts(schema, q, &mut warns);
                proof {
                    assert(warn_seq_model(w0) =~= Seq::<WarnV>::empty());
                    assert(Seq::<WarnV>::empty() + spec_array_asserts(*schema, q@).1 =~=
                        spec_array_asserts(*schema, q@).1);
                }
                Ok((a, warns))
            },
            SchemaKind::Object => {
                let mut head: Vec<Assertion> = Vec::new();
                head.push(assert_query_matches_predicate(q, PredicateFunc::IsCollection));
                proof {
                    assert(assert_seq_model(Seq::<Assertion>::empty()) =~= Seq::<
                        AssertV,
                    >::empty());
                    lemma_assert_seq_model_push(Seq::<Assertion>::empty(), head@.last());
                    assert(head@ =~= Seq::<Assertion>::empty().push(head@.last()));
                }
                match q {
                    QueryExpr::Jsonpath(path) => {
                        let (mut a, w) = match obj_walk_exec(doc, &schema.properties, path,
                            &schema.required, policy, fuel - 1) {
                            Ok(pair) => pair,
                            Err(e) => {
                                return Err(e);
                            },
                        };
                        let ghost headview = head@;
                        let ghost aview = a@;
                        head.append(&mut a);
                        proof {
                            crate::asserts::lemma_assert_seq_model_add(headview, aview);
                        }
                        Ok((head, w))
                    },
                    _ => Ok((head, Vec::new())),
                }
            },
            SchemaKind::Unspecified => Ok((Vec::new(), Vec::new())),
        }
    }
}

/// The full assertion list for a JSON response body: the status check below
/// 400 first, then what the schema contributes from the body root.
pub open spec fn spec_json_response_asserts(
    doc: Document,
    schema: Schema,
    policy: HandleUnionsBy,
    fuel: nat,
) -> Result<(Seq<AssertV>, Seq<WarnV>), SchemaErrorV> {
    match spec_asserts(doc, schema, QueryV::Jsonpath("$"@), policy, fuel) {
        Err(e) => Err(e),
        Ok((a, w)) => Ok((seq![spec_status_less_than(400)] + a, w)),
    }
}

/// Synthesizes the assertion list for a JSON response body, headed by the
/// status check, together with the warnings met on the way.
pub fn parse_json_response_body_asserts(
    schema: &Schema,
    doc: &Document,
    policy: HandleUnionsBy,
    fuel: u64,
) -> (r: Result<(Vec<Assertion>, Vec<Warning>), SchemaError>)
    ensures
        (match spec_json_response_asserts(*doc, *schema, policy, fuel as nat) {
            Ok(pair) => r matches Ok(v) && assert_seq_model(v.0@) == pair.0 && warn_seq_model(
                v.1@,
            ) == pair.1,
            Err(e) => r matches Err(x) && x@ == e,
        }),
{
    let q = QueryExpr::Jsonpath("$".to_owned());
    match add_asserts_from_schema(doc, schema, &q, policy, fuel) {
        Err(e) => Err(e),
        Ok((mut a, w)) => {
            let mut out: Vec<Assertion> = Vec::new();
            out.push(assert_status_less_than(400));
            proof {
                assert(assert_seq_model(Seq::<Assertion>::empty()) =~= Seq::<AssertV>::empty());
                lemma_assert_seq_model_push(Seq::<Assertion>::empty(), out@.last());
                assert(out@ =~= Seq::<Assertion>::empty().push(out@.last()));
            }
            let ghost outview = out@;
            let ghost aview = a@;
            out.append(&mut a);
            proof {
                crate::asserts::lemma_assert_seq_model_add(outview, aview);
            }
            Ok((out, w))
        },
    }
}

} // verus!
