//! The example value synthesizer: walks a resolved schema and produces a
//! representative literal value for it.  Priority order: a read-only node is
//! omitted; an explicit example wins; else the first enumerated literal; else
//! `allOf` branches are merged into one synthetic object, properties of later
//! branches overwriting earlier same-named ones and the node's own properties
//! overwriting all of them, kept in first-seen declaration order; else the
//! first `oneOf`/`anyOf` branch alone; else a default by kind.  A depth
//! allowance bounds the recursion, so a cyclic schema graph surfaces as a
//! `ReferenceCycle` error instead of recursing without bound.

use vstd::prelude::*;
use crate::document::{spec_resolve_schema, resolve_schema, Document};
use crate::errors::{SchemaError, SchemaErrorV};
use crate::literal::{lit_model, lit_seq_model, obj_seq_model, LitV, LiteralValue};
use crate::schema::{
    lemma_props_no_refs_member, lemma_props_size_member, lemma_srefs_no_refs_member,
    lemma_srefs_size_member, spec_props_no_refs, spec_props_size, spec_schema_no_refs,
    spec_schema_size, spec_srefs_no_refs, spec_srefs_size, Schema, SchemaKind, SchemaOrRef,
};

verus! {

/// The model of an optional literal value.
pub open spec fn opt_lit_model(v: Option<LiteralValue>) -> Option<LitV> {
    match v {
        Some(x) => Some(lit_model(x)),
        None => None,
    }
}

/// The models of a sequence of named optional literal values.
pub open spec fn pairs_model(s: Seq<(String, Option<LiteralValue>)>) -> Seq<
    (Seq<char>, Option<LitV>),
>
    decreases s,
{
    if s.len() == 0 {
        Seq::empty()
    } else {
        pairs_model(s.drop_last()).push((s.last().0@, opt_lit_model(s.last().1)))
    }
}

/// The model of a sequence of named optional literal values is elementwise.
pub proof fn lemma_pairs_model(s: Seq<(String, Option<LiteralValue>)>)
    ensures
        pairs_model(s).len() == s.len(),
        forall|i: int|
            0 <= i < s.len() ==> pairs_model(s)[i] == ((#[trigger] s[i]).0@, opt_lit_model(
                s[i].1,
            )),
    decreases s,
{
    if s.len() > 0 {
        lemma_pairs_model(s.drop_last());
        assert(forall|i: int| 0 <= i < s.len() - 1 ==> s.drop_last()[i] == #[trigger] s[i]);
    }
}

/// Appending distributes over the pair-sequence model.
pub proof fn lemma_pairs_model_add(a: Seq<(String, Option<LiteralValue>)>, b: Seq<(String,
    Option<LiteralValue>,
)>)
    ensures
        pairs_model(a + b) == pairs_model(a) + pairs_model(b),
    decreases b,
{
    if b.len() == 0 {
        assert(a + b =~= a);
        assert(pairs_model(a) + pairs_model(b) =~= pairs_model(a));
    } else {
        lemma_pairs_model_add(a, b.drop_last());
        assert((a + b).drop_last() =~= a + b.drop_last());
        assert((a + b).last() == b.last());
        assert(pairs_model(a) + pairs_model(b) =~= (pairs_model(a) + pairs_model(
            b.drop_last(),
        )).push((b.last().0@, opt_lit_model(b.last().1))));
    }
}

/// The first position of key `k` in `s`, or a negative value where it does
/// not occur.
pub open spec fn spec_find_key(s: Seq<(Seq<char>, Option<LitV>)>, k: Seq<char>) -> int
    decreases s.len(),
{
    if s.len() == 0 {
        -1
    } else if s[0].0 == k {
        0
    } else {
        let r = spec_find_key(s.drop_first(), k);
        if r < 0 {
            -1
        } else {
            r + 1
        }
    }
}

/// The first position of `k` is a position of `k`, and nothing before it is
/// one.
pub proof fn lemma_find_key(s: Seq<(Seq<char>, Option<LitV>)>, k: Seq<char>)
    ensures
        spec_find_key(s, k) < 0 ==> forall|i: int| 0 <= i < s.len() ==> (#[trigger] s[i]).0 != k,
        spec_find_key(s, k) >= 0 ==> 0 <= spec_find_key(s, k) < s.len() && s[spec_find_key(
            s,
            k,
        )].0 == k,
        spec_find_key(s, k) >= 0 ==> forall|i: int|
            0 <= i < spec_find_key(s, k) ==> (#[trigger] s[i]).0 != k,
    decreases s.len(),
{
    if s.len() > 0 && s[0].0 != k {
        lemma_find_key(s.drop_first(), k);
        assert(forall|i: int| 1 <= i < s.len() ==> s.drop_first()[i - 1] == #[trigger] s[i]);
    }
}

/// Writes `(k, v)` into the map-like sequence: in place of the first entry
/// named `k` where one exists, appended otherwise.
pub open spec fn spec_upsert(
    s: Seq<(Seq<char>, Option<LitV>)>,
    k: Seq<char>,
    v: Option<LitV>,
) -> Seq<(Seq<char>, Option<LitV>)> {
    let f = spec_find_key(s, k);
    if f < 0 {
        s.push((k, v))
    } else {
        s.update(f, (k, v))
    }
}

/// The merge of a pair sequence into a map-like sequence: pairs are written
/// left to right, a later pair overwriting an earlier one of the same name in
/// place, so first-seen declaration order is kept.
pub open spec fn spec_merge_pairs(pairs: Seq<(Seq<char>, Option<LitV>)>) -> Seq<
    (Seq<char>, Option<LitV>),
>
    decreases pairs,
{
    if pairs.len() == 0 {
        Seq::empty()
    } else {
        spec_upsert(spec_merge_pairs(pairs.drop_last()), pairs.last().0, pairs.last().1)
    }
}

/// The entries whose value is present, in order.
pub open spec fn spec_drop_nones(s: Seq<(Seq<char>, Option<LitV>)>) -> Seq<(Seq<char>, LitV)>
    decreases s,
{
    if s.len() == 0 {
        Seq::empty()
    } else {
        let r = spec_drop_nones(s.drop_last());
        match s.last().1 {
            Some(v) => r.push((s.last().0, v)),
            None => r,
        }
    }
}

/// The synthesized example of a schema: a representative value of the shape
/// the schema describes, or nothing for a read-only node, or a resolution
/// error.  `fuel` is the depth allowance; an exhausted allowance surfaces as
/// a `ReferenceCycle` with an empty pointer path.
pub open spec fn spec_example(doc: Document, schema: Schema, fuel: nat) -> Result<
    Option<LitV>,
    SchemaErrorV,
>
    decreases fuel, 0int, 0int,
{
    if fuel == 0 {
        Err(SchemaErrorV::ReferenceCycle(Seq::empty()))
    } else if schema.read_only {
        Ok(None)
    } else if schema.example is Some {
        Ok(Some(lit_model(schema.example->0)))
    } else if schema.enum_values@.len() > 0 {
        Ok(Some(lit_model(schema.enum_values@[0])))
    } else if schema.all_of@.len() > 0 {
        match spec_allof_pairs(doc, schema.all_of@, schema.all_of@.len() as int, (fuel - 1) as nat) {
            Err(e) => Err(e),
            Ok(bp) => match spec_branch_pairs(
                doc,
                schema.properties@,
                schema.properties@.len() as int,
                (fuel - 1) as nat,
            ) {
                Err(e) => Err(e),
                Ok(op) => Ok(
                    Some(LitV::Object(spec_drop_nones(spec_merge_pairs(bp + op)))),
                ),
            },
        }
    } else if schema.one_of@.len() > 0 {
        match spec_resolve_schema(doc, schema.one_of@[0], (fuel - 1) as nat) {
            Err(e) => Err(e),
            Ok(s) => spec_example(doc, s, (fuel - 1) as nat),
        }
    } else if schema.any_of@.len() > 0 {
        match spec_resolve_schema(doc, schema.any_of@[0], (fuel - 1) as nat) {
            Err(e) => Err(e),
            Ok(s) => spec_example(doc, s, (fuel - 1) as nat),
        }
    } else {
        match schema.kind {
            SchemaKind::Boolean => Ok(Some(LitV::Bool(true))),
            SchemaKind::Integer => Ok(Some(LitV::Number("3"@))),
            SchemaKind::Number => Ok(Some(LitV::Number("3.3"@))),
            SchemaKind::Str => Ok(Some(LitV::Text("string"@))),
            SchemaKind::Array => match schema.items {
                None => Ok(Some(LitV::Array(Seq::empty()))),
                Some(b) => match spec_resolve_schema(doc, *b, (fuel - 1) as nat) {
                    Err(e) => Err(e),
                    Ok(s) => match spec_example(doc, s, (fuel - 1) as nat) {
                        Err(e) => Err(e),
                        Ok(None) => Ok(Some(LitV::Array(Seq::empty()))),
                        Ok(Some(v)) => Ok(Some(LitV::Array(seq![v]))),
                    },
                },
            },
            SchemaKind::Object => match spec_branch_pairs(
                doc,
                schema.properties@,
                schema.properties@.len() as int,
                (fuel - 1) as nat,
            ) {
                Err(e) => Err(e),
                Ok(ps) => Ok(Some(LitV::Object(spec_drop_nones(spec_merge_pairs(ps))))),
            },
            SchemaKind::Unspecified => Ok(Some(LitV::Null)),
        }
    }
}

/// The named example of each of the first `i` properties, in order, with a
/// marker for properties whose value is omitted.
pub open spec fn spec_branch_pairs(
    doc: Document,
    props: Seq<(String, SchemaOrRef)>,
    i: int,
    fuel: nat,
) -> Result<Seq<(Seq<char>, Option<LitV>)>, SchemaErrorV>
    decreases fuel, 1int, i,
{
    if i <= 0 || props.len() < i {
        Ok(Seq::empty())
    } else {
        match spec_branch_pairs(doc, props, i - 1, fuel) {
            Err(e) => Err(e),
            Ok(acc) => match spec_resolve_schema(doc, props[i - 1].1, fuel) {
                Err(e) => Err(e),
                Ok(s) => match spec_example(doc, s, fuel) {
                    Err(e) => Err(e),
                    Ok(opt) => Ok(acc.push((props[i - 1].0@, opt))),
                },
            },
        }
    }
}

/// The named examples contributed by the first `i` branches of an `allOf`
/// list, concatenated in branch order.
pub open spec fn spec_allof_pairs(
    doc: Document,
    branches: Seq<SchemaOrRef>,
    i: int,
    fuel: nat,
) -> Result<Seq<(Seq<char>, Option<LitV>)>, SchemaErrorV>
    decreases fuel, 2int, i,
{
    if i <= 0 || branches.len() < i {
        Ok(Seq::empty())
    } else {
        match spec_allof_pairs(doc, branches, i - 1, fuel) {
            Err(e) => Err(e),
            Ok(acc) => match spec_resolve_schema(doc, branches[i - 1], fuel) {
                Err(e) => Err(e),
                Ok(b) => match spec_branch_pairs(
                    doc,
                    b.properties@,
                    b.properties@.len() as int,
                    fuel,
                ) {
                    Err(e) => Err(e),
                    Ok(ps) => Ok(acc + ps),
                },
            },
        }
    }
}

/// A failed prefix fails the whole property walk.
proof fn lemma_branch_pairs_err(
    doc: Document,
    props: Seq<(String, SchemaOrRef)>,
    i: int,
    j: int,
    fuel: nat,
)
    requires
        0 < i <= j <= props.len(),
        spec_branch_pairs(doc, props, i, fuel) is Err,
    ensures
        spec_branch_pairs(doc, props, j, fuel) == spec_branch_pairs(doc, props, i, fuel),
    decreases j - i,
{
    if i < j {
        lemma_branch_pairs_err(doc, props, i, j - 1, fuel);
    }
}

/// A failed prefix fails the whole branch walk.
proof fn lemma_allof_pairs_err(
    doc: Document,
    branches: Seq<SchemaOrRef>,
    i: int,
    j: int,
    fuel: nat,
)
    requires
        0 < i <= j <= branches.len(),
        spec_allof_pairs(doc, branches, i, fuel) is Err,
    ensures
        spec_allof_pairs(doc, branches, j, fuel) == spec_allof_pairs(doc, branches, i, fuel),
    decreases j - i,
{
    if i < j {
        lemma_allof_pairs_err(doc, branches, i, j - 1, fuel);
    }
}

/// Example synthesis is total for a schema without references: with a depth
/// allowance of at least the schema's size, it returns a value and never an
/// error, whatever the document.  Together with the functional contract of
/// `parse_json_from_schema` (the result equals `spec_example` of the inputs,
/// a function), this also gives determinism: repeated calls on one schema
/// yield the same value.
pub proof fn lemma_example_synthesis_total(doc: Document, schema: Schema, fuel: nat)
    requires
        spec_schema_no_refs(schema),
        fuel >= spec_schema_size(schema),
    ensures
        spec_example(doc, schema, fuel) is Ok,
    decreases fuel, 0int, 0int,
{
    assert(spec_schema_size(schema) >= 1);
    if schema.read_only || schema.example is Some || schema.enum_values@.len() > 0 {
    } else if schema.all_of@.len() > 0 {
        lemma_allof_pairs_total(doc, schema.all_of@, schema.all_of@.len() as int,
            (fuel - 1) as nat);
        lemma_branch_pairs_total(
            doc,
            schema.properties@,
            schema.properties@.len() as int,
            (fuel - 1) as nat,
        );
    } else if schema.one_of@.len() > 0 {
        lemma_srefs_no_refs_member(schema.one_of@, 0);
        lemma_srefs_size_member(schema.one_of@, 0);
        match schema.one_of@[0] {
            SchemaOrRef::Inline(b) => {
                lemma_example_synthesis_total(doc, *b, (fuel - 1) as nat);
            },
            SchemaOrRef::Reference(_) => {},
        }
    } else if schema.any_of@.len() > 0 {
        lemma_srefs_no_refs_member(schema.any_of@, 0);
        lemma_srefs_size_member(schema.any_of@, 0);
        match schema.any_of@[0] {
            SchemaOrRef::Inline(b) => {
                lemma_example_synthesis_total(doc, *b, (fuel - 1) as nat);
            },
            SchemaOrRef::Reference(_) => {},
        }
    } else {
        match schema.kind {
            SchemaKind::Array => {
                match schema.items {
                    Some(b) => {
                        match *b {
                            SchemaOrRef::Inline(inner) => {
                                lemma_example_synthesis_total(doc, *inner, (fuel - 1) as nat);
                            },
                            SchemaOrRef::Reference(_) => {},
                        }
                    },
                    None => {},
                }
            },
            SchemaKind::Object => {
                lemma_branch_pairs_total(
                    doc,
                    schema.properties@,
                    schema.properties@.len() as int,
                    (fuel - 1) as nat,
                );
            },
            _ => {},
        }
    }
}

/// Example synthesis is deterministic: the contract of
/// `parse_json_from_schema` pins its result to `spec_example` of the inputs,
/// a function, so any two outcomes that the contract admits for one schema,
/// document and allowance agree.
pub proof fn lemma_example_synthesis_deterministic(
    doc: Document,
    schema: Schema,
    fuel: nat,
    first: Result<Option<LitV>, SchemaErrorV>,
    second: Result<Option<LitV>, SchemaErrorV>,
)
    requires
        first == spec_example(doc, schema, fuel),
        second == spec_example(doc, schema, fuel),
    ensures
        first == second,
{
}

/// The property walk succeeds on a property list without references, given a
/// depth allowance of at least the list's size.
proof fn lemma_branch_pairs_total(
    doc: Document,
    props: Seq<(String, SchemaOrRef)>,
    i: int,
    fuel: nat,
)
    requires
        spec_props_no_refs(props),
        fuel >= spec_props_size(props),
    ensures
        spec_branch_pairs(doc, props, i, fuel) is Ok,
    decreases fuel, 1int, i,
{
    if i <= 0 || props.len() < i {
    } else {
        lemma_branch_pairs_total(doc, props, i - 1, fuel);
        lemma_props_no_refs_member(props, i - 1);
        lemma_props_size_member(props, i - 1);
        match props[i - 1].1 {
            SchemaOrRef::Inline(b) => {
                lemma_example_synthesis_total(doc, *b, fuel);
            },
            SchemaOrRef::Reference(_) => {},
        }
    }
}

/// The branch walk succeeds on an `allOf` list without references, given a
/// depth allowance of at least the list's size.
proof fn lemma_allof_pairs_total(
    doc: Document,
    branches: Seq<SchemaOrRef>,
    i: int,
    fuel: nat,
)
    requires
        spec_srefs_no_refs(branches),
        fuel >= spec_srefs_size(branches),
    ensures
        spec_allof_pairs(doc, branches, i, fuel) is Ok,
    decreases fuel, 2int, i,
{
    if i <= 0 || branches.len() < i {
    } else {
        lemma_allof_pairs_total(doc, branches, i - 1, fuel);
        lemma_srefs_no_refs_member(branches, i - 1);
        lemma_srefs_size_member(branches, i - 1);
        match branches[i - 1] {
            SchemaOrRef::Inline(b) => {
                lemma_branch_pairs_total(doc, b.properties@, b.properties@.len() as int, fuel);
            },
            SchemaOrRef::Reference(_) => {},
        }
    }
}

/// Writes `(name, val)` into the accumulated pair list: in place of the
/// first entry of that name where one exists, appended otherwise.
fn upsert_pair(acc: &mut Vec<(String, Option<LiteralValue>)>, name: String, val: Option<
    LiteralValue,
>)
    ensures
        pairs_model(final(acc)@) == spec_upsert(
            pairs_model(old(acc)@),
            name@,
            opt_lit_model(val),
        ),
{
    let ghost m = pairs_model(acc@);
    proof {
        lemma_pairs_model(acc@);
        lemma_find_key(m, name@);
    }
    let mut i: usize = 0;
    while i < acc.len()
        invariant
            acc@ == old(acc)@,
            m == pairs_model(acc@),
            m.len() == acc@.len(),
            forall|k: int|
                0 <= k < acc@.len() ==> m[k] == ((#[trigger] acc@[k]).0@, opt_lit_model(
                    acc@[k].1,
                )),
            i <= acc@.len(),
            forall|k: int| 0 <= k < i ==> (#[trigger] m[k]).0 != name@,
            spec_find_key(m, name@) < 0 || spec_find_key(m, name@) >= i,
            spec_find_key(m, name@) < 0 ==> forall|k: int|
                0 <= k < m.len() ==> (#[trigger] m[k]).0 != name@,
            spec_find_key(m, name@) >= 0 ==> spec_find_key(m, name@) < m.len() && m[spec_find_key(
                m,
                name@,
            )].0 == name@,
        decreases acc@.len() - i,
    {
        if acc[i].0 == name {
            proof {
                lemma_find_key(m, name@);
                assert(m[i as int] == (acc@[i as int].0@, opt_lit_model(acc@[i as int].1)));
                assert(m[i as int].0 == name@);
                assert(spec_find_key(m, name@) == i);
            }
            let ghost before = acc@;
            acc[i] = (name, val);
            proof {
                lemma_pairs_model(acc@);
                let u = spec_upsert(m, name@, opt_lit_model(val));
                assert(u == m.update(i as int, (name@, opt_lit_model(val))));
                assert(acc@ == before.update(i as int, (name, val)));
                assert(pairs_model(acc@).len() == u.len());
                assert forall|k: int| 0 <= k < u.len() implies pairs_model(acc@)[k] == u[k] by {
                    assert(pairs_model(acc@)[k] == ((acc@[k]).0@, opt_lit_model(acc@[k].1)));
                    if k != i {
                        assert(acc@[k] == before[k]);
                        assert(m[k] == ((before[k]).0@, opt_lit_model(before[k].1)));
                    } else {
                        assert(acc@[k] == (name, val));
                    }
                }
                assert(pairs_model(acc@) =~= u);
            }
            return ;
        }
        i = i + 1;
    }
    let ghost before = acc@;
    acc.push((name, val));
    proof {
        assert(spec_find_key(m, name@) < 0);
        assert(acc@.drop_last() =~= before);
        assert(pairs_model(acc@) =~= spec_upsert(m, name@, opt_lit_model(val)));
    }
}

/// Merges a pair list into a map-like list: later pairs overwrite earlier
/// same-named ones in place, keeping first-seen order.
fn merge_pairs(pairs: Vec<(String, Option<LiteralValue>)>) -> (r: Vec<(String, Option<
    LiteralValue,
>)>)
    ensures
        pairs_model(r@) == spec_merge_pairs(pairs_model(pairs@)),
{
    let mut out: Vec<(String, Option<LiteralValue>)> = Vec::new();
    let mut pairs = pairs;
    let ghost all = pairs@;
    let ghost mut i: int = 0;
    proof {
        assert(all.subrange(0, 0) =~= Seq::<(String, Option<LiteralValue>)>::empty());
        assert(all.subrange(0, all.len() as int) =~= all);
    }
    while pairs.len() > 0
        invariant
            0 <= i <= all.len(),
            pairs@ == all.subrange(i, all.len() as int),
            pairs_model(out@) == spec_merge_pairs(pairs_model(all.subrange(0, i))),
        decreases pairs@.len(),
    {
        let ghost pre = all.subrange(0, i);
        let entry = pairs.remove(0);
        proof {
            assert(entry == all[i]);
            assert(pairs@ =~= all.subrange(i + 1, all.len() as int));
        }
        upsert_pair(&mut out, entry.0, entry.1);
        proof {
            i = i + 1;
            let pre1 = all.subrange(0, i);
            assert(pre1.drop_last() =~= pre);
            assert(pre1.last() == all[i - 1]);
            assert(pairs_model(pre1).drop_last() =~= pairs_model(pre));
        }
    }
    proof {
        assert(i == all.len());
        assert(all.subrange(0, all.len() as int) =~= all);
    }
    out
}

/// Keeps the entries whose value is present, in order.
fn drop_nones(pairs: Vec<(String, Option<LiteralValue>)>) -> (r: Vec<(String, LiteralValue)>)
    ensures
        obj_seq_model(r@) == spec_drop_nones(pairs_model(pairs@)),
{
    let mut out: Vec<(String, LiteralValue)> = Vec::new();
    let mut pairs = pairs;
    let ghost all = pairs@;
    let ghost mut i: int = 0;
    proof {
        assert(all.subrange(0, 0) =~= Seq::<(String, Option<LiteralValue>)>::empty());
    }
    while pairs.len() > 0
        invariant
            0 <= i <= all.len(),
            pairs@ == all.subrange(i, all.len() as int),
            obj_seq_model(out@) == spec_drop_nones(pairs_model(all.subrange(0, i))),
        decreases pairs@.len(),
    {
        let ghost pre = all.subrange(0, i);
        let entry = pairs.remove(0);
        proof {
            assert(entry == all[i]);
            assert(pairs@ =~= all.subrange(i + 1, all.len() as int));
        }
        let ghost outpre = out@;
        match entry.1 {
            Some(v) => {
                out.push((entry.0, v));
                proof {
                    assert(out@.drop_last() =~= outpre);
                }
            },
            None => {},
        }
        proof {
            i = i + 1;
            let pre1 = all.subrange(0, i);
            assert(pre1.drop_last() =~= pre);
            assert(pre1.last() == all[i - 1]);
            assert(pairs_model(pre1).drop_last() =~= pairs_model(pre));
        }
    }
    proof {
        assert(i == all.len());
        assert(all.subrange(0, all.len() as int) =~= all);
    }
    out
}

/// The named example of each property of a schema node or merged branch, in
/// order, with a marker for properties whose value is omitted.
fn branch_pairs_exec(
    doc: &Document,
    props: &Vec<(String, SchemaOrRef)>,
    fuel: u64,
) -> (r: Result<Vec<(String, Option<LiteralValue>)>, SchemaError>)
    ensures
        (match spec_branch_pairs(*doc, props@, props@.len() as int, fuel as nat) {
            Ok(ps) => r matches Ok(v) && pairs_model(v@) == ps,
            Err(e) => r matches Err(x) && x@ == e,
        }),
    decreases fuel, 1int, 0int,
{
    let mut out: Vec<(String, Option<LiteralValue>)> = Vec::new();
    let mut i: usize = 0;
    while i < props.len()
        invariant
            i <= props@.len(),
            spec_branch_pairs(*doc, props@, i as int, fuel as nat) == Ok::<
                Seq<(Seq<char>, Option<LitV>)>,
                SchemaErrorV,
            >(pairs_model(out@)),
        decreases props@.len() - i,
    {
        let s = match resolve_schema(doc, &props[i].1, fuel) {
            Ok(s) => s,
            Err(e) => {
                proof {
                    lemma_branch_pairs_err(*doc, props@, i + 1, props@.len() as int, fuel as nat);
                }
                return Err(e);
            },
        };
        let v = match parse_json_from_schema(s, doc, fuel) {
            Ok(v) => v,
            Err(e) => {
                proof {
                    lemma_branch_pairs_err(*doc, props@, i + 1, props@.len() as int, fuel as nat);
                }
                return Err(e);
            },
        };
        let ghost outpre = out@;
        out.push((props[i].0.clone(), v));
        i = i + 1;
        proof {
            assert(out@.drop_last() =~= outpre);
        }
    }
    Ok(out)
}

/// The named examples contributed by the branches of an `allOf` list,
/// concatenated in branch order.
fn allof_pairs_exec(doc: &Document, branches: &Vec<SchemaOrRef>, fuel: u64) -> (r:
    Result<Vec<(String, Option<LiteralValue>)>, SchemaError>)
    ensures
        (match spec_allof_pairs(*doc, branches@, branches@.len() as int, fuel as nat) {
            Ok(ps) => r matches Ok(v) && pairs_model(v@) == ps,
            Err(e) => r matches Err(x) && x@ == e,
        }),
    decreases fuel, 2int, 0int,
{
    let mut out: Vec<(String, Option<LiteralValue>)> = Vec::new();
    let mut i: usize = 0;
    while i < branches.len()
        invariant
            i <= branches@.len(),
            spec_allof_pairs(*doc, branches@, i as int, fuel as nat) == Ok::<
                Seq<(Seq<char>, Option<LitV>)>,
                SchemaErrorV,
            >(pairs_model(out@)),
        decreases branches@.len() - i,
    {
        let b = match resolve_schema(doc, &branches[i], fuel) {
            Ok(b) => b,
            Err(e) => {
                proof {
                    lemma_allof_pairs_err(*doc, branches@, i + 1, branches@.len() as int,
                        fuel as nat);
                }
                return Err(e);
            },
        };
        let mut ps = match branch_pairs_exec(doc, &b.properties, fuel) {
            Ok(ps) => ps,
            Err(e) => {
                proof {
                    lemma_allof_pairs_err(*doc, branches@, i + 1, branches@.len() as int,
                        fuel as nat);
                }
                return Err(e);
            },
        };
        let ghost outpre = out@;
        let ghost psview = ps@;
        out.append(&mut ps);
        i = i + 1;
        proof {
            lemma_pairs_model_add(outpre, psview);
        }
    }
    Ok(out)
}

/// Synthesizes a representative literal value for a resolved schema, or
/// nothing for a read-only node.  The only failure is a broken or cyclic
/// reference met while resolving composed branches, nested properties or
/// array items.
pub fn parse_json_from_schema(schema: &Schema, doc: &Document, fuel: u64) -> (r: Result<
    Option<LiteralValue>,
    SchemaError,
>)
    ensures
        (match spec_example(*doc, *schema, fuel as nat) {
            Ok(Some(v)) => r matches Ok(o) && o matches Some(lv) && lv@ == v,
            Ok(None) => r matches Ok(o) && o is None,
            Err(e) => r matches Err(x) && x@ == e,
        }),
    decreases fuel, 0int, 0int,
{
    if fuel == 0 {
        return Err(SchemaError::ReferenceCycle(String::new()));
    }
    if schema.read_only {
        return Ok(None);
    }
    match &schema.example {
        Some(e) => {
            return Ok(Some(e.deep_copy()));
        },
        None => {},
    }
    if schema.enum_values.len() > 0 {
        return Ok(Some(schema.enum_values[0].deep_copy()));
    }
    if schema.all_of.len() > 0 {
        let mut bp = match allof_pairs_exec(doc, &schema.all_of, fuel - 1) {
            Ok(v) => v,
            Err(e) => {
                return Err(e);
            },
        };
        let mut op = match branch_pairs_exec(doc, &schema.properties, fuel - 1) {
            Ok(v) => v,
            Err(e) => {
                return Err(e);
            },
        };
        let ghost bpview = bp@;
        let ghost opview = op@;
        bp.append(&mut op);
        proof {
            lemma_pairs_model_add(bpview, opview);
        }
        let merged = merge_pairs(bp);
        let entries = drop_nones(merged);
        return Ok(Some(LiteralValue::Object(entries)));
    }
    if schema.one_of.len() > 0 {
        let s = match resolve_schema(doc, &schema.one_of[0], fuel - 1) {
            Ok(s) => s,
            Err(e) => {
                return Err(e);
            },
        };
        return parse_json_from_schema(s, doc, fuel - 1);
    }
    if schema.any_of.len() > 0 {
        let s = match resolve_schema(doc, &schema.any_of[0], fuel - 1) {
            Ok(s) => s,
            Err(e) => {
                return Err(e);
            },
        };
        return parse_json_from_schema(s, doc, fuel - 1);
    }
    match schema.kind {
        SchemaKind::Boolean => Ok(Some(LiteralValue::Bool(true))),
        SchemaKind::Integer => Ok(Some(LiteralValue::Number("3".to_owned()))),
        SchemaKind::Number => Ok(Some(LiteralValue::Number("3.3".to_owned()))),
        SchemaKind::Str => Ok(Some(LiteralValue::Text("string".to_owned()))),
        SchemaKind::Array => {
            match &schema.items {
                None => Ok(Some(LiteralValue::Array(Vec::new()))),
                Some(b) => {
                    let s = match resolve_schema(doc, &**b, fuel - 1) {
                        Ok(s) => s,
                        Err(e) => {
                            return Err(e);
                        },
                    };
                    match parse_json_from_schema(s, doc, fuel - 1) {
                        Err(e) => Err(e),
                        Ok(None) => Ok(Some(LiteralValue::Array(Vec::new()))),
                        Ok(Some(v)) => {
                            let mut items: Vec<LiteralValue> = Vec::new();
                            items.push(v);
                            proof {
                                assert(items@.len() == 1);
                                assert(lit_seq_model(Seq::<LiteralValue>::empty())
                                    == Seq::<LitV>::empty());
                                assert(items@.drop_last() =~= Seq::<LiteralValue>::empty());
                                assert(items@.last() == items@[0]);
                                assert(lit_seq_model(items@)
                                    =~= Seq::<LitV>::empty().push(lit_model(items@[0])));
                                assert(Seq::<LitV>::empty().push(lit_model(items@[0])) =~= seq![
                                    lit_model(items@[0]),
                                ]);
                            }
                            Ok(Some(LiteralValue::Array(items)))
                        },
                    }
                },
            }
        },
        SchemaKind::Object => {
            let ps = match branch_pairs_exec(doc, &schema.properties, fuel - 1) {
                Ok(v) => v,
                Err(e) => {
                    return Err(e);
                },
            };
            let merged = merge_pairs(ps);
            let entries = drop_nones(merged);
            Ok(Some(LiteralValue::Object(entries)))
        },
        SchemaKind::Unspecified => Ok(Some(LiteralValue::Null)),
    }
}

} // verus!
