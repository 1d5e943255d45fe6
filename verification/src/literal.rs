//! The literal value tree: the common currency produced by example synthesis
//! and consumed by rendering, together with its mathematical model and its
//! JSON textual forms (compact and indented).

use vstd::prelude::*;
use crate::text::{chars_of, push_all, string_from_chars};

verus! {

/// A JSON-like literal value.  Numbers carry their decimal text exactly as it
/// stands in the source document, so no floating point is involved.
#[derive(Debug, PartialEq, Eq)]
pub enum LiteralValue {
    Null,
    Bool(bool),
    Number(String),
    Text(String),
    Array(Vec<LiteralValue>),
    Object(Vec<(String, LiteralValue)>),
}

/// The mathematical model of a literal value: the same tree over character
/// sequences.
pub enum LitV {
    Null,
    Bool(bool),
    Number(Seq<char>),
    Text(Seq<char>),
    Array(Seq<LitV>),
    Object(Seq<(Seq<char>, LitV)>),
}

/// The model of a literal value.
pub open spec fn lit_model(l: LiteralValue) -> LitV
    decreases l,
{
    match l {
        LiteralValue::Null => LitV::Null,
        LiteralValue::Bool(b) => LitV::Bool(b),
        LiteralValue::Number(t) => LitV::Number(t@),
        LiteralValue::Text(t) => LitV::Text(t@),
        LiteralValue::Array(items) => LitV::Array(lit_seq_model(items@)),
        LiteralValue::Object(entries) => LitV::Object(obj_seq_model(entries@)),
    }
}

/// The models of a sequence of literal values.
pub open spec fn lit_seq_model(s: Seq<LiteralValue>) -> Seq<LitV>
    decreases s,
{
    if s.len() == 0 {
        Seq::empty()
    } else {
        lit_seq_model(s.drop_last()).push(lit_model(s.last()))
    }
}

/// The models of a sequence of named literal values.
pub open spec fn obj_seq_model(s: Seq<(String, LiteralValue)>) -> Seq<(Seq<char>, LitV)>
    decreases s,
{
    if s.len() == 0 {
        Seq::empty()
    } else {
        obj_seq_model(s.drop_last()).push((s.last().0@, lit_model(s.last().1)))
    }
}

impl View for LiteralValue {
    type V = LitV;

    open spec fn view(&self) -> LitV {
        lit_model(*self)
    }
}

/// The model of a sequence of literal values is elementwise.
pub proof fn lemma_lit_seq_model(s: Seq<LiteralValue>)
    ensures
        lit_seq_model(s).len() == s.len(),
        forall|i: int| 0 <= i < s.len() ==> lit_seq_model(s)[i] == lit_model(#[trigger] s[i]),
    decreases s,
{
    if s.len() > 0 {
        lemma_lit_seq_model(s.drop_last());
        assert(forall|i: int|
            0 <= i < s.len() - 1 ==> s.drop_last()[i] == #[trigger] s[i]);
    }
}

/// The model of a sequence of named literal values is elementwise.
pub proof fn lemma_obj_seq_model(s: Seq<(String, LiteralValue)>)
    ensures
        obj_seq_model(s).len() == s.len(),
        forall|i: int|
            0 <= i < s.len() ==> obj_seq_model(s)[i] == ((#[trigger] s[i]).0@, lit_model(s[i].1)),
    decreases s,
{
    if s.len() > 0 {
        lemma_obj_seq_model(s.drop_last());
        assert(forall|i: int|
            0 <= i < s.len() - 1 ==> s.drop_last()[i] == #[trigger] s[i]);
    }
}

impl LiteralValue {
    /// A structurally equal copy of the value.
    pub fn deep_copy(&self) -> (r: LiteralValue)
        ensures
            r@ == self@,
        decreases *self,
    {
        match self {
            LiteralValue::Null => LiteralValue::Null,
            LiteralValue::Bool(b) => LiteralValue::Bool(*b),
            LiteralValue::Number(t) => LiteralValue::Number(t.clone()),
            LiteralValue::Text(t) => LiteralValue::Text(t.clone()),
            LiteralValue::Array(items) => {
                let mut out: Vec<LiteralValue> = Vec::new();
                let mut i: usize = 0;
                while i < items.len()
                    invariant
                        i <= items@.len(),
                        forall|k: int|
                            0 <= k < items@.len() ==> decreases_to!(*self => items@[k]),
                        lit_seq_model(out@) == lit_seq_model(items@.subrange(0, i as int)),
                        out@.len() == i,
                    decreases items@.len() - i,
                {
                    let ghost pre = items@.subrange(0, i as int);
                    let ghost outpre = out@;
                    proof {
                        assert(decreases_to!(*self => items@[i as int]));
                    }
                    out.push(items[i].deep_copy());
                    i = i + 1;
                    proof {
                        assert(out@.drop_last() =~= outpre);
                        assert(items@.subrange(0, i as int).drop_last() =~= pre);
                        assert(items@.subrange(0, i as int).last() == items@[i - 1]);
                    }
                }
                proof {
                    assert(items@.subrange(0, items@.len() as int) =~= items@);
                }
                LiteralValue::Array(out)
            },
            LiteralValue::Object(entries) => {
                let mut out: Vec<(String, LiteralValue)> = Vec::new();
                let mut i: usize = 0;
                while i < entries.len()
                    invariant
                        i <= entries@.len(),
                        forall|k: int|
                            0 <= k < entries@.len() ==> decreases_to!(*self => entries@[k].1),
                        obj_seq_model(out@) == obj_seq_model(entries@.subrange(0, i as int)),
                        out@.len() == i,
                    decreases entries@.len() - i,
                {
                    let ghost pre = entries@.subrange(0, i as int);
                    let ghost outpre = out@;
                    proof {
                        assert(decreases_to!(*self => entries@[i as int].1));
                    }
                    let copied = (entries[i].0.clone(), entries[i].1.deep_copy());
                    out.push(copied);
                    i = i + 1;
                    proof {
                        assert(out@.drop_last() =~= outpre);
                        assert(entries@.subrange(0, i as int).drop_last() =~= pre);
                        assert(entries@.subrange(0, i as int).last() == entries@[i - 1]);
                    }
                }
                proof {
                    assert(entries@.subrange(0, entries@.len() as int) =~= entries@);
                }
                LiteralValue::Object(out)
            },
        }
    }
}

/// The JSON escape of one character inside a quoted string.
pub open spec fn spec_escape_char(c: char) -> Seq<char> {
    if c == '"' {
        seq!['\\', '"']
    } else if c == '\\' {
        seq!['\\', '\\']
    } else if c == '\n' {
        seq!['\\', 'n']
    } else if c == '\r' {
        seq!['\\', 'r']
    } else if c == '\t' {
        seq!['\\', 't']
    } else if c == '\u{8}' {
        seq!['\\', 'b']
    } else if c == '\u{c}' {
        seq!['\\', 'f']
    } else if (c as u32) < 32 {
        seq!['\\', 'u', '0', '0', crate::num::spec_digit(((c as u32) / 16) as int), hex_digit(
            ((c as u32) % 16) as int,
        )]
    } else {
        seq![c]
    }
}

/// The lowercase hexadecimal digit for a value below 16.
pub open spec fn hex_digit(d: int) -> char {
    if d < 10 {
        crate::num::spec_digit(d)
    } else if d == 10 {
        'a'
    } else if d == 11 {
        'b'
    } else if d == 12 {
        'c'
    } else if d == 13 {
        'd'
    } else if d == 14 {
        'e'
    } else {
        'f'
    }
}

/// The JSON escape of a whole string body (without the surrounding quotes).
pub open spec fn spec_escape_str(s: Seq<char>) -> Seq<char>
    decreases s.len(),
{
    if s.len() == 0 {
        Seq::empty()
    } else {
        spec_escape_str(s.drop_last()) + spec_escape_char(s.last())
    }
}

fn hex_digit_char(d: u32) -> (c: char)
    requires
        d < 16,
    ensures
        c == hex_digit(d as int),
{
    if d == 0 {
        '0'
    } else if d == 1 {
        '1'
    } else if d == 2 {
        '2'
    } else if d == 3 {
        '3'
    } else if d == 4 {
        '4'
    } else if d == 5 {
        '5'
    } else if d == 6 {
        '6'
    } else if d == 7 {
        '7'
    } else if d == 8 {
        '8'
    } else if d == 9 {
        '9'
    } else if d == 10 {
        'a'
    } else if d == 11 {
        'b'
    } else if d == 12 {
        'c'
    } else if d == 13 {
        'd'
    } else if d == 14 {
        'e'
    } else {
        'f'
    }
}

fn push_escaped_char(out: &mut Vec<char>, c: char)
    ensures
        final(out)@ == old(out)@ + spec_escape_char(c),
{
    let ghost o0 = out@;
    if c == '"' {
        out.push('\\');
        out.push('"');
    } else if c == '\\' {
        out.push('\\');
        out.push('\\');
    } else if c == '\n' {
        out.push('\\');
        out.push('n');
    } else if c == '\r' {
        out.push('\\');
        out.push('r');
    } else if c == '\t' {
        out.push('\\');
        out.push('t');
    } else if c == '\u{8}' {
        out.push('\\');
        out.push('b');
    } else if c == '\u{c}' {
        out.push('\\');
        out.push('f');
    } else if (c as u32) < 32 {
        out.push('\\');
        out.push('u');
        out.push('0');
        out.push('0');
        out.push(crate::num::digit_char((c as u32 / 16) as u64));
        out.push(hex_digit_char(c as u32 % 16));
    } else {
        out.push(c);
    }
    proof {
        assert(out@ =~= o0 + spec_escape_char(c));
    }
}

/// Appends the JSON escape of the characters of `s` to `out`.
fn push_escaped(out: &mut Vec<char>, s: &String)
    ensures
        final(out)@ == old(out)@ + spec_escape_str(s@),
{
    let cs = chars_of(s.as_str());
    let mut i: usize = 0;
    while i < cs.len()
        invariant
            cs@ == s@,
            i <= cs@.len(),
            out@ == old(out)@ + spec_escape_str(s@.subrange(0, i as int)),
        decreases cs@.len() - i,
    {
        let ghost pre = s@.subrange(0, i as int);
        push_escaped_char(out, cs[i]);
        i = i + 1;
        proof {
            assert(s@.subrange(0, i as int).drop_last() =~= pre);
            assert(s@.subrange(0, i as int).last() == s@[i - 1]);
            assert((old(out)@ + spec_escape_str(pre)) + spec_escape_char(s@[i - 1]) =~= old(
                out,
            )@ + (spec_escape_str(pre) + spec_escape_char(s@[i - 1])));
        }
    }
    proof {
        assert(s@.subrange(0, s@.len() as int) =~= s@);
    }
}

/// The compact JSON rendering of a literal value: no whitespace anywhere.
pub open spec fn spec_json_compact(v: LitV) -> Seq<char>
    decreases v, 0int,
{
    match v {
        LitV::Null => "null"@,
        LitV::Bool(b) => if b {
            "true"@
        } else {
            "false"@
        },
        LitV::Number(t) => t,
        LitV::Text(t) => seq!['"'] + spec_escape_str(t) + seq!['"'],
        LitV::Array(items) => seq!['['] + spec_compact_items(items, items.len() as int) + seq![
            ']',
        ],
        LitV::Object(entries) => seq!['{'] + spec_compact_entries(entries, entries.len() as int)
            + seq!['}'],
    }
}

/// The compact rendering of the first `i` items of an array, with separators.
pub open spec fn spec_compact_items(s: Seq<LitV>, i: int) -> Seq<char>
    decreases s, i,
{
    if i <= 0 || s.len() < i {
        Seq::empty()
    } else {
        spec_compact_items(s, i - 1) + (if i - 1 > 0 {
            seq![',']
        } else {
            Seq::empty()
        }) + spec_json_compact(s[i - 1])
    }
}

/// The compact rendering of the first `i` entries of an object, with
/// separators.
pub open spec fn spec_compact_entries(s: Seq<(Seq<char>, LitV)>, i: int) -> Seq<char>
    decreases s, i,
{
    if i <= 0 || s.len() < i {
        Seq::empty()
    } else {
        spec_compact_entries(s, i - 1) + (if i - 1 > 0 {
            seq![',']
        } else {
            Seq::empty()
        }) + seq!['"'] + spec_escape_str(s[i - 1].0) + seq!['"'] + seq![':'] + spec_json_compact(
            s[i - 1].1,
        )
    }
}

/// Two spaces per indentation level.
pub open spec fn spec_indent(level: nat) -> Seq<char>
    decreases level,
{
    if level == 0 {
        Seq::empty()
    } else {
        spec_indent((level - 1) as nat) + seq![' ', ' ']
    }
}

/// The next nesting level.  It saturates far beyond any depth that a value
/// held in memory can reach, which keeps the renderer free of overflow for
/// every input.
pub open spec fn spec_next_level(level: nat) -> nat {
    if level < 0xffff_ffff {
        level + 1
    } else {
        level
    }
}

/// The indented JSON rendering of a literal value at a nesting level: two
/// spaces per level, one element per line, a space after each object colon.
pub open spec fn spec_json_pretty(v: LitV, level: nat) -> Seq<char>
    decreases v, 0int,
{
    match v {
        LitV::Null => "null"@,
        LitV::Bool(b) => if b {
            "true"@
        } else {
            "false"@
        },
        LitV::Number(t) => t,
        LitV::Text(t) => seq!['"'] + spec_escape_str(t) + seq!['"'],
        LitV::Array(items) => if items.len() == 0 {
            "[]"@
        } else {
            seq!['[', '\n'] + spec_pretty_items(items, items.len() as int, spec_next_level(level))
                + seq!['\n'] + spec_indent(level) + seq![']']
        },
        LitV::Object(entries) => if entries.len() == 0 {
            "{}"@
        } else {
            seq!['{', '\n'] + spec_pretty_entries(
                entries,
                entries.len() as int,
                spec_next_level(level),
            ) + seq!['\n'] + spec_indent(level) + seq!['}']
        },
    }
}

/// The indented rendering of the first `i` items of an array.
pub open spec fn spec_pretty_items(s: Seq<LitV>, i: int, level: nat) -> Seq<char>
    decreases s, i,
{
    if i <= 0 || s.len() < i {
        Seq::empty()
    } else {
        spec_pretty_items(s, i - 1, level) + (if i - 1 > 0 {
            seq![',', '\n']
        } else {
            Seq::empty()
        }) + spec_indent(level) + spec_json_pretty(s[i - 1], level)
    }
}

/// The indented rendering of the first `i` entries of an object.
pub open spec fn spec_pretty_entries(s: Seq<(Seq<char>, LitV)>, i: int, level: nat) -> Seq<char>
    decreases s, i,
{
    if i <= 0 || s.len() < i {
        Seq::empty()
    } else {
        spec_pretty_entries(s, i - 1, level) + (if i - 1 > 0 {
            seq![',', '\n']
        } else {
            Seq::empty()
        }) + spec_indent(level) + seq!['"'] + spec_escape_str(s[i - 1].0) + seq!['"'] + seq![
            ':',
            ' ',
        ] + spec_json_pretty(s[i - 1].1, level)
    }
}

/// Appends two spaces per indentation level to `out`.
fn push_indent(out: &mut Vec<char>, level: usize)
    ensures
        final(out)@ == old(out)@ + spec_indent(level as nat),
{
    let mut j: usize = 0;
    while j < level
        invariant
            j <= level,
            out@ == old(out)@ + spec_indent(j as nat),
        decreases level - j,
    {
        out.push(' ');
        out.push(' ');
        j = j + 1;
        proof {
            assert(out@ =~= old(out)@ + spec_indent(j as nat));
        }
    }
}

fn json_compact_push(v: &LiteralValue, out: &mut Vec<char>)
    ensures
        final(out)@ == old(out)@ + spec_json_compact(v@),
    decreases *v,
{
    match v {
        LiteralValue::Null => {
            let lit = chars_of("null");
            push_all(out, &lit);
        },
        LiteralValue::Bool(b) => {
            let lit = if *b {
                chars_of("true")
            } else {
                chars_of("false")
            };
            push_all(out, &lit);
        },
        LiteralValue::Number(t) => {
            let cs = chars_of(t.as_str());
            push_all(out, &cs);
        },
        LiteralValue::Text(t) => {
            out.push('"');
            push_escaped(out, t);
            out.push('"');
            proof {
                assert(out@ =~= old(out)@ + spec_json_compact(v@));
            }
        },
        LiteralValue::Array(items) => {
            let ghost m = lit_seq_model(items@);
            proof {
                lemma_lit_seq_model(items@);
            }
            out.push('[');
            proof {
                assert(out@ =~= old(out)@ + seq!['['] + spec_compact_items(m, 0));
            }
            let mut i: usize = 0;
            while i < items.len()
                invariant
                    m == lit_seq_model(items@),
                    m.len() == items@.len(),
                    forall|k: int|
                        0 <= k < items@.len() ==> m[k] == lit_model(#[trigger] items@[k]),
                    forall|k: int| 0 <= k < items@.len() ==> decreases_to!(*v => items@[k]),
                    i <= items@.len(),
                    out@ == old(out)@ + seq!['['] + spec_compact_items(m, i as int),
                decreases items@.len() - i,
            {
                let ghost o1 = out@;
                if i > 0 {
                    out.push(',');
                }
                proof {
                    assert(decreases_to!(*v => items@[i as int]));
                }
                json_compact_push(&items[i], out);
                i = i + 1;
                proof {
                    assert(out@ =~= old(out)@ + seq!['['] + spec_compact_items(m, i as int));
                }
            }
            out.push(']');
            proof {
                assert(out@ =~= old(out)@ + spec_json_compact(v@));
            }
        },
        LiteralValue::Object(entries) => {
            let ghost m = obj_seq_model(entries@);
            proof {
                lemma_obj_seq_model(entries@);
            }
            out.push('{');
            proof {
                assert(out@ =~= old(out)@ + seq!['{'] + spec_compact_entries(m, 0));
            }
            let mut i: usize = 0;
            while i < entries.len()
                invariant
                    m == obj_seq_model(entries@),
                    m.len() == entries@.len(),
                    forall|k: int|
                        0 <= k < entries@.len() ==> m[k] == ((#[trigger] entries@[k]).0@,
                        lit_model(entries@[k].1)),
                    forall|k: int| 0 <= k < entries@.len() ==> decreases_to!(*v => entries@[k].1),
                    i <= entries@.len(),
                    out@ == old(out)@ + seq!['{'] + spec_compact_entries(m, i as int),
                decreases entries@.len() - i,
            {
                if i > 0 {
                    out.push(',');
                }
                out.push('"');
                push_escaped(out, &entries[i].0);
                out.push('"');
                out.push(':');
                proof {
                    assert(decreases_to!(*v => entries@[i as int].1));
                }
                json_compact_push(&entries[i].1, out);
                i = i + 1;
                proof {
                    assert(out@ =~= old(out)@ + seq!['{'] + spec_compact_entries(m, i as int));
                }
            }
            out.push('}');
            proof {
                assert(out@ =~= old(out)@ + spec_json_compact(v@));
            }
        },
    }
}

fn json_pretty_push(v: &LiteralValue, out: &mut Vec<char>, level: usize)
    ensures
        final(out)@ == old(out)@ + spec_json_pretty(v@, level as nat),
    decreases *v,
{
    match v {
        LiteralValue::Null => {
            let lit = chars_of("null");
            push_all(out, &lit);
        },
        LiteralValue::Bool(b) => {
            let lit = if *b {
                chars_of("true")
            } else {
                chars_of("false")
            };
            push_all(out, &lit);
        },
        LiteralValue::Number(t) => {
            let cs = chars_of(t.as_str());
            push_all(out, &cs);
        },
        LiteralValue::Text(t) => {
            out.push('"');
            push_escaped(out, t);
            out.push('"');
            proof {
                assert(out@ =~= old(out)@ + spec_json_pretty(v@, level as nat));
            }
        },
        LiteralValue::Array(items) => {
            let ghost m = lit_seq_model(items@);
            proof {
                lemma_lit_seq_model(items@);
            }
            if items.len() == 0 {
                let lit = chars_of("[]");
                push_all(out, &lit);
                return ;
            }
            let next: usize = if level < 0xffff_ffffusize {
                level + 1
            } else {
                level
            };
            out.push('[');
            out.push('\n');
            proof {
                assert(out@ =~= old(out)@ + seq!['[', '\n'] + spec_pretty_items(
                    m,
                    0,
                    next as nat,
                ));
            }
            let mut i: usize = 0;
            while i < items.len()
                invariant
                    m == lit_seq_model(items@),
                    m.len() == items@.len(),
                    forall|k: int|
                        0 <= k < items@.len() ==> m[k] == lit_model(#[trigger] items@[k]),
                    forall|k: int| 0 <= k < items@.len() ==> decreases_to!(*v => items@[k]),
                    i <= items@.len(),
                    out@ == old(out)@ + seq!['[', '\n'] + spec_pretty_items(
                        m,
                        i as int,
                        next as nat,
                    ),
                decreases items@.len() - i,
            {
                if i > 0 {
                    out.push(',');
                    out.push('\n');
                }
                push_indent(out, next);
                proof {
                    assert(decreases_to!(*v => items@[i as int]));
                }
                json_pretty_push(&items[i], out, next);
                i = i + 1;
                proof {
                    assert(out@ =~= old(out)@ + seq!['[', '\n'] + spec_pretty_items(
                        m,
                        i as int,
                        next as nat,
                    ));
                }
            }
            out.push('\n');
            push_indent(out, level);
            out.push(']');
            proof {
                assert(out@ =~= old(out)@ + spec_json_pretty(v@, level as nat));
            }
        },
        LiteralValue::Object(entries) => {
            let ghost m = obj_seq_model(entries@);
            proof {
                lemma_obj_seq_model(entries@);
            }
            if entries.len() == 0 {
                let lit = chars_of("{}");
                push_all(out, &lit);
                return ;
            }
            let next: usize = if level < 0xffff_ffffusize {
                level + 1
            } else {
                level
            };
            out.push('{');
            out.push('\n');
            proof {
                assert(out@ =~= old(out)@ + seq!['{', '\n'] + spec_pretty_entries(
                    m,
                    0,
                    next as nat,
                ));
            }
            let mut i: usize = 0;
            while i < entries.len()
                invariant
                    m == obj_seq_model(entries@),
                    m.len() == entries@.len(),
                    forall|k: int|
                        0 <= k < entries@.len() ==> m[k] == ((#[trigger] entries@[k]).0@,
                        lit_model(entries@[k].1)),
                    forall|k: int| 0 <= k < entries@.len() ==> decreases_to!(*v => entries@[k].1),
                    i <= entries@.len(),
                    out@ == old(out)@ + seq!['{', '\n'] + spec_pretty_entries(
                        m,
                        i as int,
                        next as nat,
                    ),
                decreases entries@.len() - i,
            {
                if i > 0 {
                    out.push(',');
                    out.push('\n');
                }
                push_indent(out, next);
                out.push('"');
                push_escaped(out, &entries[i].0);
                out.push('"');
                out.push(':');
                out.push(' ');
                proof {
                    assert(decreases_to!(*v => entries@[i as int].1));
                }
                json_pretty_push(&entries[i].1, out, next);
                i = i + 1;
                proof {
                    assert(out@ =~= old(out)@ + seq!['{', '\n'] + spec_pretty_entries(
                        m,
                        i as int,
                        next as nat,
                    ));
                }
            }
            out.push('\n');
            push_indent(out, level);
            out.push('}');
            proof {
                assert(out@ =~= old(out)@ + spec_json_pretty(v@, level as nat));
            }
        },
    }
}

/// Renders a literal value as compact JSON text: no whitespace anywhere.
pub fn render_json_compact(v: &LiteralValue) -> (r: String)
    ensures
        r@ == spec_json_compact(v@),
{
    let mut out: Vec<char> = Vec::new();
    json_compact_push(v, &mut out);
    string_from_chars(&out)
}

/// Renders a literal value as indented JSON text: two spaces per nesting
/// level, one element per line.
pub fn render_json_pretty(v: &LiteralValue) -> (r: String)
    ensures
        r@ == spec_json_pretty(v@, 0),
{
    let mut out: Vec<char> = Vec::new();
    json_pretty_push(v, &mut out, 0);
    string_from_chars(&out)
}

} // verus!
