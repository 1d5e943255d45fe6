//! Character-level utilities shared by the synthesis engine: conversion
//! between strings and character vectors, substring search, and textual
//! replacement.  Contracts are stated over the character sequences (`Seq<char>`)
//! that strings and character vectors denote.

use vstd::prelude::*;
use vstd::string::*;

verus! {

/// Turns a string slice into the vector of its characters.
pub fn chars_of(s: &str) -> (r: Vec<char>)
    ensures
        r@ == s@,
{
    let n = s.unicode_len();
    let mut r: Vec<char> = Vec::new();
    let mut i: usize = 0;
    while i < n
        invariant
            n == s@.len(),
            i <= n,
            r@ == s@.subrange(0, i as int),
        decreases n - i,
    {
        r.push(s.get_char(i));
        i = i + 1;
        proof {
            assert(r@ =~= s@.subrange(0, i as int));
        }
    }
    proof {
        assert(r@ =~= s@);
    }
    r
}

/// Relies on `String`'s `FromIterator<char>` implementation: collecting an
/// in-order iterator of characters yields the string of exactly those
/// characters.
#[verifier::external_body]
pub(crate) fn string_from_chars(v: &Vec<char>) -> (r: String)
    ensures
        r@ == v@,
{
    v.iter().copied().collect()
}

/// Appends all characters of `src` to `dst`.
pub fn push_all(dst: &mut Vec<char>, src: &Vec<char>)
    ensures
        final(dst)@ == old(dst)@ + src@,
{
    let mut j: usize = 0;
    while j < src.len()
        invariant
            j <= src@.len(),
            dst@ == old(dst)@ + src@.subrange(0, j as int),
        decreases src@.len() - j,
    {
        dst.push(src[j]);
        j = j + 1;
        proof {
            assert(dst@ =~= old(dst)@ + src@.subrange(0, j as int));
        }
    }
    proof {
        assert(dst@ =~= old(dst)@ + src@);
    }
}

/// The occurrence of `sub` at position `i` of `s`.
pub open spec fn spec_matches_at(s: Seq<char>, sub: Seq<char>, i: int) -> bool {
    0 <= i && i + sub.len() <= s.len() && s.subrange(i, i + sub.len()) == sub
}

/// Whether `sub` occurs anywhere in `s`.
pub open spec fn spec_contains(s: Seq<char>, sub: Seq<char>) -> bool {
    exists|i: int| spec_matches_at(s, sub, i)
}

/// Whether `sub` occurs at position `i` of `s`.
pub fn matches_at(s: &Vec<char>, sub: &Vec<char>, i: usize) -> (r: bool)
    requires
        i + sub@.len() <= s@.len(),
    ensures
        r == spec_matches_at(s@, sub@, i as int),
{
    let n = s.len();
    let mut j: usize = 0;
    while j < sub.len()
        invariant
            n == s@.len(),
            i + sub@.len() <= s@.len(),
            j <= sub@.len(),
            forall|k: int| 0 <= k < j ==> s@[i + k] == sub@[k],
        decreases sub@.len() - j,
    {
        if s[i + j] != sub[j] {
            proof {
                assert(s@.subrange(i as int, i + sub@.len())[j as int] == s@[i + j]);
            }
            return false;
        }
        j = j + 1;
    }
    proof {
        assert(s@.subrange(i as int, i + sub@.len()) =~= sub@);
    }
    true
}

/// Whether `sub` occurs anywhere in `s`.
pub fn contains_chars(s: &Vec<char>, sub: &Vec<char>) -> (r: bool)
    ensures
        r == spec_contains(s@, sub@),
{
    if sub.len() > s.len() {
        proof {
            assert(forall|i: int| !spec_matches_at(s@, sub@, i));
        }
        return false;
    }
    if sub.len() == 0 {
        proof {
            assert(s@.subrange(0, 0) =~= sub@);
            assert(spec_matches_at(s@, sub@, 0));
        }
        return true;
    }
    let last = s.len() - sub.len();
    let mut i: usize = 0;
    while i <= last
        invariant
            0 < sub@.len() <= s@.len(),
            s@.len() <= usize::MAX,
            last == s@.len() - sub@.len(),
            i <= last + 1,
            forall|k: int| 0 <= k < i ==> !spec_matches_at(s@, sub@, k),
        decreases last + 1 - i,
    {
        if matches_at(s, sub, i) {
            return true;
        }
        i = i + 1;
    }
    proof {
        assert(forall|k: int| !spec_matches_at(s@, sub@, k));
    }
    false
}

/// Whether the string `s` contains the string `sub`.
pub fn str_contains(s: &String, sub: &String) -> (r: bool)
    ensures
        r == spec_contains(s@, sub@),
{
    let sc = chars_of(s.as_str());
    let subc = chars_of(sub.as_str());
    contains_chars(&sc, &subc)
}

/// Copies the characters of `s` between `from` and `to` into a new vector.
pub fn slice_chars(s: &Vec<char>, from: usize, to: usize) -> (r: Vec<char>)
    requires
        from <= to <= s@.len(),
    ensures
        r@ == s@.subrange(from as int, to as int),
{
    let mut r: Vec<char> = Vec::new();
    let mut i: usize = from;
    while i < to
        invariant
            from <= i <= to <= s@.len(),
            r@ == s@.subrange(from as int, i as int),
        decreases to - i,
    {
        r.push(s[i]);
        i = i + 1;
        proof {
            assert(r@ =~= s@.subrange(from as int, i as int));
        }
    }
    r
}

/// The first position of `c` in `s` at or after `from`, or the length of
/// `s` where it does not occur there.
pub open spec fn spec_find_char(s: Seq<char>, c: char, from: int) -> int
    decreases s.len() - from,
{
    if from < 0 || from >= s.len() {
        s.len() as int
    } else if s[from] == c {
        from
    } else {
        spec_find_char(s, c, from + 1)
    }
}

/// Finds the first position of `c` in `s` at or after `from`.
pub fn find_char(s: &Vec<char>, c: char, from: usize) -> (r: usize)
    ensures
        r == spec_find_char(s@, c, from as int),
    decreases s@.len() - from,
{
    if from >= s.len() {
        s.len()
    } else if s[from] == c {
        from
    } else {
        find_char(s, c, from + 1)
    }
}

/// Whether a string with the characters `x` occurs in the list `l`.
pub open spec fn str_in_list(l: Seq<String>, x: Seq<char>) -> bool {
    exists|i: int| 0 <= i < l.len() && (#[trigger] l[i])@ == x
}

/// Whether the string `x` occurs in the list `l`.
pub fn contains_string(l: &Vec<String>, x: &String) -> (r: bool)
    ensures
        r == str_in_list(l@, x@),
{
    let mut i: usize = 0;
    while i < l.len()
        invariant
            i <= l@.len(),
            forall|k: int| 0 <= k < i ==> (#[trigger] l@[k])@ != x@,
        decreases l@.len() - i,
    {
        if l[i] == *x {
            return true;
        }
        i = i + 1;
    }
    false
}

/// The result of replacing, left to right and without overlap, every
/// occurrence of `from` in `s` by `to`.  An empty `from` replaces nothing.
pub open spec fn spec_replace(s: Seq<char>, from: Seq<char>, to: Seq<char>) -> Seq<char>
    decreases s.len(),
{
    if from.len() == 0 || s.len() < from.len() {
        s
    } else if s.subrange(0, from.len() as int) == from {
        to + spec_replace(s.subrange(from.len() as int, s.len() as int), from, to)
    } else {
        seq![s[0]] + spec_replace(s.subrange(1, s.len() as int), from, to)
    }
}

/// Replaces every occurrence of `from` in `s` by `to`.
pub fn replace_chars(s: &Vec<char>, from: &Vec<char>, to: &Vec<char>) -> (r: Vec<char>)
    ensures
        r@ == spec_replace(s@, from@, to@),
{
    let mut r: Vec<char> = Vec::new();
    if from.len() == 0 {
        push_all(&mut r, s);
        return r;
    }
    let m = from.len();
    let mut i: usize = 0;
    proof {
        assert(s@.subrange(0, s@.len() as int) =~= s@);
        assert(Seq::<char>::empty() + spec_replace(s@, from@, to@) =~= spec_replace(
            s@,
            from@,
            to@,
        ));
    }
    while i < s.len()
        invariant
            m == from@.len(),
            m > 0,
            i <= s@.len(),
            spec_replace(s@, from@, to@) == r@ + spec_replace(
                s@.subrange(i as int, s@.len() as int),
                from@,
                to@,
            ),
        decreases s@.len() - i,
    {
        let ghost suffix = s@.subrange(i as int, s@.len() as int);
        let ghost r0 = r@;
        if m <= s.len() - i && matches_at(s, from, i) {
            proof {
                assert(suffix.subrange(0, m as int) =~= s@.subrange(i as int, i + m as int));
                assert(suffix.subrange(m as int, suffix.len() as int) =~= s@.subrange(
                    i + m as int,
                    s@.len() as int,
                ));
            }
            push_all(&mut r, to);
            i = i + m;
            proof {
                assert((r0 + to@) + spec_replace(
                    s@.subrange(i as int, s@.len() as int),
                    from@,
                    to@,
                ) =~= r0 + (to@ + spec_replace(
                    s@.subrange(i as int, s@.len() as int),
                    from@,
                    to@,
                )));
            }
        } else {
            proof {
                if suffix.len() >= m {
                    assert(suffix.subrange(0, m as int) =~= s@.subrange(i as int, i + m as int));
                }
                assert(suffix.subrange(1, suffix.len() as int) =~= s@.subrange(
                    i + 1,
                    s@.len() as int,
                ));
            }
            r.push(s[i]);
            i = i + 1;
            proof {
                assert((r0 + seq![suffix[0]]) + spec_replace(
                    s@.subrange(i as int, s@.len() as int),
                    from@,
                    to@,
                ) =~= r0 + (seq![suffix[0]] + spec_replace(
                    s@.subrange(i as int, s@.len() as int),
                    from@,
                    to@,
                )));
                assert(r@ =~= r0 + seq![suffix[0]]);
            }
        }
    }
    proof {
        assert(s@.subrange(s@.len() as int, s@.len() as int) =~= Seq::<char>::empty());
        assert(r@ + Seq::<char>::empty() =~= r@);
    }
    r
}

/// Replaces every occurrence of the string `from` in `s` by the string `to`.
pub fn str_replace(s: &String, from: &String, to: &String) -> (r: String)
    ensures
        r@ == spec_replace(s@, from@, to@),
{
    let sc = chars_of(s.as_str());
    let fc = chars_of(from.as_str());
    let tc = chars_of(to.as_str());
    let rc = replace_chars(&sc, &fc, &tc);
    string_from_chars(&rc)
}

} // verus!
