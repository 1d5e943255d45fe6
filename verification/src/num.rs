//! Decimal digits: rendering unsigned integers as character sequences and
//! parsing integer literals, as needed for regex bounds and for deciding
//! whether a numeric bound renders as an integer or as a float literal.

use vstd::prelude::*;

verus! {

/// The character for a single decimal digit value.
pub open spec fn spec_digit(d: int) -> char {
    if d == 0 {
        '0'
    } else if d == 1 {
        '1'
    } else if d == 2 {
        '2'
    } else if d == 3 {
        '3'
    } else if d == 4 {
        '4'
    } else if d == 5 {
        '5'
    } else if d == 6 {
        '6'
    } else if d == 7 {
        '7'
    } else if d == 8 {
        '8'
    } else {
        '9'
    }
}

/// The decimal rendering of a natural number, most significant digit first.
pub open spec fn spec_dec_nat(n: nat) -> Seq<char>
    decreases n,
{
    if n < 10 {
        seq![spec_digit(n as int)]
    } else {
        spec_dec_nat(n / 10) + seq![spec_digit((n % 10) as int)]
    }
}

pub fn digit_char(d: u64) -> (c: char)
    requires
        d < 10,
    ensures
        c == spec_digit(d as int),
{
    if d == 0 {
        '0'
    } else if d == 1 {
        '1'
    } else if d == 2 {
        '2'
    } else if d == 3 {
        '3'
    } else if d == 4 {
        '4'
    } else if d == 5 {
        '5'
    } else if d == 6 {
        '6'
    } else if d == 7 {
        '7'
    } else if d == 8 {
        '8'
    } else {
        '9'
    }
}

/// Renders an unsigned integer in decimal.
pub fn u64_to_dec_chars(n: u64) -> (r: Vec<char>)
    ensures
        r@ == spec_dec_nat(n as nat),
    decreases n,
{
    if n < 10 {
        let mut r: Vec<char> = Vec::new();
        r.push(digit_char(n));
        proof {
            assert(r@ =~= spec_dec_nat(n as nat));
        }
        r
    } else {
        let mut r = u64_to_dec_chars(n / 10);
        r.push(digit_char(n % 10));
        proof {
            assert(r@ =~= spec_dec_nat((n / 10) as nat) + seq![
                spec_digit((n % 10) as int),
            ]);
        }
        r
    }
}

/// Whether `c` is a decimal digit.
pub open spec fn spec_is_digit(c: char) -> bool {
    48 <= c as u32 <= 57
}

/// The numeric value of a decimal digit character.
pub open spec fn spec_digit_val(c: char) -> int {
    c as u32 - 48
}

/// The value of a sequence of decimal digit characters, read left to right.
pub open spec fn spec_digits_val(s: Seq<char>) -> int
    decreases s.len(),
{
    if s.len() == 0 {
        0
    } else {
        spec_digits_val(s.drop_last()) * 10 + spec_digit_val(s.last())
    }
}

/// Whether every character of `s` is a decimal digit.
pub open spec fn spec_all_digits(s: Seq<char>) -> bool {
    forall|i: int| 0 <= i < s.len() ==> spec_is_digit(#[trigger] s[i])
}

/// The digits of an integer literal, with any single leading sign removed.
pub open spec fn spec_int_literal_body(s: Seq<char>) -> Seq<char> {
    if s.len() > 0 && (s[0] == '-' || s[0] == '+') {
        s.drop_first()
    } else {
        s
    }
}

/// Whether `s` is an integer literal: an optional sign followed by at least
/// one decimal digit and nothing else.
pub open spec fn spec_is_int_literal(s: Seq<char>) -> bool {
    let body = spec_int_literal_body(s);
    body.len() > 0 && spec_all_digits(body)
}

/// The value of an integer literal.
pub open spec fn spec_int_literal_val(s: Seq<char>) -> int {
    if s.len() > 0 && s[0] == '-' {
        -spec_digits_val(s.drop_first())
    } else {
        spec_digits_val(spec_int_literal_body(s))
    }
}

/// The result of reading `s` as an `i64`: the literal's value where `s` is an
/// integer literal in range, nothing otherwise.
pub open spec fn spec_parse_i64(s: Seq<char>) -> Option<i64> {
    if spec_is_int_literal(s) && i64::MIN <= spec_int_literal_val(s) <= i64::MAX {
        Some(spec_int_literal_val(s) as i64)
    } else {
        None
    }
}

proof fn lemma_digits_val_nonneg(s: Seq<char>)
    requires
        spec_all_digits(s),
    ensures
        spec_digits_val(s) >= 0,
    decreases s.len(),
{
    if s.len() > 0 {
        assert(spec_all_digits(s.drop_last()));
        lemma_digits_val_nonneg(s.drop_last());
    }
}

/// Extending a digit string on the right cannot decrease its value.
proof fn lemma_digits_val_mono(s: Seq<char>, i: int, j: int)
    requires
        spec_all_digits(s),
        0 <= i <= j <= s.len(),
    ensures
        spec_digits_val(s.subrange(0, i)) <= spec_digits_val(s.subrange(0, j)),
    decreases j - i,
{
    if i < j {
        let p = s.subrange(0, j);
        assert(p.drop_last() =~= s.subrange(0, j - 1));
        assert(spec_all_digits(s.subrange(0, j - 1)));
        lemma_digits_val_nonneg(s.subrange(0, j - 1));
        assert(spec_digits_val(s.subrange(0, j)) == spec_digits_val(s.subrange(0, j - 1)) * 10
            + spec_digit_val(s[j - 1]));
        assert(spec_digits_val(s.subrange(0, j - 1)) * 10 >= spec_digits_val(
            s.subrange(0, j - 1),
        )) by (nonlinear_arith)
            requires
                spec_digits_val(s.subrange(0, j - 1)) >= 0,
        ;
        lemma_digits_val_mono(s, i, j - 1);
    }
}

fn char_digit_val(c: char) -> (r: Option<u64>)
    ensures
        r is Some <==> spec_is_digit(c),
        r is Some ==> r->0 == spec_digit_val(c) && r->0 < 10,
{
    let v = c as u32;
    if 48 <= v && v <= 57 {
        Some((v - 48) as u64)
    } else {
        None
    }
}

/// Reads `s` as an `i64`, accepting exactly an optional sign followed by
/// decimal digits, and rejecting values out of range.
pub fn parse_i64_chars(s: &Vec<char>) -> (r: Option<i64>)
    ensures
        r == spec_parse_i64(s@),
{
    let n = s.len();
    if n == 0 {
        return None;
    }
    let c0 = s[0];
    let neg = c0 == '-';
    let start: usize = if c0 == '-' || c0 == '+' {
        1
    } else {
        0
    };
    let ghost body = spec_int_literal_body(s@);
    proof {
        assert(body =~= s@.subrange(start as int, n as int));
    }
    if start == n {
        return None;
    }
    let mut acc: u64 = 0;
    let mut i: usize = start;
    while i < n
        invariant
            n == s@.len(),
            start <= i <= n,
            start < n,
            body == spec_int_literal_body(s@),
            body == s@.subrange(start as int, n as int),
            spec_all_digits(body.subrange(0, i - start)),
            acc == spec_digits_val(body.subrange(0, i - start)),
        decreases n - i,
    {
        let ghost done = body.subrange(0, i - start);
        let c = s[i];
        proof {
            assert(body[i - start] == s@[i as int]);
        }
        let d = match char_digit_val(c) {
            Some(d) => d,
            None => {
                proof {
                    assert(!spec_is_digit(body[i - start]));
                    assert(!spec_all_digits(body));
                    assert(!spec_is_int_literal(s@));
                }
                return None;
            },
        };
        if acc > (u64::MAX - d) / 10 {
            proof {
                assert(body.subrange(0, i + 1 - start).drop_last() =~= done);
                assert(spec_digits_val(body.subrange(0, i + 1 - start)) == acc * 10
                    + spec_digit_val(c));
                assert(acc * 10 + d > u64::MAX) by (nonlinear_arith)
                    requires
                        acc > (u64::MAX - d) / 10,
                        d < 10,
                ;
                if spec_is_int_literal(s@) {
                    assert(spec_all_digits(body));
                    lemma_digits_val_mono(body, i + 1 - start, body.len() as int);
                    assert(body.subrange(0, body.len() as int) =~= body);
                    assert(spec_digits_val(body) > u64::MAX);
                    if s@[0] == '-' {
                        assert(s@.drop_first() =~= body);
                    }
                    assert(!(i64::MIN <= spec_int_literal_val(s@) <= i64::MAX));
                }
            }
            return None;
        }
        proof {
            assert(body.subrange(0, i + 1 - start).drop_last() =~= done);
            assert(spec_all_digits(body.subrange(0, i + 1 - start)));
        }
        acc = acc * 10 + d;
        i = i + 1;
    }
    proof {
        assert(body.subrange(0, n - start) =~= body);
        assert(spec_all_digits(body));
        assert(spec_is_int_literal(s@));
        if neg {
            assert(s@.drop_first() =~= body);
        }
    }
    if neg {
        if acc > 9223372036854775808u64 {
            return None;
        } else if acc == 9223372036854775808u64 {
            Some(i64::MIN)
        } else {
            Some(-(acc as i64))
        }
    } else {
        if acc > i64::MAX as u64 {
            return None;
        }
        Some(acc as i64)
    }
}

} // verus!
