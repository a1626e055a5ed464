//! The value of an integer literal.

use vstd::prelude::*;
use crate::lexer::chars::{lemma_run_is_maximal, run, CharClass};

verus! {

/// The number that a decimal digit stands for.
pub open spec fn digit_value(c: char) -> int {
    c as int - '0' as int
}

/// The number that a string of decimal digits stands for, most significant
/// digit first; the empty string stands for zero.
pub open spec fn decimal(digits: Seq<char>) -> int
    decreases digits.len(),
{
    if digits.len() == 0 {
        0
    } else {
        decimal(digits.drop_last()) * 10 + digit_value(digits.last())
    }
}

/// Whether `lit` is an optional minus sign followed by one or more decimal
/// digits and nothing else.
pub open spec fn is_integer_literal(lit: Seq<char>) -> bool {
    let sign = sign_len(lit, 0);
    sign < lit.len() && sign + run(lit, sign, CharClass::Digit) == lit.len()
}

/// One where a minus sign stands at index `i` of `s`, zero elsewhere.
pub open spec fn sign_len(s: Seq<char>, i: int) -> int {
    if 0 <= i < s.len() && s[i] == '-' {
        1
    } else {
        0
    }
}

/// The number that an integer literal stands for: the value of its digits,
/// negated where a minus sign precedes them.
pub open spec fn integer_value(lit: Seq<char>) -> int {
    if lit.len() > 0 && lit[0] == '-' {
        -decimal(lit.skip(1))
    } else {
        decimal(lit)
    }
}

/// Whether `v` can be held in 64 bits with a sign.
pub open spec fn fits_i64(v: int) -> bool {
    i64::MIN <= v <= i64::MAX
}

/// A string of digits stands for no less than any of its prefixes does, and
/// for no negative number.
pub proof fn lemma_decimal_monotonic(digits: Seq<char>, k: int)
    requires
        0 <= k <= digits.len(),
        forall|j: int| 0 <= j < digits.len() ==> CharClass::Digit.has(#[trigger] digits[j]),
    ensures
        0 <= decimal(digits.take(k)) <= decimal(digits),
    decreases digits.len() - k,
{
    lemma_decimal_nonnegative(digits.take(k));
    if k < digits.len() {
        lemma_decimal_monotonic(digits, k + 1);
        assert(digits.take(k + 1).drop_last() =~= digits.take(k));
        lemma_decimal_nonnegative(digits.take(k));
    } else {
        assert(digits.take(k) =~= digits);
    }
}

/// A string of digits stands for no negative number.
pub proof fn lemma_decimal_nonnegative(digits: Seq<char>)
    requires
        forall|j: int| 0 <= j < digits.len() ==> CharClass::Digit.has(#[trigger] digits[j]),
    ensures
        0 <= decimal(digits),
    decreases digits.len(),
{
    if digits.len() > 0 {
        lemma_decimal_nonnegative(digits.drop_last());
    }
}

/// The value of the digits at `from..to`, where it is at most `u64::MAX`.
fn magnitude(chars: &Vec<char>, from: usize, to: usize) -> (m: Option<u64>)
    requires
        from <= to <= chars.len(),
        forall|j: int| from <= j < to ==> CharClass::Digit.has(#[trigger] chars@[j]),
    ensures
        m is Some <==> decimal(chars@.subrange(from as int, to as int)) <= u64::MAX,
        m is Some ==> m->0 == decimal(chars@.subrange(from as int, to as int)),
{
    let ghost digits = chars@.subrange(from as int, to as int);
    let mut acc: u64 = 0;
    let mut i: usize = from;
    assert(digits.take(0) =~= Seq::<char>::empty());
    while i < to
        invariant
            from <= i <= to <= chars.len(),
            digits == chars@.subrange(from as int, to as int),
            forall|j: int| 0 <= j < digits.len() ==> CharClass::Digit.has(#[trigger] digits[j]),
            acc == decimal(digits.take(i - from)),
        decreases to - i,
    {
        assert(digits[i - from] == chars@[i as int]);
        let d: u64 = (chars[i] as u32 - '0' as u32) as u64;
        proof {
            assert(digits.take(i - from + 1).drop_last() =~= digits.take(i - from));
            assert(digits.take(i - from + 1).last() == chars@[i as int]);
            assert(d == digit_value(chars@[i as int]));
            lemma_decimal_monotonic(digits, i - from + 1);
        }
        if acc > (u64::MAX - d) / 10 {
            return None;
        }
        acc = acc * 10 + d;
        i = i + 1;
    }
    assert(digits.take(to - from) =~= digits);
    Some(acc)
}

/// An integer literal is its sign and digits: no other character stands in
/// it.
pub proof fn lemma_integer_literal_digits(lit: Seq<char>)
    requires
        is_integer_literal(lit),
    ensures
        forall|j: int|
            sign_len(lit, 0) <= j < lit.len() ==> CharClass::Digit.has(#[trigger] lit[j]),
        0 <= decimal(lit.skip(sign_len(lit, 0))),
{
    let sign = sign_len(lit, 0);
    lemma_run_is_maximal(lit, sign, CharClass::Digit);
    lemma_decimal_nonnegative(lit.skip(sign));
}

/// The value of the integer literal at `from..to` times `factor`, where that
/// product can be held in an `i64`.
pub(crate) fn scaled_integer(chars: &Vec<char>, from: usize, to: usize, factor: i64) -> (v: Option<
    i64,
>)
    requires
        from < to <= chars.len(),
        is_integer_literal(chars@.subrange(from as int, to as int)),
    ensures
        v is Some <==> fits_i64(
            integer_value(chars@.subrange(from as int, to as int)) * factor,
        ),
        v is Some ==> v->0 == integer_value(chars@.subrange(from as int, to as int)) * factor,
{
    let ghost lit = chars@.subrange(from as int, to as int);
    let negative = chars[from] == '-';
    let start: usize = if negative {
        from + 1
    } else {
        from
    };
    proof {
        assert(lit[0] == chars@[from as int]);
        lemma_integer_literal_digits(lit);
        assert forall|j: int| start <= j < to implies CharClass::Digit.has(
            #[trigger] chars@[j],
        ) by {
            assert(lit[j - from] == chars@[j]);
        }
        assert(lit.skip(sign_len(lit, 0)) =~= chars@.subrange(start as int, to as int));
    }
    if factor == 0 {
        return Some(0);
    }
    match magnitude(chars, start, to) {
        None => {
            proof {
                let m = decimal(chars@.subrange(start as int, to as int));
                assert((m * factor >= m || m * factor <= -m) && ((-m) * factor >= m || (-m)
                    * factor <= -m)) by (nonlinear_arith)
                    requires
                        m >= 0,
                        factor != 0,
                ;
            }
            None
        },
        Some(m) => {
            let wide: i128 = if negative {
                -(m as i128)
            } else {
                m as i128
            };
            assert(-(0xffff_ffff_ffff_ffff * 0x8000_0000_0000_0000) <= wide * factor
                <= 0xffff_ffff_ffff_ffff * 0x8000_0000_0000_0000) by (nonlinear_arith)
                requires
                    -0xffff_ffff_ffff_ffff <= wide <= 0xffff_ffff_ffff_ffff,
                    -0x8000_0000_0000_0000 <= factor <= 0x8000_0000_0000_0000,
            ;
            let product: i128 = wide * (factor as i128);
            if product < i64::MIN as i128 || product > i64::MAX as i128 {
                None
            } else {
                Some(product as i64)
            }
        },
    }
}

} // verus!
