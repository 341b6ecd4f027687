//! Decimal digit strings as byte sequences.

use vstd::prelude::*;

verus! {

/// ASCII code of `'0'`.
pub const ZERO: u8 = 48;

/// ASCII code of `'-'`.
pub const MINUS: u8 = 45;

/// ASCII code of `'.'`.
pub const DOT: u8 = 46;

/// ASCII code of `'e'`.
pub const EXP: u8 = 101;

/// The two ASCII digits of each number below 100, in order.
pub const DIGIT_TABLE: [u8; 200] = [
    48, 48, 48, 49, 48, 50, 48, 51, 48, 52,
    48, 53, 48, 54, 48, 55, 48, 56, 48, 57,
    49, 48, 49, 49, 49, 50, 49, 51, 49, 52,
    49, 53, 49, 54, 49, 55, 49, 56, 49, 57,
    50, 48, 50, 49, 50, 50, 50, 51, 50, 52,
    50, 53, 50, 54, 50, 55, 50, 56, 50, 57,
    51, 48, 51, 49, 51, 50, 51, 51, 51, 52,
    51, 53, 51, 54, 51, 55, 51, 56, 51, 57,
    52, 48, 52, 49, 52, 50, 52, 51, 52, 52,
    52, 53, 52, 54, 52, 55, 52, 56, 52, 57,
    53, 48, 53, 49, 53, 50, 53, 51, 53, 52,
    53, 53, 53, 54, 53, 55, 53, 56, 53, 57,
    54, 48, 54, 49, 54, 50, 54, 51, 54, 52,
    54, 53, 54, 54, 54, 55, 54, 56, 54, 57,
    55, 48, 55, 49, 55, 50, 55, 51, 55, 52,
    55, 53, 55, 54, 55, 55, 55, 56, 55, 57,
    56, 48, 56, 49, 56, 50, 56, 51, 56, 52,
    56, 53, 56, 54, 56, 55, 56, 56, 56, 57,
    57, 48, 57, 49, 57, 50, 57, 51, 57, 52,
    57, 53, 57, 54, 57, 55, 57, 56, 57, 57,
];

/// Each entry pair of the digit table holds the tens and the units digit.
pub proof fn lemma_digit_table(c: int)
    requires
        0 <= c < 100,
    ensures
        DIGIT_TABLE@[2 * c] == 48 + c / 10,
        DIGIT_TABLE@[2 * c + 1] == 48 + c % 10,
{
}

pub open spec fn is_digit(b: u8) -> bool {
    48 <= b <= 57
}

pub open spec fn all_digits(s: Seq<u8>) -> bool {
    forall|i: int| 0 <= i < s.len() ==> is_digit(#[trigger] s[i])
}

/// `n` copies of `'0'`.
pub open spec fn zeros(n: nat) -> Seq<u8> {
    Seq::new(n, |i: int| 48u8)
}

pub open spec fn pow10(n: nat) -> nat
    decreases n,
{
    if n == 0 {
        1
    } else {
        10 * pow10((n - 1) as nat)
    }
}

/// The last `n` decimal digits of `v`, most significant first, padded with
/// leading zeros.
pub open spec fn digits_n(v: nat, n: nat) -> Seq<u8>
    decreases n,
{
    if n == 0 {
        Seq::empty()
    } else {
        digits_n(v / 10, (n - 1) as nat).push((48 + v % 10) as u8)
    }
}

/// `s` with the bytes from `at` on overwritten by `x`.
pub open spec fn splice(s: Seq<u8>, at: int, x: Seq<u8>) -> Seq<u8> {
    s.subrange(0, at) + x + s.subrange(at + x.len(), s.len() as int)
}

pub proof fn lemma_splice_twice(s: Seq<u8>, a: int, x: Seq<u8>, y: Seq<u8>)
    requires
        0 <= a,
        a + x.len() + y.len() <= s.len(),
    ensures
        splice(splice(s, a, x), a + x.len(), y) == splice(s, a, x + y),
{
    assert(splice(splice(s, a, x), a + x.len(), y) =~= splice(s, a, x + y));
}

/// Number of decimal digits of `v` (one for zero).
pub open spec fn num_digits(v: nat) -> nat
    decreases v,
{
    if v < 10 {
        1
    } else {
        1 + num_digits(v / 10)
    }
}

/// The decimal text of `v`, without leading zeros.
pub open spec fn dec(v: nat) -> Seq<u8> {
    digits_n(v, num_digits(v))
}

pub proof fn lemma_digits_n_len(v: nat, n: nat)
    ensures
        digits_n(v, n).len() == n,
    decreases n,
{
    if n > 0 {
        lemma_digits_n_len(v / 10, (n - 1) as nat);
    }
}

pub proof fn lemma_digits_n_all_digits(v: nat, n: nat)
    ensures
        all_digits(digits_n(v, n)),
    decreases n,
{
    if n > 0 {
        lemma_digits_n_all_digits(v / 10, (n - 1) as nat);
        lemma_digits_n_len(v / 10, (n - 1) as nat);
    }
}

pub proof fn lemma_pow10_pos(n: nat)
    ensures
        pow10(n) >= 1,
    decreases n,
{
    if n > 0 {
        lemma_pow10_pos((n - 1) as nat);
    }
}

/// Prepending the next more significant digit.
pub proof fn lemma_digits_n_prepend(v: nat, n: nat)
    ensures
        digits_n(v, n + 1) == seq![(48 + (v / pow10(n)) % 10) as u8] + digits_n(v, n),
    decreases n,
{
    if n == 0 {
        assert(pow10(0) == 1);
        assert(v / 1 == v);
        assert(digits_n(v, 0) == Seq::<u8>::empty());
        assert(digits_n(v / 10, 0) == Seq::<u8>::empty());
        assert(digits_n(v, 1) =~= seq![(48 + (v / pow10(0)) % 10) as u8] + digits_n(v, 0));
    } else {
        lemma_digits_n_prepend(v / 10, (n - 1) as nat);
        lemma_pow10_pos((n - 1) as nat);
        assert(v / 10 / pow10((n - 1) as nat) == v / pow10(n)) by {
            vstd::arithmetic::div_mod::lemma_div_denominator(v as int, 10, pow10((n - 1) as nat) as int);
        }
        assert(digits_n(v, n + 1) =~= seq![(48 + (v / pow10(n)) % 10) as u8] + digits_n(v, n));
    }
}

pub proof fn lemma_num_digits_bounds(v: nat)
    ensures
        num_digits(v) >= 1,
        v < pow10(num_digits(v)),
        num_digits(v) > 1 ==> pow10((num_digits(v) - 1) as nat) <= v,
    decreases v,
{
    if v >= 10 {
        let w = v / 10;
        lemma_num_digits_bounds(w);
        let p = pow10(num_digits(w));
        assert(pow10(num_digits(v)) == 10 * p);
        assert(v < 10 * p) by (nonlinear_arith)
            requires
                w == v / 10,
                w < p,
        ;
        if num_digits(w) > 1 {
            let q = pow10((num_digits(w) - 1) as nat);
            assert(p == 10 * q);
            assert(10 * q <= v) by (nonlinear_arith)
                requires
                    w == v / 10,
                    q <= w,
            ;
        } else {
            assert(pow10(1) == 10 * pow10(0));
        }
    } else {
        assert(pow10(1) == 10 * pow10(0));
    }
}

/// `num_digits` is determined by the power-of-ten bracket.
pub proof fn lemma_num_digits_unique(v: nat, n: nat)
    requires
        n >= 1,
        v < pow10(n),
        n > 1 ==> pow10((n - 1) as nat) <= v,
    ensures
        num_digits(v) == n,
    decreases n,
{
    if n > 1 {
        let p = pow10((n - 1) as nat);
        assert(pow10(n) == 10 * p);
        lemma_pow10_pos((n - 1) as nat);
        if n - 1 > 1 {
            let q = pow10((n - 2) as nat);
            assert(p == 10 * q);
            lemma_pow10_pos((n - 2) as nat);
            assert(q <= v / 10) by (nonlinear_arith)
                requires
                    10 * q <= v,
            ;
        } else {
            assert(p == 10) by {
                assert(pow10(1) == 10 * pow10(0));
            }
        }
        assert(v / 10 < p) by (nonlinear_arith)
            requires
                v < 10 * p,
        ;
        lemma_num_digits_unique(v / 10, (n - 1) as nat);
    } else {
        assert(pow10(1) == 10 * pow10(0));
        assert(v < 10);
    }
}

pub proof fn lemma_dec_shape(v: nat)
    ensures
        dec(v).len() == num_digits(v),
        all_digits(dec(v)),
        num_digits(v) >= 1,
{
    lemma_digits_n_len(v, num_digits(v));
    lemma_digits_n_all_digits(v, num_digits(v));
    lemma_num_digits_bounds(v);
}

} // verus!
