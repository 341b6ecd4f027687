//! The decimal value a numeric text denotes.

use vstd::prelude::*;
use crate::digits::{
    dec, digits_n, lemma_digits_n_len, lemma_num_digits_bounds, num_digits, pow10, zeros, MINUS,
    ZERO,
};
use crate::layout::{
    digits_value, exp_tail, exp_text, frac_digits, int_end, lemma_digits_value_concat,
    lemma_pow10_add, lemma_zeros_value, render_meta, render_text, sign_text, FormattedMeta,
    FormattedView,
};

verus! {

/// The value of an optionally signed digit string.
pub open spec fn signed_value(s: Seq<u8>) -> int {
    if s.len() > 0 && s[0] == MINUS {
        -digits_value(s.subrange(1, s.len() as int))
    } else {
        digits_value(s) as int
    }
}

/// Whether a numeric text starts with a minus sign.
pub open spec fn text_negative(v: FormattedView) -> bool {
    v.text.len() > 0 && v.text[0] == MINUS
}

/// All digits of a numeric text in order, integer part then fraction,
/// without the sign, the point and the exponent.
pub open spec fn text_digits(v: FormattedView) -> Seq<u8> {
    let int_part = v.text.subrange(0, int_end(v));
    let unsigned = if text_negative(v) {
        int_part.subrange(1, int_part.len() as int)
    } else {
        int_part
    };
    unsigned + frac_digits(v)
}

/// The power of ten that the integer `text_digits(v)` is scaled by.
pub open spec fn text_exponent(v: FormattedView) -> int {
    let tail = exp_tail(v);
    let e = if tail.len() > 0 {
        signed_value(tail.subrange(1, tail.len() as int))
    } else {
        0
    };
    e - frac_digits(v).len()
}

/// The text denotes `(-1)^neg * m * 10^k`.
pub open spec fn denotes(v: FormattedView, neg: bool, m: nat, k: int) -> bool {
    &&& text_negative(v) == neg
    &&& text_exponent(v) <= k
    &&& digits_value(text_digits(v)) == m * pow10((k - text_exponent(v)) as nat)
}

proof fn lemma_digits_n_value(v: nat, n: nat)
    ensures
        digits_value(digits_n(v, n)) == v % pow10(n),
    decreases n,
{
    if n == 0 {
        assert(pow10(0) == 1);
    } else {
        let s = digits_n(v, n);
        lemma_digits_n_len(v / 10, (n - 1) as nat);
        assert(s.drop_last() =~= digits_n(v / 10, (n - 1) as nat));
        lemma_digits_n_value(v / 10, (n - 1) as nat);
        let p = pow10((n - 1) as nat);
        crate::digits::lemma_pow10_pos((n - 1) as nat);
        assert(pow10(n) == 10 * p);
        vstd::arithmetic::div_mod::lemma_breakdown(v as int, 10, p as int);
        assert(v % (10 * p) == 10 * ((v / 10) % p) + v % 10) by {
            vstd::arithmetic::div_mod::lemma_mod_breakdown(v as int, 10, p as int);
            vstd::arithmetic::mul::lemma_mul_is_commutative(10, p as int);
        }
    }
}

/// The digits of `dec(m)` read back give `m`.
pub proof fn lemma_dec_value(m: nat)
    ensures
        digits_value(dec(m)) == m,
{
    lemma_digits_n_value(m, num_digits(m));
    lemma_num_digits_bounds(m);
    vstd::arithmetic::div_mod::lemma_small_mod(m, pow10(num_digits(m)));
}

/// The exponent text of `x` reads back as `x`.
pub proof fn lemma_exp_text_value(x: int)
    ensures
        signed_value(exp_text(x)) == x,
{
    if x < 0 {
        lemma_dec_value((-x) as nat);
        let t = exp_text(x);
        assert(t.subrange(1, t.len() as int) =~= dec((-x) as nat));
    } else {
        lemma_dec_value(x as nat);
        crate::digits::lemma_dec_shape(x as nat);
        assert(dec(x as nat)[0] != MINUS);
    }
}

proof fn lemma_sign_text(neg: bool, m: nat, k: int, upper: int, lower: int)
    requires
        0 < upper <= 16,
        lower < 0,
        num_digits(m) <= 20,
    ensures
        text_negative(
            FormattedView {
                text: render_text(neg, m, k, upper, lower),
                meta: render_meta(neg, m, k, upper, lower),
            },
        ) == neg,
        render_text(neg, m, k, upper, lower).subrange(0, sign_text(neg).len() as int) == sign_text(neg),
{
    let t = render_text(neg, m, k, upper, lower);
    let d = dec(m);
    crate::digits::lemma_dec_shape(m);
    let s = sign_text(neg);
    assert(t.subrange(0, s.len() as int) =~= s);
    if !neg {
        assert(t[0] == d[0] || t[0] == ZERO);
    }
}

proof fn lemma_denotes_integer(neg: bool, m: nat, k: int, upper: int, lower: int)
    requires
        0 < upper <= 16,
        lower < 0,
        num_digits(m) <= 20,
        0 <= k,
        num_digits(m) + k <= upper,
    ensures
        ({
            let v = FormattedView {
                text: render_text(neg, m, k, upper, lower),
                meta: render_meta(neg, m, k, upper, lower),
            };
            &&& text_exponent(v) <= k
            &&& digits_value(text_digits(v)) == m * pow10((k - text_exponent(v)) as nat)
        }),
{
    let v = FormattedView {
        text: render_text(neg, m, k, upper, lower),
        meta: render_meta(neg, m, k, upper, lower),
    };
    let t = v.text;
    let d = dec(m);
    crate::digits::lemma_dec_shape(m);
    lemma_dec_value(m);
    let len = d.len() as int;
    let kk = len + k;
    let s = sign_text(neg);
    let sl = s.len() as int;
    let p = sl + kk;
    assert(t.subrange(0, p).subrange(sl, p) =~= d + zeros(k as nat));
    assert(frac_digits(v) =~= zeros(1));
    lemma_sign_text(neg, m, k, upper, lower);
    assert(text_digits(v) =~= (d + zeros(k as nat)) + zeros(1));
    lemma_zeros_value(k as nat);
    lemma_zeros_value(1);
    lemma_digits_value_concat(d, zeros(k as nat));
    lemma_digits_value_concat(d + zeros(k as nat), zeros(1));
    assert(pow10(1) == 10 * pow10(0));
    assert(exp_tail(v) =~= Seq::<u8>::empty());
    assert(text_exponent(v) == -1);
    lemma_pow10_add(k as nat, 1);
    assert(m * pow10(k as nat) * 10 == m * pow10((k + 1) as nat)) by (nonlinear_arith)
        requires
            pow10((k + 1) as nat) == pow10(k as nat) * 10,
    ;
}

proof fn lemma_denotes_split(neg: bool, m: nat, k: int, upper: int, lower: int)
    requires
        0 < upper <= 16,
        lower < 0,
        num_digits(m) <= 20,
        k < 0,
        0 < num_digits(m) + k <= upper,
    ensures
        ({
            let v = FormattedView {
                text: render_text(neg, m, k, upper, lower),
                meta: render_meta(neg, m, k, upper, lower),
            };
            &&& text_exponent(v) <= k
            &&& digits_value(text_digits(v)) == m * pow10((k - text_exponent(v)) as nat)
        }),
{
    let v = FormattedView {
        text: render_text(neg, m, k, upper, lower),
        meta: render_meta(neg, m, k, upper, lower),
    };
    let t = v.text;
    let d = dec(m);
    crate::digits::lemma_dec_shape(m);
    lemma_dec_value(m);
    let len = d.len() as int;
    let kk = len + k;
    let s = sign_text(neg);
    let sl = s.len() as int;
    let p = sl + kk;
    lemma_sign_text(neg, m, k, upper, lower);
    assert(t.subrange(0, p).subrange(sl, p) =~= d.subrange(0, kk));
    assert(frac_digits(v) =~= d.subrange(kk, len));
    assert(text_digits(v) =~= d);
    assert(exp_tail(v) =~= Seq::<u8>::empty());
    assert(text_exponent(v) == k);
    assert(pow10(0) == 1);
    assert(m * 1 == m);
}

proof fn lemma_denotes_small(neg: bool, m: nat, k: int, upper: int, lower: int)
    requires
        0 < upper <= 16,
        lower < 0,
        num_digits(m) <= 20,
        lower < num_digits(m) + k <= 0,
    ensures
        ({
            let v = FormattedView {
                text: render_text(neg, m, k, upper, lower),
                meta: render_meta(neg, m, k, upper, lower),
            };
            &&& text_exponent(v) <= k
            &&& digits_value(text_digits(v)) == m * pow10((k - text_exponent(v)) as nat)
        }),
{
    let v = FormattedView {
        text: render_text(neg, m, k, upper, lower),
        meta: render_meta(neg, m, k, upper, lower),
    };
    let t = v.text;
    let d = dec(m);
    crate::digits::lemma_dec_shape(m);
    lemma_dec_value(m);
    let len = d.len() as int;
    let kk = len + k;
    let s = sign_text(neg);
    let sl = s.len() as int;
    let p = sl + 1;
    let z = zeros((-kk) as nat);
    lemma_sign_text(neg, m, k, upper, lower);
    assert(t.subrange(0, p).subrange(sl, p) =~= zeros(1));
    assert(frac_digits(v) =~= z + d);
    assert(text_digits(v) =~= zeros(1) + (z + d));
    lemma_zeros_value((-kk) as nat);
    lemma_zeros_value(1);
    lemma_digits_value_concat(z, d);
    lemma_digits_value_concat(zeros(1), z + d);
    assert(exp_tail(v) =~= Seq::<u8>::empty());
    assert(text_exponent(v) == k);
    assert(pow10(0) == 1);
    assert(m * 1 == m);
}

proof fn lemma_denotes_one_digit(neg: bool, m: nat, k: int, upper: int, lower: int)
    requires
        0 < upper <= 16,
        lower < 0,
        num_digits(m) <= 20,
        !(0 <= k && num_digits(m) + k <= upper),
        !(0 < num_digits(m) + k <= upper),
        !(lower < num_digits(m) + k <= 0),
        num_digits(m) == 1,
    ensures
        ({
            let v = FormattedView {
                text: render_text(neg, m, k, upper, lower),
                meta: render_meta(neg, m, k, upper, lower),
            };
            &&& text_exponent(v) <= k
            &&& digits_value(text_digits(v)) == m * pow10((k - text_exponent(v)) as nat)
        }),
{
    let v = FormattedView {
        text: render_text(neg, m, k, upper, lower),
        meta: render_meta(neg, m, k, upper, lower),
    };
    let t = v.text;
    let d = dec(m);
    crate::digits::lemma_dec_shape(m);
    lemma_dec_value(m);
    let len = d.len() as int;
    let kk = len + k;
    let s = sign_text(neg);
    let sl = s.len() as int;
    lemma_sign_text(neg, m, k, upper, lower);
    lemma_exp_text_value(kk - 1);
    let tail = exp_tail(v);
    let e = sl + 1;
    assert(t.subrange(0, e).subrange(sl, e) =~= d);
    assert(frac_digits(v) =~= Seq::<u8>::empty());
    assert(text_digits(v) =~= d);
    assert(tail =~= seq![crate::digits::EXP] + exp_text(kk - 1));
    assert(tail.subrange(1, tail.len() as int) =~= exp_text(kk - 1));
    assert(text_exponent(v) == k);
    assert(pow10(0) == 1);
    assert(m * 1 == m);
}

proof fn lemma_denotes_scientific(neg: bool, m: nat, k: int, upper: int, lower: int)
    requires
        0 < upper <= 16,
        lower < 0,
        num_digits(m) <= 20,
        !(0 <= k && num_digits(m) + k <= upper),
        !(0 < num_digits(m) + k <= upper),
        !(lower < num_digits(m) + k <= 0),
        num_digits(m) > 1,
    ensures
        ({
            let v = FormattedView {
                text: render_text(neg, m, k, upper, lower),
                meta: render_meta(neg, m, k, upper, lower),
            };
            &&& text_exponent(v) <= k
            &&& digits_value(text_digits(v)) == m * pow10((k - text_exponent(v)) as nat)
        }),
{
    let v = FormattedView {
        text: render_text(neg, m, k, upper, lower),
        meta: render_meta(neg, m, k, upper, lower),
    };
    let t = v.text;
    let d = dec(m);
    crate::digits::lemma_dec_shape(m);
    lemma_dec_value(m);
    let len = d.len() as int;
    let kk = len + k;
    let s = sign_text(neg);
    let sl = s.len() as int;
    lemma_sign_text(neg, m, k, upper, lower);
    lemma_exp_text_value(kk - 1);
    let tail = exp_tail(v);
    let p = sl + 1;
    assert(t.subrange(0, p).subrange(sl, p) =~= d.subrange(0, 1));
    assert(frac_digits(v) =~= d.subrange(1, len));
    assert(text_digits(v) =~= d);
    assert(tail =~= seq![crate::digits::EXP] + exp_text(kk - 1));
    assert(tail.subrange(1, tail.len() as int) =~= exp_text(kk - 1));
    assert(text_exponent(v) == k);
    assert(pow10(0) == 1);
    assert(m * 1 == m);
}

/// A rendered decimal denotes exactly that decimal: the text's digits, its
/// point and its exponent give back `(-1)^neg * m * 10^k`.
pub proof fn lemma_render_denotes(neg: bool, m: nat, k: int, upper: int, lower: int)
    requires
        0 < upper <= 16,
        lower < 0,
        num_digits(m) <= 20,
    ensures
        denotes(
            FormattedView {
                text: render_text(neg, m, k, upper, lower),
                meta: render_meta(neg, m, k, upper, lower),
            },
            neg,
            m,
            k,
        ),
{
    lemma_sign_text(neg, m, k, upper, lower);
    let kk = num_digits(m) + k;
    if 0 <= k && kk <= upper {
        lemma_denotes_integer(neg, m, k, upper, lower);
    } else if 0 < kk <= upper {
        lemma_denotes_split(neg, m, k, upper, lower);
    } else if lower < kk <= 0 {
        lemma_denotes_small(neg, m, k, upper, lower);
    } else if num_digits(m) == 1 {
        lemma_denotes_one_digit(neg, m, k, upper, lower);
    } else {
        lemma_denotes_scientific(neg, m, k, upper, lower);
    }
}

} // verus!
