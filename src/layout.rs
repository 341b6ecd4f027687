//! The layout of a rendered number and the fixed-decimal views derived from it.

use vstd::prelude::*;
use crate::digits::{all_digits, dec, num_digits, pow10, zeros, DOT, EXP, MINUS, ZERO};

verus! {

/// Where the decimal point and the exponent marker stand in a rendered text.
#[derive(Debug, Clone, Copy, PartialEq, Eq)]
#[allow(inconsistent_fields)]
pub enum FormattedMeta {
    /// Plain decimal form `[-]ddd.ddd`; the offset is that of the `'.'`.
    Decimal { offset_decimal_point: usize },
    /// Scientific form `[-]d[.ddd]e[-]dd`; the point is present only when a
    /// fractional part exists, and `offset_exponent` is that of the `'e'`.
    Exponent { offset_decimal_point: Option<usize>, offset_exponent: usize },
    /// One of `NaN`, `inf`, `-inf`.
    Nonfinite,
}

/// The abstract value of a formatted number: its text and its layout.
pub struct FormattedView {
    pub text: Seq<u8>,
    pub meta: FormattedMeta,
}

pub open spec fn nan_text() -> Seq<u8> {
    seq![78u8, 97u8, 78u8]
}

pub open spec fn inf_text() -> Seq<u8> {
    seq![105u8, 110u8, 102u8]
}

pub open spec fn neg_inf_text() -> Seq<u8> {
    seq![45u8, 105u8, 110u8, 102u8]
}

/// An optional minus sign followed by at least one digit.
pub open spec fn signed_digits(s: Seq<u8>) -> bool {
    if s.len() > 0 && s[0] == MINUS {
        s.len() >= 2 && all_digits(s.subrange(1, s.len() as int))
    } else {
        s.len() >= 1 && all_digits(s)
    }
}

/// An optional minus sign followed by exactly one digit.
pub open spec fn signed_digit(s: Seq<u8>) -> bool {
    signed_digits(s) && (s.len() == 1 || (s.len() == 2 && s[0] == MINUS))
}

/// The layout metadata describes the text exactly.
pub open spec fn layout_ok(v: FormattedView) -> bool {
    let t = v.text;
    match v.meta {
        FormattedMeta::Decimal { offset_decimal_point: p } => {
            &&& p + 1 < t.len()
            &&& t[p as int] == DOT
            &&& signed_digits(t.subrange(0, p as int))
            &&& all_digits(t.subrange(p + 1, t.len() as int))
        },
        FormattedMeta::Exponent { offset_decimal_point: dp, offset_exponent: e } => {
            &&& e + 1 < t.len()
            &&& t[e as int] == EXP
            &&& signed_digits(t.subrange(e + 1, t.len() as int))
            &&& match dp {
                Some(p) => {
                    &&& p + 1 < e
                    &&& t[p as int] == DOT
                    &&& signed_digit(t.subrange(0, p as int))
                    &&& all_digits(t.subrange(p + 1, e as int))
                },
                None => signed_digit(t.subrange(0, e as int)),
            }
        },
        FormattedMeta::Nonfinite => t == nan_text() || t == inf_text() || t == neg_inf_text(),
    }
}

/// Offset where the fractional part (with its point) of a scientific
/// rendering starts.
pub open spec fn exp_int_end(dp: Option<usize>, e: usize) -> int {
    match dp {
        Some(p) => p as int,
        None => e as int,
    }
}

/// The fractional part, point included, cut or padded with zeros so that
/// exactly `n` digits follow the point; empty when `n` is zero.
pub open spec fn fit_fraction(frac: Seq<u8>, n: nat) -> Seq<u8> {
    if n == 0 {
        Seq::empty()
    } else if frac.len() == 0 {
        seq![DOT] + zeros(n)
    } else if frac.len() <= n + 1 {
        frac + zeros((n + 1 - frac.len()) as nat)
    } else {
        frac.subrange(0, n + 1int)
    }
}

/// The text with exactly `n` decimal places: truncated or padded with zeros,
/// the exponent kept; a non-finite text is kept as it is.
pub open spec fn fixed_dp_bytes(v: FormattedView, n: nat) -> Seq<u8> {
    let t = v.text;
    match v.meta {
        FormattedMeta::Decimal { offset_decimal_point: p } => {
            if n == 0 {
                t.subrange(0, p as int)
            } else if p + n + 1 <= t.len() {
                t.subrange(0, p + n + 1)
            } else {
                t + zeros((p + n + 1 - t.len()) as nat)
            }
        },
        FormattedMeta::Exponent { offset_decimal_point: dp, offset_exponent: e } => {
            let ip = exp_int_end(dp, e);
            t.subrange(0, ip) + fit_fraction(t.subrange(ip, e as int), n) + t.subrange(
                e as int,
                t.len() as int,
            )
        },
        FormattedMeta::Nonfinite => t,
    }
}

/// The text cut to `n` decimal places where it has at least that many in
/// plain decimal form; otherwise the whole text.
pub open spec fn fixed_dp_view(v: FormattedView, n: nat) -> Seq<u8> {
    match v.meta {
        FormattedMeta::Decimal { offset_decimal_point: p } => {
            if p + n < v.text.len() {
                v.text.subrange(0, p + n + 1)
            } else {
                v.text
            }
        },
        _ => v.text,
    }
}

/// The ASCII bytes of `s` read as characters.
pub open spec fn ascii_chars(s: Seq<u8>) -> Seq<char> {
    Seq::new(s.len(), |i: int| s[i] as char)
}

} // verus!

verus! {

/// Every byte of a well-laid-out text is ASCII.
pub proof fn lemma_layout_ascii(v: FormattedView)
    requires
        layout_ok(v),
    ensures
        forall|i: int| 0 <= i < v.text.len() ==> v.text[i] < 128,
{
    let t = v.text;
    assert forall|i: int| 0 <= i < t.len() implies t[i] < 128 by {
        match v.meta {
            FormattedMeta::Decimal { offset_decimal_point: p } => {
                if i < p {
                    assert(t[i] == t.subrange(0, p as int)[i]);
                    if i > 0 {
                        assert(t.subrange(0, p as int).subrange(1, p as int)[i - 1] == t[i]);
                    }
                } else if i > p {
                    assert(t.subrange(p + 1, t.len() as int)[i - p - 1] == t[i]);
                }
            },
            FormattedMeta::Exponent { offset_decimal_point: dp, offset_exponent: e } => {
                if i > e {
                    let x = t.subrange(e + 1, t.len() as int);
                    assert(x[i - e - 1] == t[i]);
                    if i > e + 1 {
                        assert(x.subrange(1, x.len() as int)[i - e - 2] == t[i]);
                    }
                } else if i < e {
                    match dp {
                        Some(p) => {
                            if i < p {
                                assert(t.subrange(0, p as int)[i] == t[i]);
                                if i > 0 {
                                    assert(t.subrange(0, p as int).subrange(1, p as int)[i - 1] == t[i]);
                                }
                            } else if i > p {
                                assert(t.subrange(p + 1, e as int)[i - p - 1] == t[i]);
                            }
                        },
                        None => {
                            assert(t.subrange(0, e as int)[i] == t[i]);
                            if i > 0 {
                                assert(t.subrange(0, e as int).subrange(1, e as int)[i - 1] == t[i]);
                            }
                        },
                    }
                }
            },
            FormattedMeta::Nonfinite => {},
        }
    }
}

} // verus!

verus! {

pub open spec fn sign_text(neg: bool) -> Seq<u8> {
    if neg {
        seq![MINUS]
    } else {
        Seq::empty()
    }
}

/// The text of a decimal exponent: an optional minus sign and the digits of
/// its magnitude, without leading zeros.
pub open spec fn exp_text(x: int) -> Seq<u8> {
    if x < 0 {
        seq![MINUS] + dec((-x) as nat)
    } else {
        dec(x as nat)
    }
}

/// The text of `(-1)^neg * m * 10^k`: plain decimal when the position `kk`
/// of the decimal point relative to the first digit satisfies
/// `lower < kk <= upper`, scientific otherwise.
pub open spec fn render_text(neg: bool, m: nat, k: int, upper: int, lower: int) -> Seq<u8> {
    let d = dec(m);
    let len = d.len() as int;
    let kk = len + k;
    let s = sign_text(neg);
    if 0 <= k && kk <= upper {
        // 1234e7 -> 12340000000.0
        s + d + zeros(k as nat) + seq![DOT, ZERO]
    } else if 0 < kk <= upper {
        // 1234e-2 -> 12.34
        s + d.subrange(0, kk) + seq![DOT] + d.subrange(kk, len)
    } else if lower < kk <= 0 {
        // 1234e-6 -> 0.001234
        s + seq![ZERO, DOT] + zeros((-kk) as nat) + d
    } else if len == 1 {
        // 1e30
        s + d + seq![EXP] + exp_text(kk - 1)
    } else {
        // 1234e30 -> 1.234e33
        s + d.subrange(0, 1) + seq![DOT] + d.subrange(1, len) + seq![EXP] + exp_text(kk - 1)
    }
}

/// The layout of `render_text(neg, m, k, upper, lower)`.
pub open spec fn render_meta(neg: bool, m: nat, k: int, upper: int, lower: int) -> FormattedMeta {
    let len = num_digits(m) as int;
    let kk = len + k;
    let s: int = if neg {
        1
    } else {
        0
    };
    if 0 <= k && kk <= upper {
        FormattedMeta::Decimal { offset_decimal_point: (s + kk) as usize }
    } else if 0 < kk <= upper {
        FormattedMeta::Decimal { offset_decimal_point: (s + kk) as usize }
    } else if lower < kk <= 0 {
        FormattedMeta::Decimal { offset_decimal_point: (s + 1) as usize }
    } else if len == 1 {
        FormattedMeta::Exponent { offset_decimal_point: None, offset_exponent: (s + 1) as usize }
    } else {
        FormattedMeta::Exponent {
            offset_decimal_point: Some((s + 1) as usize),
            offset_exponent: (s + len + 1) as usize,
        }
    }
}

} // verus!

verus! {

proof fn lemma_signed(neg: bool, body: Seq<u8>)
    requires
        all_digits(body),
        body.len() >= 1,
    ensures
        signed_digits(sign_text(neg) + body),
        body.len() == 1 ==> signed_digit(sign_text(neg) + body),
{
    let t = sign_text(neg) + body;
    if neg {
        assert(t.subrange(1, t.len() as int) =~= body);
    } else {
        assert(t =~= body);
        assert(crate::digits::is_digit(body[0]));
    }
}

proof fn lemma_concat_digits(a: Seq<u8>, b: Seq<u8>)
    requires
        all_digits(a),
        all_digits(b),
    ensures
        all_digits(a + b),
{
    assert forall|i: int| 0 <= i < (a + b).len() implies crate::digits::is_digit(#[trigger] (a + b)[i]) by {
        if i < a.len() {
            assert((a + b)[i] == a[i]);
        } else {
            assert((a + b)[i] == b[i - a.len()]);
        }
    }
}

proof fn lemma_zeros_digits(n: nat)
    ensures
        all_digits(zeros(n)),
        zeros(n).len() == n,
{
}

proof fn lemma_sub_digits(a: Seq<u8>, i: int, j: int)
    requires
        all_digits(a),
        0 <= i <= j <= a.len(),
    ensures
        all_digits(a.subrange(i, j)),
{
    assert forall|x: int| 0 <= x < j - i implies crate::digits::is_digit(#[trigger] a.subrange(i, j)[x]) by {
        assert(a.subrange(i, j)[x] == a[i + x]);
    }
}

proof fn lemma_exp_text_shape(x: int)
    ensures
        signed_digits(exp_text(x)),
        exp_text(x).len() >= 1,
{
    if x < 0 {
        crate::digits::lemma_dec_shape((-x) as nat);
        lemma_signed(true, dec((-x) as nat));
        assert(exp_text(x) == sign_text(true) + dec((-x) as nat));
    } else {
        crate::digits::lemma_dec_shape(x as nat);
        lemma_signed(false, dec(x as nat));
        assert(exp_text(x) =~= sign_text(false) + dec(x as nat));
    }
}

/// A rendered number is laid out as its metadata says.
pub proof fn lemma_render_layout(neg: bool, m: nat, k: int, upper: int, lower: int)
    requires
        0 < upper <= 16,
        lower < 0,
        num_digits(m) <= 20,
    ensures
        layout_ok(
            FormattedView {
                text: render_text(neg, m, k, upper, lower),
                meta: render_meta(neg, m, k, upper, lower),
            },
        ),
{
    crate::digits::lemma_dec_shape(m);
    let kk = num_digits(m) + k;
    if 0 <= k && kk <= upper {
        lemma_layout_integer(neg, m, k, upper, lower);
    } else if 0 < kk <= upper {
        lemma_layout_split(neg, m, k, upper, lower);
    } else if lower < kk <= 0 {
        lemma_layout_small(neg, m, k, upper, lower);
    } else {
        lemma_layout_scientific(neg, m, k, upper, lower);
    }
}

proof fn lemma_layout_integer(neg: bool, m: nat, k: int, upper: int, lower: int)
    requires
        0 < upper <= 16,
        lower < 0,
        num_digits(m) <= 20,
        0 <= k,
        num_digits(m) + k <= upper,
    ensures
        layout_ok(
            FormattedView {
                text: render_text(neg, m, k, upper, lower),
                meta: render_meta(neg, m, k, upper, lower),
            },
        ),
{
    let d = dec(m);
    crate::digits::lemma_dec_shape(m);
    let len = d.len() as int;
    let kk = len + k;
    let s = sign_text(neg);
    let t = render_text(neg, m, k, upper, lower);
    let p = s.len() as int + kk;
    lemma_zeros_digits(k as nat);
    lemma_concat_digits(d, zeros(k as nat));
    lemma_signed(neg, d + zeros(k as nat));
    assert(t.subrange(0, p) =~= s + (d + zeros(k as nat)));
    assert(t.subrange(p + 1, t.len() as int) =~= seq![ZERO]);
    assert(t[p] == DOT);
}

proof fn lemma_layout_split(neg: bool, m: nat, k: int, upper: int, lower: int)
    requires
        0 < upper <= 16,
        lower < 0,
        num_digits(m) <= 20,
        k < 0,
        0 < num_digits(m) + k <= upper,
    ensures
        layout_ok(
            FormattedView {
                text: render_text(neg, m, k, upper, lower),
                meta: render_meta(neg, m, k, upper, lower),
            },
        ),
{
    let d = dec(m);
    crate::digits::lemma_dec_shape(m);
    let len = d.len() as int;
    let kk = len + k;
    let s = sign_text(neg);
    let t = render_text(neg, m, k, upper, lower);
    let p = s.len() as int + kk;
    lemma_sub_digits(d, 0, kk);
    lemma_sub_digits(d, kk, len);
    lemma_signed(neg, d.subrange(0, kk));
    assert(t.subrange(0, p) =~= s + d.subrange(0, kk));
    assert(t.subrange(p + 1, t.len() as int) =~= d.subrange(kk, len));
    assert(t[p] == DOT);
}

proof fn lemma_layout_small(neg: bool, m: nat, k: int, upper: int, lower: int)
    requires
        0 < upper <= 16,
        lower < 0,
        num_digits(m) <= 20,
        lower < num_digits(m) + k <= 0,
    ensures
        layout_ok(
            FormattedView {
                text: render_text(neg, m, k, upper, lower),
                meta: render_meta(neg, m, k, upper, lower),
            },
        ),
{
    let d = dec(m);
    crate::digits::lemma_dec_shape(m);
    let len = d.len() as int;
    let kk = len + k;
    let s = sign_text(neg);
    let t = render_text(neg, m, k, upper, lower);
    let p = s.len() as int + 1;
    lemma_zeros_digits((-kk) as nat);
    lemma_concat_digits(zeros((-kk) as nat), d);
    lemma_signed(neg, seq![ZERO]);
    assert(t.subrange(0, p) =~= s + seq![ZERO]);
    assert(t.subrange(p + 1, t.len() as int) =~= zeros((-kk) as nat) + d);
    assert(t[p] == DOT);
}

proof fn lemma_layout_scientific(neg: bool, m: nat, k: int, upper: int, lower: int)
    requires
        0 < upper <= 16,
        lower < 0,
        num_digits(m) <= 20,
        !(0 <= k && num_digits(m) + k <= upper),
        !(0 < num_digits(m) + k <= upper),
        !(lower < num_digits(m) + k <= 0),
    ensures
        layout_ok(
            FormattedView {
                text: render_text(neg, m, k, upper, lower),
                meta: render_meta(neg, m, k, upper, lower),
            },
        ),
{
    let d = dec(m);
    crate::digits::lemma_dec_shape(m);
    let len = d.len() as int;
    let kk = len + k;
    let s = sign_text(neg);
    let sl = s.len() as int;
    let t = render_text(neg, m, k, upper, lower);
    lemma_exp_text_shape(kk - 1);
    if len == 1 {
        let e = sl + 1;
        lemma_signed(neg, d);
        assert(t.subrange(0, e) =~= s + d);
        assert(t.subrange(e + 1, t.len() as int) =~= exp_text(kk - 1));
        assert(t[e] == EXP);
    } else {
        let p = sl + 1;
        let e = sl + len + 1;
        lemma_sub_digits(d, 0, 1);
        lemma_sub_digits(d, 1, len);
        lemma_signed(neg, d.subrange(0, 1));
        assert(t.subrange(0, p) =~= s + d.subrange(0, 1));
        assert(t.subrange(p + 1, e) =~= d.subrange(1, len));
        assert(t.subrange(e + 1, t.len() as int) =~= exp_text(kk - 1));
        assert(t[p] == DOT);
        assert(t[e] == EXP);
    }
}

} // verus!

verus! {

/// The number written by a sequence of decimal digits.
pub open spec fn digits_value(s: Seq<u8>) -> nat
    decreases s.len(),
{
    if s.len() == 0 {
        0
    } else {
        digits_value(s.drop_last()) * 10 + (s.last() - 48) as nat
    }
}

/// The first `n` digits of `d`, padded with zeros where `d` is shorter.
pub open spec fn cut_or_pad(d: Seq<u8>, n: nat) -> Seq<u8> {
    if d.len() >= n {
        d.subrange(0, n as int)
    } else {
        d + zeros((n - d.len()) as nat)
    }
}

/// Where the integer part of a numeric text ends.
pub open spec fn int_end(v: FormattedView) -> int {
    match v.meta {
        FormattedMeta::Decimal { offset_decimal_point: p } => p as int,
        FormattedMeta::Exponent { offset_decimal_point: dp, offset_exponent: e } => exp_int_end(dp, e),
        FormattedMeta::Nonfinite => v.text.len() as int,
    }
}

/// The digits after the decimal point of a numeric text (none when it has
/// no point).
pub open spec fn frac_digits(v: FormattedView) -> Seq<u8> {
    let t = v.text;
    match v.meta {
        FormattedMeta::Decimal { offset_decimal_point: p } => t.subrange(p + 1, t.len() as int),
        FormattedMeta::Exponent { offset_decimal_point: dp, offset_exponent: e } => match dp {
            Some(p) => t.subrange(p + 1, e as int),
            None => Seq::empty(),
        },
        FormattedMeta::Nonfinite => Seq::empty(),
    }
}

/// The exponent part of a numeric text, marker included (empty in plain
/// decimal form).
pub open spec fn exp_tail(v: FormattedView) -> Seq<u8> {
    let t = v.text;
    match v.meta {
        FormattedMeta::Exponent { offset_decimal_point: _, offset_exponent: e } => t.subrange(
            e as int,
            t.len() as int,
        ),
        _ => Seq::empty(),
    }
}

pub proof fn lemma_pow10_add(a: nat, b: nat)
    ensures
        pow10(a + b) == pow10(a) * pow10(b),
    decreases b,
{
    if b > 0 {
        lemma_pow10_add(a, (b - 1) as nat);
        assert(pow10(a + b) == 10 * pow10((a + b - 1) as nat));
        assert(pow10(b) == 10 * pow10((b - 1) as nat));
        vstd::arithmetic::mul::lemma_mul_is_associative(10, pow10(a) as int, pow10((b - 1) as nat) as int);
        vstd::arithmetic::mul::lemma_mul_is_commutative(10, pow10(a) as int);
        vstd::arithmetic::mul::lemma_mul_is_associative(pow10(a) as int, 10, pow10((b - 1) as nat) as int);
    } else {
        assert(pow10(0) == 1);
    }
}

pub proof fn lemma_digits_value_concat(a: Seq<u8>, b: Seq<u8>)
    ensures
        digits_value(a + b) == digits_value(a) * pow10(b.len()) + digits_value(b),
    decreases b.len(),
{
    if b.len() == 0 {
        assert(a + b =~= a);
        assert(pow10(0) == 1);
    } else {
        let b1 = b.drop_last();
        lemma_digits_value_concat(a, b1);
        assert((a + b).drop_last() =~= a + b1);
        assert((a + b).last() == b.last());
        assert(pow10(b.len()) == 10 * pow10(b1.len()));
        let x = digits_value(a);
        let p = pow10(b1.len());
        let y = digits_value(b1);
        let c = (b.last() - 48) as nat;
        assert((x * p + y) * 10 + c == x * (10 * p) + (y * 10 + c)) by (nonlinear_arith);
    }
}

proof fn lemma_digits_value_bound(s: Seq<u8>)
    requires
        all_digits(s),
    ensures
        digits_value(s) < pow10(s.len()),
    decreases s.len(),
{
    if s.len() > 0 {
        let s1 = s.drop_last();
        assert(all_digits(s1)) by {
            assert forall|i: int| 0 <= i < s1.len() implies crate::digits::is_digit(#[trigger] s1[i]) by {
                assert(s1[i] == s[i]);
            }
        }
        lemma_digits_value_bound(s1);
        assert(crate::digits::is_digit(s[s.len() - 1]));
        let x = digits_value(s1);
        let p = pow10(s1.len());
        let c = (s.last() - 48) as nat;
        assert(x * 10 + c < 10 * p) by (nonlinear_arith)
            requires
                x < p,
                c < 10,
        ;
    }
}

pub proof fn lemma_zeros_value(k: nat)
    ensures
        digits_value(zeros(k)) == 0,
    decreases k,
{
    if k > 0 {
        assert(zeros(k).drop_last() =~= zeros((k - 1) as nat));
        lemma_zeros_value((k - 1) as nat);
    }
}

/// Cutting or padding a digit string to `n` digits changes its value, read
/// as a fraction, by less than one unit in the `n`th place, and not at all
/// when it is padded.
pub proof fn lemma_cut_or_pad_value(d: Seq<u8>, n: nat)
    requires
        all_digits(d),
    ensures
        cut_or_pad(d, n).len() == n,
        all_digits(cut_or_pad(d, n)),
        digits_value(cut_or_pad(d, n)) * pow10(d.len()) <= digits_value(d) * pow10(n),
        digits_value(d) * pow10(n) < (digits_value(cut_or_pad(d, n)) + 1) * pow10(d.len()),
        d.len() <= n ==> digits_value(cut_or_pad(d, n)) * pow10(d.len()) == digits_value(d) * pow10(n),
{
    let f = cut_or_pad(d, n);
    if d.len() >= n {
        let r = d.subrange(n as int, d.len() as int);
        assert(d =~= f + r);
        lemma_digits_value_concat(f, r);
        lemma_sub_digits(d, 0, n as int);
        lemma_sub_digits(d, n as int, d.len() as int);
        lemma_digits_value_bound(r);
        lemma_pow10_add(n, r.len());
        assert(n + r.len() == d.len());
        let vf = digits_value(f);
        let vr = digits_value(r);
        let pn = pow10(n);
        let pr = pow10(r.len());
        crate::digits::lemma_pow10_pos(n);
        assert(vf * (pn * pr) <= (vf * pr + vr) * pn) by (nonlinear_arith)
            requires
                vr >= 0,
                pn >= 0,
        ;
        assert((vf * pr + vr) * pn < (vf + 1) * (pn * pr)) by (nonlinear_arith)
            requires
                vr < pr,
                pn >= 1,
        ;
        crate::digits::lemma_pow10_pos(n);
        if d.len() == n {
            assert(pr == 1);
        }
    } else {
        let k = (n - d.len()) as nat;
        lemma_digits_value_concat(d, zeros(k));
        lemma_zeros_value(k);
        lemma_zeros_digits(k);
        lemma_concat_digits(d, zeros(k));
        lemma_pow10_add(d.len(), k);
        let vd = digits_value(d);
        let pd = pow10(d.len());
        let pk = pow10(k);
        crate::digits::lemma_pow10_pos(d.len());
        assert(vd * pk * pd == vd * (pd * pk)) by (nonlinear_arith);
        assert(vd * (pd * pk) < (vd * pk + 1) * pd) by (nonlinear_arith)
            requires
                pd >= 1,
        ;
        crate::digits::lemma_pow10_pos(d.len());
    }
}

/// With `n` places, a numeric text keeps its integer part and exponent,
/// and its fractional part becomes a point and exactly `n` digits (nothing
/// when `n` is zero): its own digits cut or padded with zeros, so that the
/// value moves toward zero by less than one unit in the `n`th place.
pub proof fn lemma_fixed_places(v: FormattedView, n: nat)
    requires
        layout_ok(v),
        !(v.meta is Nonfinite),
    ensures
        fixed_dp_bytes(v, n) == v.text.subrange(0, int_end(v)) + (if n == 0 {
            Seq::empty()
        } else {
            seq![DOT] + cut_or_pad(frac_digits(v), n)
        }) + exp_tail(v),
        all_digits(frac_digits(v)),
        cut_or_pad(frac_digits(v), n).len() == n,
        digits_value(cut_or_pad(frac_digits(v), n)) * pow10(frac_digits(v).len())
            <= digits_value(frac_digits(v)) * pow10(n),
        digits_value(frac_digits(v)) * pow10(n) < (digits_value(cut_or_pad(frac_digits(v), n)) + 1)
            * pow10(frac_digits(v).len()),
{
    let t = v.text;
    let d = frac_digits(v);
    let f = cut_or_pad(d, n);
    match v.meta {
        FormattedMeta::Decimal { offset_decimal_point: p } => {
            lemma_cut_or_pad_value(d, n);
            if n > 0 {
                if p + n + 1 <= t.len() {
                    assert(t.subrange(0, p + n + 1) =~= t.subrange(0, p as int) + (seq![DOT] + f)
                        + exp_tail(v));
                } else {
                    assert(t + zeros((p + n + 1 - t.len()) as nat) =~= t.subrange(0, p as int) + (
                    seq![DOT] + f) + exp_tail(v));
                }
            } else {
                assert(t.subrange(0, p as int) =~= t.subrange(0, p as int) + Seq::<u8>::empty()
                    + exp_tail(v));
            }
        },
        FormattedMeta::Exponent { offset_decimal_point: dp, offset_exponent: e } => {
            let ip = exp_int_end(dp, e);
            let frac = t.subrange(ip, e as int);
            match dp {
                Some(p) => {
                    assert(frac =~= seq![DOT] + d);
                },
                None => {
                    assert(frac =~= Seq::<u8>::empty());
                    assert(all_digits(d));
                },
            }
            lemma_cut_or_pad_value(d, n);
            if n > 0 {
                assert(fit_fraction(frac, n) =~= seq![DOT] + f);
            } else {
                assert(fit_fraction(frac, n) =~= Seq::<u8>::empty());
            }
        },
        FormattedMeta::Nonfinite => {},
    }
}

} // verus!
