//! Rendering a decimal into a fixed buffer, plain or scientific.

use vstd::prelude::*;
use crate::common::{decimal_length, lemma_pow10_grows};
use crate::digits::{
    dec, digits_n, lemma_digit_table, lemma_digits_n_prepend, lemma_num_digits_bounds, num_digits,
    pow10, splice, zeros, DIGIT_TABLE, DOT, EXP, MINUS, ZERO,
};
use crate::layout::{exp_text, render_meta, render_text, sign_text, FormattedMeta};

verus! {

broadcast use vstd::array::group_array_axioms;

proof fn lemma_two_digits(v: nat, j: nat, rem: nat)
    requires
        rem == v / pow10(j),
    ensures
        digits_n(v, j + 2) == seq![
            (48 + (rem % 100) / 10) as u8,
            (48 + (rem % 100) % 10) as u8,
        ] + digits_n(v, j),
        rem / 100 == v / pow10(j + 2),
{
    crate::digits::lemma_pow10_pos(j);
    lemma_digits_n_prepend(v, j);
    lemma_digits_n_prepend(v, j + 1);
    assert(pow10(j + 1) == 10 * pow10(j));
    assert(pow10(j + 2) == 10 * pow10(j + 1));
    vstd::arithmetic::div_mod::lemma_div_denominator(v as int, pow10(j) as int, 10);
    vstd::arithmetic::div_mod::lemma_div_denominator(v as int, pow10(j) as int, 100);
    assert(pow10(j) * 10 == pow10(j + 1));
    assert(pow10(j) * 100 == pow10(j + 2));
    assert(v / pow10(j + 1) == rem / 10);
    vstd::arithmetic::div_mod::lemma_mod_breakdown(rem as int, 10, 10);
    assert((rem % 100) / 10 == (rem / 10) % 10 && (rem % 100) % 10 == rem % 10) by (nonlinear_arith)
        requires
            rem % 100 == 10 * ((rem / 10) % 10) + rem % 10,
            0 <= rem % 10 < 10,
            0 <= (rem / 10) % 10 < 10,
    ;
    assert(digits_n(v, j + 2) =~= seq![
        (48 + (rem % 100) / 10) as u8,
        (48 + (rem % 100) % 10) as u8,
    ] + digits_n(v, j));
}

proof fn lemma_one_digit(v: nat, j: nat, rem: nat)
    requires
        rem == v / pow10(j),
    ensures
        digits_n(v, j + 1) == seq![(48 + rem % 10) as u8] + digits_n(v, j),
        rem / 10 == v / pow10(j + 1),
{
    crate::digits::lemma_pow10_pos(j);
    lemma_digits_n_prepend(v, j);
    assert(pow10(j + 1) == 10 * pow10(j));
    vstd::arithmetic::div_mod::lemma_div_denominator(v as int, pow10(j) as int, 10);
    assert(pow10(j) * 10 == pow10(j + 1));
}

/// Writes the last `n` digits of `v` at `at`, two at a time.
fn write_digits(bytes: &mut [u8; 32], at: usize, v: u64, n: usize)
    requires
        at + n <= 32,
    ensures
        final(bytes)@ == splice(old(bytes)@, at as int, digits_n(v as nat, n as nat)),
{
    let ghost start = bytes@;
    let mut rem = v;
    let mut i = n;
    proof {
        assert(pow10(0) == 1);
        assert((n - i) as nat == 0);
        assert(v as nat / pow10((n - i) as nat) == v as nat);
        assert(bytes@ =~= splice(start, (at + i) as int, digits_n(v as nat, 0)));
    }
    while i > 0
        invariant
            i <= n,
            at + n <= 32,
            bytes@.len() == 32,
            start.len() == 32,
            rem as nat == v as nat / pow10((n - i) as nat),
            bytes@ == splice(start, (at + i) as int, digits_n(v as nat, (n - i) as nat)),
        decreases i,
    {
        let ghost j = (n - i) as nat;
        let ghost before = bytes@;
        if i >= 2 {
            let c = (rem % 100) as usize;
            proof {
                lemma_two_digits(v as nat, j, rem as nat);
                lemma_digit_table(c as int);
                crate::digits::lemma_digits_n_len(v as nat, j);
            }
            bytes[at + i - 2] = DIGIT_TABLE[2 * c];
            bytes[at + i - 1] = DIGIT_TABLE[2 * c + 1];
            rem = rem / 100;
            i = i - 2;
            assert(bytes@ =~= splice(start, (at + i) as int, digits_n(v as nat, (n - i) as nat)));
        } else {
            proof {
                lemma_one_digit(v as nat, j, rem as nat);
                crate::digits::lemma_digits_n_len(v as nat, j);
            }
            bytes[at + i - 1] = ZERO + (rem % 10) as u8;
            rem = rem / 10;
            i = i - 1;
            assert(bytes@ =~= splice(start, (at + i) as int, digits_n(v as nat, (n - i) as nat)));
        }
    }
    assert(bytes@ =~= splice(start, at as int, digits_n(v as nat, n as nat)));
}

/// Writes `count` zero digits at `at`.
fn put_zeros(bytes: &mut [u8; 32], at: usize, count: usize)
    requires
        at + count <= 32,
    ensures
        final(bytes)@ == splice(old(bytes)@, at as int, zeros(count as nat)),
{
    let ghost start = bytes@;
    let mut i: usize = 0;
    while i < count
        invariant
            i <= count,
            at + count <= 32,
            bytes@.len() == 32,
            start.len() == 32,
            bytes@ == splice(start, at as int, zeros(i as nat)),
        decreases count - i,
    {
        let ghost before = bytes@;
        bytes[at + i] = ZERO;
        assert(bytes@ == before.update((at + i) as int, ZERO));
        i = i + 1;
        assert(bytes@ =~= splice(start, at as int, zeros(i as nat)));
    }
}

/// Moves the `count` bytes after `at` one place to the left.
fn shift_left(bytes: &mut [u8; 32], at: usize, count: usize)
    requires
        at + count + 1 <= 32,
    ensures
        final(bytes)@ == old(bytes)@.subrange(0, at as int) + old(bytes)@.subrange(
            at + 1,
            at + count + 1,
        ) + old(bytes)@.subrange(at + count, 32),
{
    let ghost start = bytes@;
    let mut i: usize = 0;
    while i < count
        invariant
            i <= count,
            at + count + 1 <= 32,
            bytes@.len() == 32,
            start.len() == 32,
            bytes@ == start.subrange(0, at as int) + start.subrange(at + 1, at + i + 1)
                + start.subrange(at + i, 32),
        decreases count - i,
    {
        let b = bytes[at + i + 1];
        bytes[at + i] = b;
        i = i + 1;
        assert(bytes@ =~= start.subrange(0, at as int) + start.subrange(at + 1, at + i + 1)
            + start.subrange(at + i, 32));
    }
}

/// Writes a decimal exponent at `at` and returns its length.
fn write_exponent(bytes: &mut [u8; 32], at: usize, x: i32) -> (n: usize)
    requires
        at + 5 <= 32,
        -10000 < x < 10000,
    ensures
        n == exp_text(x as int).len(),
        n <= 5,
        final(bytes)@ == splice(old(bytes)@, at as int, exp_text(x as int)),
{
    let ghost start = bytes@;
    let neg = x < 0;
    let a: u64 = if neg {
        (-x) as u64
    } else {
        x as u64
    };
    let len = decimal_length(a) as usize;
    proof {
        lemma_num_digits_bounds(a as nat);
        reveal_with_fuel(pow10, 5);
        if len > 4 {
            lemma_pow10_grows(4, (len - 1) as nat);
        }
        crate::digits::lemma_digits_n_len(a as nat, len as nat);
    }
    if neg {
        bytes[at] = MINUS;
        write_digits(bytes, at + 1, a, len);
        assert(bytes@ =~= splice(start, at as int, exp_text(x as int)));
        len + 1
    } else {
        write_digits(bytes, at, a, len);
        len
    }
}

/// Writes the sign at the start of a fresh buffer.
fn start_buffer(neg: bool) -> (r: ([u8; 32], usize))
    ensures
        r.1 == (if neg { 1usize } else { 0usize }),
        r.0@.subrange(0, r.1 as int) == sign_text(neg),
        r.0@.len() == 32,
{
    let mut bytes = [0u8; 32];
    if neg {
        bytes[0] = MINUS;
        assert(bytes@.subrange(0, 1) =~= sign_text(neg));
        (bytes, 1)
    } else {
        assert(bytes@.subrange(0, 0) =~= sign_text(neg));
        (bytes, 0)
    }
}

/// `1234e7 -> 12340000000.0`
fn render_integer(bytes: &mut [u8; 32], s: usize, m: u64, len: usize, k: usize) -> (init: usize)
    requires
        s <= 1,
        len == num_digits(m as nat),
        s + len + k + 2 <= 32,
    ensures
        init == s + len + k + 2,
        final(bytes)@.subrange(0, init as int) == old(bytes)@.subrange(0, s as int) + dec(m as nat)
            + zeros(k as nat) + seq![DOT, ZERO],
{
    let ghost b0 = bytes@;
    write_digits(bytes, s, m, len);
    put_zeros(bytes, s + len, k);
    bytes[s + len + k] = DOT;
    bytes[s + len + k + 1] = ZERO;
    let init = s + len + k + 2;
    proof {
        crate::digits::lemma_dec_shape(m as nat);
    }
    assert(bytes@.subrange(0, init as int) =~= b0.subrange(0, s as int) + dec(m as nat) + zeros(
        k as nat,
    ) + seq![DOT, ZERO]);
    init
}

/// `1234e-2 -> 12.34`
fn render_split(bytes: &mut [u8; 32], s: usize, m: u64, len: usize, kk: usize) -> (init: usize)
    requires
        s <= 1,
        len == num_digits(m as nat),
        0 < kk < len,
        s + len + 1 <= 32,
    ensures
        init == s + len + 1,
        final(bytes)@.subrange(0, init as int) == old(bytes)@.subrange(0, s as int) + dec(
            m as nat,
        ).subrange(0, kk as int) + seq![DOT] + dec(m as nat).subrange(kk as int, len as int),
{
    let ghost b0 = bytes@;
    write_digits(bytes, s + 1, m, len);
    shift_left(bytes, s, kk);
    bytes[s + kk] = DOT;
    let init = s + len + 1;
    proof {
        crate::digits::lemma_dec_shape(m as nat);
    }
    let ghost d = dec(m as nat);
    assert(bytes@.subrange(0, init as int) =~= b0.subrange(0, s as int) + d.subrange(0, kk as int)
        + seq![DOT] + d.subrange(kk as int, len as int));
    init
}

/// `1234e-6 -> 0.001234`
fn render_small(bytes: &mut [u8; 32], s: usize, m: u64, len: usize, z: usize) -> (init: usize)
    requires
        s <= 1,
        len == num_digits(m as nat),
        s + 2 + z + len <= 32,
    ensures
        init == s + 2 + z + len,
        final(bytes)@.subrange(0, init as int) == old(bytes)@.subrange(0, s as int) + seq![
            ZERO,
            DOT,
        ] + zeros(z as nat) + dec(m as nat),
{
    let ghost b0 = bytes@;
    bytes[s] = ZERO;
    bytes[s + 1] = DOT;
    put_zeros(bytes, s + 2, z);
    write_digits(bytes, s + 2 + z, m, len);
    let init = s + 2 + z + len;
    proof {
        crate::digits::lemma_dec_shape(m as nat);
    }
    assert(bytes@.subrange(0, init as int) =~= b0.subrange(0, s as int) + seq![ZERO, DOT] + zeros(
        z as nat,
    ) + dec(m as nat));
    init
}

/// `1e30`
fn render_single_scientific(bytes: &mut [u8; 32], s: usize, m: u64, x: i32) -> (init: usize)
    requires
        s <= 1,
        num_digits(m as nat) == 1,
        -10000 < x < 10000,
    ensures
        init == s + 2 + exp_text(x as int).len(),
        init <= s + 7,
        final(bytes)@.subrange(0, init as int) == old(bytes)@.subrange(0, s as int) + dec(m as nat)
            + seq![EXP] + exp_text(x as int),
{
    let ghost b0 = bytes@;
    write_digits(bytes, s, m, 1);
    bytes[s + 1] = EXP;
    let n = write_exponent(bytes, s + 2, x);
    let init = s + 2 + n;
    proof {
        crate::digits::lemma_dec_shape(m as nat);
    }
    assert(bytes@.subrange(0, init as int) =~= b0.subrange(0, s as int) + dec(m as nat) + seq![EXP]
        + exp_text(x as int));
    init
}

/// `1234e30 -> 1.234e33`
fn render_scientific(bytes: &mut [u8; 32], s: usize, m: u64, len: usize, x: i32) -> (init: usize)
    requires
        s <= 1,
        len == num_digits(m as nat),
        1 < len <= 20,
        -10000 < x < 10000,
    ensures
        init == s + len + 2 + exp_text(x as int).len(),
        init <= s + len + 7,
        final(bytes)@.subrange(0, init as int) == old(bytes)@.subrange(0, s as int) + dec(
            m as nat,
        ).subrange(0, 1) + seq![DOT] + dec(m as nat).subrange(1, len as int) + seq![EXP]
            + exp_text(x as int),
{
    let ghost b0 = bytes@;
    write_digits(bytes, s + 1, m, len);
    let first = bytes[s + 1];
    bytes[s] = first;
    bytes[s + 1] = DOT;
    bytes[s + len + 1] = EXP;
    let n = write_exponent(bytes, s + len + 2, x);
    let init = s + len + 2 + n;
    proof {
        crate::digits::lemma_dec_shape(m as nat);
    }
    let ghost d = dec(m as nat);
    assert(bytes@.subrange(0, init as int) =~= b0.subrange(0, s as int) + d.subrange(0, 1) + seq![
        DOT,
    ] + d.subrange(1, len as int) + seq![EXP] + exp_text(x as int));
    init
}

/// Renders `(-1)^neg * m * 10^k` into a fixed buffer: returns the buffer,
/// the number of bytes written and their layout.
pub fn render(neg: bool, m: u64, k: i32, upper: i32, lower: i32) -> (r: ([u8; 32], usize, FormattedMeta))
    requires
        -1100 <= k <= 400,
        0 < upper <= 16,
        -6 <= lower < 0,
    ensures
        r.1 <= 32,
        r.0@.subrange(0, r.1 as int) == render_text(neg, m as nat, k as int, upper as int, lower as int),
        r.2 == render_meta(neg, m as nat, k as int, upper as int, lower as int),
{
    let (mut bytes, s) = start_buffer(neg);
    let len = decimal_length(m) as usize;
    proof {
        crate::digits::lemma_dec_shape(m as nat);
    }
    let kk: i32 = len as i32 + k;
    if 0 <= k && kk <= upper {
        let init = render_integer(&mut bytes, s, m, len, k as usize);
        (bytes, init, FormattedMeta::Decimal { offset_decimal_point: s + kk as usize })
    } else if 0 < kk && kk <= upper {
        let init = render_split(&mut bytes, s, m, len, kk as usize);
        (bytes, init, FormattedMeta::Decimal { offset_decimal_point: s + kk as usize })
    } else if lower < kk && kk <= 0 {
        let init = render_small(&mut bytes, s, m, len, (-kk) as usize);
        (bytes, init, FormattedMeta::Decimal { offset_decimal_point: s + 1 })
    } else if len == 1 {
        let init = render_single_scientific(&mut bytes, s, m, kk - 1);
        (bytes, init, FormattedMeta::Exponent { offset_decimal_point: None, offset_exponent: s + 1 })
    } else {
        let init = render_scientific(&mut bytes, s, m, len, kk - 1);
        (
            bytes,
            init,
            FormattedMeta::Exponent {
                offset_decimal_point: Some(s + 1),
                offset_exponent: s + len + 1,
            },
        )
    }
}

} // verus!
