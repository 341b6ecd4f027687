//! Integer approximations of logarithms and divisibility tests shared by the
//! binary32 and binary64 digit generators.

use vstd::prelude::*;
use crate::digits::{num_digits, pow10, lemma_num_digits_unique};

verus! {

/// `floor(log2(5^e)) + 1`, the bit length of `5^e`, for `e <= 3528`.
pub open spec fn pow5bits_spec(e: int) -> int {
    (e * 1217359) / 524288 + 1
}

/// `floor(log10(2^e))` for `e <= 1650`.
pub open spec fn log10_pow2_spec(e: int) -> int {
    (e * 78913) / 262144
}

/// `floor(log10(5^e))` for `e <= 2620`.
pub open spec fn log10_pow5_spec(e: int) -> int {
    (e * 732923) / 1048576
}

pub fn pow5bits(e: i32) -> (r: i32)
    requires
        0 <= e <= 3528,
    ensures
        r == pow5bits_spec(e as int),
        1 <= r <= 8192,
{
    ((e as u32 * 1217359) / 524288 + 1) as i32
}

pub fn log10_pow2(e: i32) -> (r: u32)
    requires
        0 <= e <= 1650,
    ensures
        r == log10_pow2_spec(e as int),
        r <= 497,
{
    (e as u32 * 78913) / 262144
}

pub fn log10_pow5(e: i32) -> (r: u32)
    requires
        0 <= e <= 2620,
    ensures
        r == log10_pow5_spec(e as int),
        r <= 1832,
{
    (e as u32 * 732923) / 1048576
}

/// The number of times 5 divides `v`.
pub open spec fn pow5_factor_spec(v: nat) -> nat
    decreases v,
{
    if v == 0 || v % 5 != 0 {
        0
    } else {
        1 + pow5_factor_spec(v / 5)
    }
}

pub open spec fn pow5(n: nat) -> nat
    decreases n,
{
    if n == 0 {
        1
    } else {
        5 * pow5((n - 1) as nat)
    }
}

proof fn lemma_pow5_grows(a: nat, b: nat)
    requires
        a <= b,
    ensures
        pow5(a) <= pow5(b),
    decreases b,
{
    if a < b {
        lemma_pow5_grows(a, (b - 1) as nat);
    }
}

proof fn lemma_pow5_factor_step(v: nat)
    requires
        v != 0,
        v % 5 == 0,
    ensures
        pow5_factor_spec(v) == 1 + pow5_factor_spec(v / 5),
{
}

fn pow5_factor(value: u64) -> (r: u32)
    requires
        value != 0,
    ensures
        r == pow5_factor_spec(value as nat),
{
    let mut v = value;
    let mut count: u32 = 0;
    proof {
        reveal_with_fuel(pow5, 29);
        assert(pow5(28) > 0xffff_ffff_ffff_ffff);
        assert(pow5(0) == 1);
        assert(pow5(0) * value == value);
    }
    while v % 5 == 0
        invariant
            v != 0,
            count < 28,
            pow5(count as nat) * v == value,
            count + pow5_factor_spec(v as nat) == pow5_factor_spec(value as nat),
            pow5(28) > 0xffff_ffff_ffff_ffff,
        decreases v,
    {
        proof {
            lemma_pow5_factor_step(v as nat);
            let c = count as nat;
            assert(pow5(c + 1) == 5 * pow5(c));
            assert(pow5(c + 1) <= value) by (nonlinear_arith)
                requires
                    pow5(c) * v == value,
                    v % 5 == 0,
                    v != 0,
                    pow5(c + 1) == 5 * pow5(c),
                    pow5(c) >= 0,
            ;
            assert(pow5(c + 1) * (v / 5) == value) by (nonlinear_arith)
                requires
                    pow5(c) * v == value,
                    v % 5 == 0,
                    pow5(c + 1) == 5 * pow5(c),
            ;
            if c + 1 >= 28 {
                lemma_pow5_grows(28, c + 1);
            }
        }
        v = v / 5;
        count = count + 1;
    }
    count
}

/// Whether `5^p` divides `value`.
pub fn multiple_of_power_of_5(value: u64, p: u32) -> (r: bool)
    requires
        value != 0,
    ensures
        r == (pow5_factor_spec(value as nat) >= p),
{
    pow5_factor(value) >= p
}

/// Whether `2^p` divides `value`.
pub fn multiple_of_power_of_2(value: u64, p: u32) -> (r: bool)
    requires
        p < 64,
    ensures
        r == (value as nat % vstd::arithmetic::power2::pow2(p as nat) == 0),
{
    let m: u64 = 1u64 << p;
    proof {
        vstd::bits::lemma_u64_pow2_no_overflow(p as nat);
        vstd::bits::lemma_u64_shl_is_mul(1, p as u64);
        vstd::arithmetic::power2::lemma_pow2_pos(p as nat);
    }
    value % m == 0
}

proof fn lemma_pow10_values()
    ensures
        pow10(1) == 10,
        pow10(2) == 100,
        pow10(3) == 1000,
        pow10(4) == 10000,
        pow10(5) == 100000,
        pow10(6) == 1000000,
        pow10(7) == 10000000,
        pow10(8) == 100000000,
        pow10(9) == 1000000000,
        pow10(10) == 10000000000,
        pow10(11) == 100000000000,
        pow10(12) == 1000000000000,
        pow10(13) == 10000000000000,
        pow10(14) == 100000000000000,
        pow10(15) == 1000000000000000,
        pow10(16) == 10000000000000000,
        pow10(17) == 100000000000000000,
        pow10(18) == 1000000000000000000,
        pow10(19) == 10000000000000000000,
        pow10(20) == 100000000000000000000,
{
    reveal_with_fuel(pow10, 21);
}

/// The number of decimal digits of `v`.
pub fn decimal_length(v: u64) -> (r: u32)
    ensures
        r == num_digits(v as nat),
        1 <= r <= 20,
{
    proof {
        lemma_pow10_values();
    }
    let r: u32 = if v >= 10000000000000000000 {
        20
    } else if v >= 1000000000000000000 {
        19
    } else if v >= 100000000000000000 {
        18
    } else if v >= 10000000000000000 {
        17
    } else if v >= 1000000000000000 {
        16
    } else if v >= 100000000000000 {
        15
    } else if v >= 10000000000000 {
        14
    } else if v >= 1000000000000 {
        13
    } else if v >= 100000000000 {
        12
    } else if v >= 10000000000 {
        11
    } else if v >= 1000000000 {
        10
    } else if v >= 100000000 {
        9
    } else if v >= 10000000 {
        8
    } else if v >= 1000000 {
        7
    } else if v >= 100000 {
        6
    } else if v >= 10000 {
        5
    } else if v >= 1000 {
        4
    } else if v >= 100 {
        3
    } else if v >= 10 {
        2
    } else {
        1
    };
    proof {
        lemma_num_digits_unique(v as nat, r as nat);
    }
    r
}

/// One more removed digit keeps the scale of a remaining value bounded.
pub proof fn lemma_remove_digits(r: nat, v: nat, d: nat, n: nat)
    requires
        pow10(r) * v <= 0xffff_ffff_ffff_ffff,
        d == 10 || d == 100,
        d == 10 ==> n == 1,
        d == 100 ==> n == 2,
    ensures
        pow10(r + n) * (v / d) <= 0xffff_ffff_ffff_ffff,
{
    assert(pow10(r + 1) == 10 * pow10(r));
    assert(pow10(r + 2) == 10 * pow10(r + 1));
    let p = pow10(r);
    assert(pow10(r + n) * (v / d) <= p * v) by (nonlinear_arith)
        requires
            d == 10 ==> pow10(r + n) == 10 * p,
            d == 100 ==> pow10(r + n) == 100 * p,
            d == 10 || d == 100,
            p >= 0,
    ;
}

pub proof fn lemma_unscaled(removed: i32, vp: u64, vm: u64)
    requires
        removed == 0,
    ensures
        pow10(removed as nat) * vp == vp,
        pow10(removed as nat) * vm == vm,
{
    let r = removed as nat;
    assert(r == 0);
    assert(pow10(r) == 1);
    assert(1 * vp == vp);
}

/// A power of ten that fits in 64 bits has an exponent below 20.
pub proof fn lemma_pow10_fits(r: nat, v: nat)
    requires
        v >= 1,
        pow10(r) * v <= 0xffff_ffff_ffff_ffff,
    ensures
        r < 20,
{
    if r >= 20 {
        lemma_pow10_grows(20, r);
        reveal_with_fuel(pow10, 21);
        assert(pow10(r) * v >= pow10(r)) by (nonlinear_arith)
            requires
                v >= 1,
                pow10(r) >= 0,
        ;
    }
}

pub proof fn lemma_pow10_grows(a: nat, b: nat)
    requires
        a <= b,
    ensures
        pow10(a) <= pow10(b),
    decreases b,
{
    if a < b {
        lemma_pow10_grows(a, (b - 1) as nat);
    }
}

/// A 64-bit value has at most 20 decimal digits.
pub proof fn lemma_u64_digits(v: u64)
    ensures
        crate::digits::num_digits(v as nat) <= 20,
{
    crate::digits::lemma_num_digits_bounds(v as nat);
    lemma_pow10_values();
    if crate::digits::num_digits(v as nat) > 20 {
        lemma_pow10_grows(20, (crate::digits::num_digits(v as nat) - 1) as nat);
    }
}

} // verus!
