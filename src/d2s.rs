//! Shortest decimal digits of a binary64 value.

use vstd::prelude::*;
use vstd::arithmetic::power2::pow2;
use crate::common::{
    pow5_factor_spec,
    lemma_pow10_fits, lemma_remove_digits, lemma_unscaled, log10_pow2, log10_pow2_spec,
    log10_pow5, log10_pow5_spec, multiple_of_power_of_2, multiple_of_power_of_5, pow5bits,
    pow5bits_spec,
};
use crate::digits::pow10;
use crate::pow5::Pow5Provider;
use crate::pow5_full::{DOUBLE_POW5_INV_SPLIT, DOUBLE_POW5_SPLIT};

verus! {

pub const DOUBLE_MANTISSA_BITS: u32 = 52;

pub const DOUBLE_EXPONENT_BITS: u32 = 11;

pub const DOUBLE_BIAS: i32 = 1023;

pub const DOUBLE_POW5_INV_BITCOUNT: i32 = 125;

pub const DOUBLE_POW5_BITCOUNT: i32 = 125;

/// A decimal `mantissa * 10^exponent`.
#[derive(Debug, Clone, Copy, PartialEq, Eq)]
pub struct FloatingDecimal64 {
    pub mantissa: u64,
    pub exponent: i32,
}

pub proof fn lemma_mul_u64_fits(a: u64, b: u64)
    ensures
        (a as int) * (b as int) <= 0xffff_ffff_ffff_fffe_0000_0000_0000_0001int,
{
    assert((a as int) * (b as int) <= 0xffff_ffff_ffff_ffffint * 0xffff_ffff_ffff_ffffint)
        by (nonlinear_arith)
        requires
            0 <= a <= 0xffff_ffff_ffff_ffffint,
            0 <= b <= 0xffff_ffff_ffff_ffffint,
    ;
}

/// `(m * mul) >> j` on the 128-bit multiplier `mul = (low, high)`, keeping
/// the low 64 bits of the result.
pub open spec fn mul_shift_64_spec(m: u64, mul: (u64, u64), j: u32) -> u64 {
    let b0 = (m * mul.0) as u128;
    let b2 = (m * mul.1) as u128;
    let sum = ((b0 >> 64u128) + b2) as u128;
    (sum >> ((j - 64) as u32)) as u64
}

pub(crate) fn mul_shift_64(m: u64, mul: (u64, u64), j: u32) -> (r: u64)
    requires
        64 <= j < 192,
    ensures
        r == mul_shift_64_spec(m, mul, j),
{
    proof {
        lemma_mul_u64_fits(m, mul.0);
        lemma_mul_u64_fits(m, mul.1);
    }
    let b0 = m as u128 * mul.0 as u128;
    let b2 = m as u128 * mul.1 as u128;
    assert(b0 >> 64u128 <= 0xffff_ffff_ffff_ffffu128) by (bit_vector);
    let sum = (b0 >> 64) + b2;
    let shifted = sum >> (j - 64);
    (#[verifier::truncate] (shifted as u64))
}

/// The scaled value, upper and lower boundary of `4 * m` with one multiplier.
pub(crate) fn mul_shift_all_64(m: u64, mul: (u64, u64), j: u32, mm_shift: u32) -> (r: (u64, u64, u64))
    requires
        1 <= m < 0x40_0000_0000_0000,
        64 <= j < 192,
        mm_shift <= 1,
    ensures
        r == (
            mul_shift_64_spec((4 * m) as u64, mul, j),
            mul_shift_64_spec((4 * m + 2) as u64, mul, j),
            mul_shift_64_spec((4 * m - 1 - mm_shift) as u64, mul, j),
        ),
{
    let vp = mul_shift_64(4 * m + 2, mul, j);
    let vm = mul_shift_64(4 * m - 1 - mm_shift as u64, mul, j);
    let vr = mul_shift_64(4 * m, mul, j);
    (vr, vp, vm)
}

/// For a non-negative binary exponent, the decimal exponent, table index and
/// shift stay in range.
proof fn lemma_positive_exponent_ranges(e2: int)
    requires
        0 <= e2 <= 970,
    ensures
        ({
            let q = log10_pow2_spec(e2) - (if e2 > 3 { 1int } else { 0 });
            let k = DOUBLE_POW5_INV_BITCOUNT + pow5bits_spec(q) - 1;
            let i = -e2 + q + k;
            &&& 0 <= q <= 291
            &&& 64 <= i < 192
        }),
{
}

/// For a negative binary exponent, the decimal exponent, table index and
/// shift stay in range.
proof fn lemma_negative_exponent_ranges(e2: int)
    requires
        -1076 <= e2 < 0,
    ensures
        ({
            let q = log10_pow5_spec(-e2) - (if -e2 > 1 { 1int } else { 0 });
            let i = -e2 - q;
            let k = pow5bits_spec(i) - DOUBLE_POW5_BITCOUNT;
            let j = q - k;
            &&& 0 <= q <= 752
            &&& 0 <= i < 326
            &&& 64 <= j < 192
            &&& -326 <= q + e2 <= 0
        }),
{
}

/// `v + 1` and `v - 1` on 64 bits, wrapping.
pub open spec fn inc64(v: u64) -> u64 {
    if v == 0xffff_ffff_ffff_ffff {
        0
    } else {
        (v + 1) as u64
    }
}

pub open spec fn dec64(v: u64) -> u64 {
    if v == 0 {
        0xffff_ffff_ffff_ffff
    } else {
        (v - 1) as u64
    }
}

/// The value and its interval bounds scaled to a decimal power, whether the
/// dropped parts of the lower bound and of the value are all zeros, the
/// decimal exponent, and whether the bounds belong to the interval.
#[derive(Debug, Clone, Copy, PartialEq, Eq)]
pub struct Scaled64 {
    pub vr: u64,
    pub vp: u64,
    pub vm: u64,
    pub vm_is_trailing_zeros: bool,
    pub vr_is_trailing_zeros: bool,
    pub e10: i32,
    pub accept_bounds: bool,
}

/// The binary exponent of the value `m2 * 2^e2` of the fields.
pub open spec fn e2_of(ieee_exponent: u32) -> int {
    if ieee_exponent == 0 {
        1 - DOUBLE_BIAS - DOUBLE_MANTISSA_BITS - 2
    } else {
        ieee_exponent - DOUBLE_BIAS - DOUBLE_MANTISSA_BITS - 2
    }
}

/// The binary mantissa of the value `m2 * 2^e2` of the fields.
pub open spec fn m2_of(ieee_mantissa: u64, ieee_exponent: u32) -> u64 {
    if ieee_exponent == 0 {
        ieee_mantissa
    } else {
        (ieee_mantissa + 0x10_0000_0000_0000) as u64
    }
}

/// Step one of the conversion: scale the value and its bounds by a power
/// of five and of two so that the decimal exponent `e10` is reached.
pub open spec fn scale64_spec(ieee_mantissa: u64, ieee_exponent: u32) -> Scaled64 {
    let e2 = e2_of(ieee_exponent);
    let m2 = m2_of(ieee_mantissa, ieee_exponent);
    let accept_bounds = m2 % 2 == 0;
    let mv = (4 * m2) as u64;
    let mm_shift: u32 = if ieee_mantissa != 0 || ieee_exponent <= 1 {
        1
    } else {
        0
    };
    if e2 >= 0 {
        let q = log10_pow2_spec(e2) - (if e2 > 3 { 1int } else { 0 });
        let k = DOUBLE_POW5_INV_BITCOUNT + pow5bits_spec(q) - 1;
        let i = (-e2 + q + k) as u32;
        let mul = DOUBLE_POW5_INV_SPLIT[q];
        let vr = mul_shift_64_spec(mv, mul, i);
        let vp = mul_shift_64_spec((4 * m2 + 2) as u64, mul, i);
        let vm = mul_shift_64_spec((4 * m2 - 1 - mm_shift) as u64, mul, i);
        let s = Scaled64 {
            vr,
            vp,
            vm,
            vm_is_trailing_zeros: false,
            vr_is_trailing_zeros: false,
            e10: q as i32,
            accept_bounds,
        };
        if q <= 21 {
            if mv % 5 == 0 {
                Scaled64 { vr_is_trailing_zeros: pow5_factor_spec(mv as nat) >= q, ..s }
            } else if accept_bounds {
                Scaled64 {
                    vm_is_trailing_zeros: pow5_factor_spec((mv - 1 - mm_shift) as nat) >= q,
                    ..s
                }
            } else if pow5_factor_spec((mv + 2) as nat) >= q {
                Scaled64 { vp: dec64(vp), ..s }
            } else {
                s
            }
        } else {
            s
        }
    } else {
        let q = log10_pow5_spec(-e2) - (if -e2 > 1 { 1int } else { 0 });
        let i = -e2 - q;
        let k = pow5bits_spec(i) - DOUBLE_POW5_BITCOUNT;
        let j = (q - k) as u32;
        let mul = DOUBLE_POW5_SPLIT[i];
        let vr = mul_shift_64_spec(mv, mul, j);
        let vp = mul_shift_64_spec((4 * m2 + 2) as u64, mul, j);
        let vm = mul_shift_64_spec((4 * m2 - 1 - mm_shift) as u64, mul, j);
        let s = Scaled64 {
            vr,
            vp,
            vm,
            vm_is_trailing_zeros: false,
            vr_is_trailing_zeros: false,
            e10: (q + e2) as i32,
            accept_bounds,
        };
        if q <= 1 {
            if accept_bounds {
                Scaled64 { vr_is_trailing_zeros: true, vm_is_trailing_zeros: mm_shift == 1, ..s }
            } else {
                Scaled64 { vr_is_trailing_zeros: true, vp: dec64(vp), ..s }
            }
        } else if q < 63 {
            Scaled64 {
                vr_is_trailing_zeros: (mv as nat) % pow2(q as nat) == 0,
                ..s
            }
        } else {
            s
        }
    }
}

/// Removes digits while the bounds still differ above the last digit,
/// tracking whether the removed digits of the lower bound and of the value
/// were all zeros, and the last removed digit of the value.
pub open spec fn general_loop(
    vr: u64,
    vp: u64,
    vm: u64,
    vm_tz: bool,
    vr_tz: bool,
    last: u8,
    removed: int,
) -> (u64, u64, u64, bool, bool, u8, int)
    decreases vp,
{
    if vp / 10 > vm / 10 {
        general_loop(
            vr / 10,
            vp / 10,
            vm / 10,
            vm_tz && vm % 10 == 0,
            vr_tz && last == 0,
            (vr % 10) as u8,
            removed + 1,
        )
    } else {
        (vr, vp, vm, vm_tz, vr_tz, last, removed)
    }
}

/// Removes the trailing zeros of an exact lower bound.
pub open spec fn trailing_loop(vr: u64, vp: u64, vm: u64, vr_tz: bool, last: u8, removed: int) -> (
    u64,
    u64,
    u64,
    bool,
    u8,
    int,
)
    decreases vm,
{
    if vm != 0 && vm % 10 == 0 {
        trailing_loop(vr / 10, vp / 10, vm / 10, vr_tz && last == 0, (vr % 10) as u8, removed + 1)
    } else {
        (vr, vp, vm, vr_tz, last, removed)
    }
}

/// The digits and the count of removed digits where a bound is exact.
pub open spec fn general_spec(s: Scaled64) -> (u64, int) {
    let a = general_loop(s.vr, s.vp, s.vm, s.vm_is_trailing_zeros, s.vr_is_trailing_zeros, 0, 0);
    let vm_tz = a.3;
    let b = if vm_tz {
        trailing_loop(a.0, a.1, a.2, a.4, a.5, a.6)
    } else {
        (a.0, a.1, a.2, a.4, a.5, a.6)
    };
    let vr = b.0;
    let vm = b.2;
    let vr_tz = b.3;
    let last: u8 = if vr_tz && b.4 == 5 && vr % 2 == 0 {
        4
    } else {
        b.4
    };
    let round_up = (vr == vm && (!s.accept_bounds || !vm_tz)) || last >= 5;
    (if round_up {
        inc64(vr)
    } else {
        vr
    }, b.5)
}

/// Removes digits while the bounds still differ above the last digit,
/// remembering whether the last removed digit rounds up.
pub open spec fn common_loop(vr: u64, vp: u64, vm: u64, round_up: bool, removed: int) -> (
    u64,
    u64,
    u64,
    bool,
    int,
)
    decreases vp,
{
    if vp / 10 > vm / 10 {
        common_loop(vr / 10, vp / 10, vm / 10, vr % 10 >= 5, removed + 1)
    } else {
        (vr, vp, vm, round_up, removed)
    }
}

/// The digits and the count of removed digits where no bound is exact.
pub open spec fn common_spec(s: Scaled64) -> (u64, int) {
    let a = if s.vp / 100 > s.vm / 100 {
        common_loop(s.vr / 100, s.vp / 100, s.vm / 100, s.vr % 100 >= 50, 2)
    } else {
        common_loop(s.vr, s.vp, s.vm, false, 0)
    };
    (if a.0 == a.2 || a.3 {
        inc64(a.0)
    } else {
        a.0
    }, a.4)
}

/// The decimal that the conversion computes for the given fields.
#[verifier::opaque]
pub open spec fn d2d_spec(ieee_mantissa: u64, ieee_exponent: u32) -> FloatingDecimal64 {
    let s = scale64_spec(ieee_mantissa, ieee_exponent);
    let r = if s.vm_is_trailing_zeros || s.vr_is_trailing_zeros {
        general_spec(s)
    } else {
        common_spec(s)
    };
    FloatingDecimal64 { mantissa: r.0, exponent: (s.e10 + r.1) as i32 }
}

fn scale64<P: Pow5Provider>(ieee_mantissa: u64, ieee_exponent: u32) -> (s: Scaled64)
    requires
        ieee_mantissa < 0x10_0000_0000_0000,
        ieee_exponent <= 2047,
        ieee_mantissa != 0 || ieee_exponent != 0,
    ensures
        P::is_full_table() ==> s == scale64_spec(ieee_mantissa, ieee_exponent),
        -1076 <= s.e10 <= 291,
        s.accept_bounds == (m2_of(ieee_mantissa, ieee_exponent) % 2 == 0),
{
    let (e2, m2): (i32, u64) = if ieee_exponent == 0 {
        (1 - DOUBLE_BIAS - DOUBLE_MANTISSA_BITS as i32 - 2, ieee_mantissa)
    } else {
        (
            ieee_exponent as i32 - DOUBLE_BIAS - DOUBLE_MANTISSA_BITS as i32 - 2,
            0x10_0000_0000_0000u64 | ieee_mantissa,
        )
    };
    proof {
        if ieee_exponent != 0 {
            assert(0x10_0000_0000_0000u64 | ieee_mantissa == 0x10_0000_0000_0000u64 + ieee_mantissa)
                by (bit_vector)
                requires
                    ieee_mantissa < 0x10_0000_0000_0000u64,
            ;
        }
    }
    let accept_bounds = m2 % 2 == 0;

    // The interval of valid decimal representations, scaled by four.
    let mv = 4 * m2;
    let mm_shift: u32 = if ieee_mantissa != 0 || ieee_exponent <= 1 {
        1
    } else {
        0
    };

    // Convert to a decimal power base with 128-bit arithmetic.
    if e2 >= 0 {
        proof {
            lemma_positive_exponent_ranges(e2 as int);
        }
        let q = log10_pow2(e2) - (if e2 > 3 { 1u32 } else { 0u32 });
        let k = DOUBLE_POW5_INV_BITCOUNT + pow5bits(q as i32) - 1;
        let i = -e2 + q as i32 + k;
        let (vr, vp, vm) = mul_shift_all_64(m2, P::pow5_inv_split(q), i as u32, mm_shift);
        let s = Scaled64 {
            vr,
            vp,
            vm,
            vm_is_trailing_zeros: false,
            vr_is_trailing_zeros: false,
            e10: q as i32,
            accept_bounds,
        };
        if q <= 21 {
            // Only one of mp, mv, and mm can be a multiple of 5, if any.
            if mv % 5 == 0 {
                Scaled64 { vr_is_trailing_zeros: multiple_of_power_of_5(mv, q), ..s }
            } else if accept_bounds {
                Scaled64 {
                    vm_is_trailing_zeros: multiple_of_power_of_5(mv - 1 - mm_shift as u64, q),
                    ..s
                }
            } else if multiple_of_power_of_5(mv + 2, q) {
                Scaled64 { vp: vp.wrapping_sub(1), ..s }
            } else {
                s
            }
        } else {
            s
        }
    } else {
        proof {
            lemma_negative_exponent_ranges(e2 as int);
        }
        let q = log10_pow5(-e2) - (if -e2 > 1 { 1u32 } else { 0u32 });
        let i = -e2 - q as i32;
        let k = pow5bits(i) - DOUBLE_POW5_BITCOUNT;
        let j = q as i32 - k;
        let (vr, vp, vm) = mul_shift_all_64(m2, P::pow5_split(i as u32), j as u32, mm_shift);
        let s = Scaled64 {
            vr,
            vp,
            vm,
            vm_is_trailing_zeros: false,
            vr_is_trailing_zeros: false,
            e10: q as i32 + e2,
            accept_bounds,
        };
        if q <= 1 {
            // mv = 4 * m2 always has at least two trailing zero bits; mm =
            // mv - 1 - mm_shift has one iff mm_shift == 1; mp = mv + 2 has
            // at least one.
            if accept_bounds {
                Scaled64 { vr_is_trailing_zeros: true, vm_is_trailing_zeros: mm_shift == 1, ..s }
            } else {
                Scaled64 { vr_is_trailing_zeros: true, vp: vp.wrapping_sub(1), ..s }
            }
        } else if q < 63 {
            Scaled64 { vr_is_trailing_zeros: multiple_of_power_of_2(mv, q), ..s }
        } else {
            s
        }
    }
}

/// Digit removal where a bound is exact.
fn remove_general(s: Scaled64) -> (r: (u64, i32))
    ensures
        (r.0, r.1 as int) == general_spec(s),
        0 <= r.1 < 20,
{
    let mut vr = s.vr;
    let mut vp = s.vp;
    let mut vm = s.vm;
    let mut vm_is_trailing_zeros = s.vm_is_trailing_zeros;
    let mut vr_is_trailing_zeros = s.vr_is_trailing_zeros;
    let mut removed: i32 = 0;
    let mut last_removed_digit: u8 = 0;
    let ghost a = general_loop(vr, vp, vm, vm_is_trailing_zeros, vr_is_trailing_zeros, 0, 0);
    proof {
        lemma_unscaled(removed, vp, vm);
    }
    while vp / 10 > vm / 10
        invariant
            0 <= removed < 20,
            pow10(removed as nat) * vp <= 0xffff_ffff_ffff_ffff,
            pow10(removed as nat) * vm <= 0xffff_ffff_ffff_ffff,
            general_loop(
                vr,
                vp,
                vm,
                vm_is_trailing_zeros,
                vr_is_trailing_zeros,
                last_removed_digit,
                removed as int,
            ) == a,
        decreases vp,
    {
        proof {
            lemma_remove_digits(removed as nat, vp as nat, 10, 1);
            lemma_remove_digits(removed as nat, vm as nat, 10, 1);
            lemma_pow10_fits((removed + 1) as nat, (vp / 10) as nat);
        }
        vm_is_trailing_zeros = vm_is_trailing_zeros && vm % 10 == 0;
        vr_is_trailing_zeros = vr_is_trailing_zeros && last_removed_digit == 0;
        last_removed_digit = (vr % 10) as u8;
        vr = vr / 10;
        vp = vp / 10;
        vm = vm / 10;
        removed = removed + 1;
    }
    let ghost b = if vm_is_trailing_zeros {
        trailing_loop(vr, vp, vm, vr_is_trailing_zeros, last_removed_digit, removed as int)
    } else {
        (vr, vp, vm, vr_is_trailing_zeros, last_removed_digit, removed as int)
    };
    if vm_is_trailing_zeros {
        // The lower boundary is exact: keep removing its trailing zeros.
        while vm != 0 && vm % 10 == 0
            invariant
                0 <= removed < 20,
                pow10(removed as nat) * vm <= 0xffff_ffff_ffff_ffff,
                trailing_loop(vr, vp, vm, vr_is_trailing_zeros, last_removed_digit, removed as int)
                    == b,
            decreases vm,
        {
            proof {
                lemma_remove_digits(removed as nat, vm as nat, 10, 1);
                lemma_pow10_fits((removed + 1) as nat, (vm / 10) as nat);
            }
            vr_is_trailing_zeros = vr_is_trailing_zeros && last_removed_digit == 0;
            last_removed_digit = (vr % 10) as u8;
            vr = vr / 10;
            vp = vp / 10;
            vm = vm / 10;
            removed = removed + 1;
        }
    }
    if vr_is_trailing_zeros && last_removed_digit == 5 && vr % 2 == 0 {
        // Round to even if the exact number is .....50..0.
        last_removed_digit = 4;
    }
    // Take vr + 1 if vr is outside the bounds or must be rounded up.
    let round_up = (vr == vm && (!s.accept_bounds || !vm_is_trailing_zeros))
        || last_removed_digit >= 5;
    let output = if round_up {
        vr.wrapping_add(1)
    } else {
        vr
    };
    (output, removed)
}

/// Digit removal where no bound is exact.
fn remove_common(s: Scaled64) -> (r: (u64, i32))
    ensures
        (r.0, r.1 as int) == common_spec(s),
        0 <= r.1 < 20,
{
    let mut vr = s.vr;
    let mut vp = s.vp;
    let mut vm = s.vm;
    let mut removed: i32 = 0;
    let mut round_up = false;
    let vp_div100 = vp / 100;
    let vm_div100 = vm / 100;
    // Remove two digits at a time where possible.
    if vp_div100 > vm_div100 {
        proof {
            lemma_unscaled(removed, vp, vm);
            lemma_remove_digits(0, vp as nat, 100, 2);
            lemma_remove_digits(0, vm as nat, 100, 2);
            lemma_pow10_fits(2, vp_div100 as nat);
        }
        round_up = vr % 100 >= 50;
        vr = vr / 100;
        vp = vp_div100;
        vm = vm_div100;
        removed = 2;
    } else {
        proof {
            lemma_unscaled(removed, vp, vm);
        }
    }
    let ghost a = common_loop(vr, vp, vm, round_up, removed as int);
    while vp / 10 > vm / 10
        invariant
            0 <= removed < 20,
            pow10(removed as nat) * vp <= 0xffff_ffff_ffff_ffff,
            pow10(removed as nat) * vm <= 0xffff_ffff_ffff_ffff,
            common_loop(vr, vp, vm, round_up, removed as int) == a,
        decreases vp,
    {
        proof {
            lemma_remove_digits(removed as nat, vp as nat, 10, 1);
            lemma_remove_digits(removed as nat, vm as nat, 10, 1);
            lemma_pow10_fits((removed + 1) as nat, (vp / 10) as nat);
        }
        round_up = vr % 10 >= 5;
        vr = vr / 10;
        vp = vp / 10;
        vm = vm / 10;
        removed = removed + 1;
    }
    // Take vr + 1 if vr is outside the bounds or must be rounded up.
    let output = if vr == vm || round_up {
        vr.wrapping_add(1)
    } else {
        vr
    };
    (output, removed)
}

/// The shortest decimal in the rounding interval of the binary64 value with
/// the given mantissa and biased exponent fields (Ryu): the value and its
/// bounds are scaled by a power-of-five multiplier of `P` with fixed-width
/// multiplications, then digits are removed while the bounds still differ.
/// With the full tables the result is `d2d_spec`, the decimal that this
/// computation defines.
pub fn d2d<P: Pow5Provider>(ieee_mantissa: u64, ieee_exponent: u32) -> (r: FloatingDecimal64)
    requires
        ieee_mantissa < 0x10_0000_0000_0000,
        ieee_exponent <= 2047,
        ieee_mantissa != 0 || ieee_exponent != 0,
    ensures
        P::is_full_table() ==> r == d2d_spec(ieee_mantissa, ieee_exponent),
        -1076 <= r.exponent <= 311,
{
    proof {
        reveal(d2d_spec);
    }
    let s = scale64::<P>(ieee_mantissa, ieee_exponent);
    let (output, removed) = if s.vm_is_trailing_zeros || s.vr_is_trailing_zeros {
        remove_general(s)
    } else {
        remove_common(s)
    };
    FloatingDecimal64 { mantissa: output, exponent: s.e10 + removed }
}

} // verus!
