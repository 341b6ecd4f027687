//! Shortest decimal digits of a binary32 value.

use vstd::prelude::*;
use vstd::arithmetic::power2::pow2;
use crate::common::{
    pow5_factor_spec,
    lemma_pow10_fits, lemma_remove_digits, lemma_unscaled, log10_pow2, log10_pow2_spec,
    log10_pow5, log10_pow5_spec, multiple_of_power_of_2, multiple_of_power_of_5, pow5bits,
    pow5bits_spec,
};
use crate::d2s::{inc64, DOUBLE_POW5_BITCOUNT, DOUBLE_POW5_INV_BITCOUNT};
use crate::pow5_full::{DOUBLE_POW5_INV_SPLIT, DOUBLE_POW5_SPLIT};
use crate::digits::pow10;
use crate::pow5::Pow5Provider;

verus! {

pub const FLOAT_MANTISSA_BITS: u32 = 23;

pub const FLOAT_EXPONENT_BITS: u32 = 8;

pub const FLOAT_BIAS: i32 = 127;

pub const FLOAT_POW5_INV_BITCOUNT: i32 = DOUBLE_POW5_INV_BITCOUNT - 64;

pub const FLOAT_POW5_BITCOUNT: i32 = DOUBLE_POW5_BITCOUNT - 64;

/// A decimal `mantissa * 10^exponent`.
#[derive(Debug, Clone, Copy, PartialEq, Eq)]
pub struct FloatingDecimal32 {
    pub mantissa: u32,
    pub exponent: i32,
}

proof fn lemma_mul_u32_fits(a: u32, b: u32)
    ensures
        (a as int) * (b as int) <= 0xffff_fffe_0000_0001int,
{
    assert((a as int) * (b as int) <= 0xffff_ffffint * 0xffff_ffffint) by (nonlinear_arith)
        requires
            0 <= a <= 0xffff_ffffint,
            0 <= b <= 0xffff_ffffint,
    ;
}

/// `(m * factor) >> shift`, keeping the low 32 bits of the result.
pub open spec fn mul_shift_32_spec(m: u32, factor: u64, shift: i32) -> u32 {
    let lo = factor as u32;
    let hi = (factor >> 32u64) as u32;
    let bits0 = (m * lo) as u64;
    let bits1 = (m * hi) as u64;
    let sum = ((bits0 >> 32u64) + bits1) as u64;
    (sum >> ((shift - 32) as u64)) as u32
}

pub(crate) fn mul_shift_32(m: u32, factor: u64, shift: i32) -> (r: u32)
    requires
        32 < shift < 96,
    ensures
        r == mul_shift_32_spec(m, factor, shift),
{
    let factor_lo = #[verifier::truncate] (factor as u32);
    let high = factor >> 32;
    assert(factor >> 32u64 <= 0xffff_ffffu64) by (bit_vector);
    let factor_hi = high as u32;
    proof {
        lemma_mul_u32_fits(m, factor_lo);
        lemma_mul_u32_fits(m, factor_hi);
    }
    let bits0 = m as u64 * factor_lo as u64;
    let bits1 = m as u64 * factor_hi as u64;
    assert(bits0 >> 32u64 <= 0xffff_ffffu64) by (bit_vector);
    let sum = (bits0 >> 32) + bits1;
    let shifted_sum = sum >> (shift - 32) as u64;
    #[verifier::truncate] (shifted_sum as u32)
}

/// `m / 5^q` scaled by `2^-j`, with the reciprocal multiplier of `5^q`.
pub open spec fn mul_pow5_inv_div_pow2_spec(m: u32, q: int, j: int) -> u32 {
    mul_shift_32_spec(m, inc64(DOUBLE_POW5_INV_SPLIT[q].1), j as i32)
}

pub(crate) fn mul_pow5_inv_div_pow2<P: Pow5Provider>(m: u32, q: u32, j: i32) -> (r: u32)
    requires
        q <= 31,
        32 < j < 96,
    ensures
        P::is_full_table() ==> r == mul_pow5_inv_div_pow2_spec(m, q as int, j as int),
{
    // The inverse multipliers are floor(2^x / 5^y) + 1; the high 64 bits of
    // the entry are floor(2^(x - 64) / 5^y), so 1 is added here; those high
    // halves stay below 2^62, so the addition never wraps.
    mul_shift_32(m, P::pow5_inv_split(q).1.wrapping_add(1), j)
}

/// `m * 5^i` scaled by `2^-j`, with the multiplier of `5^i`.
pub open spec fn mul_pow5_div_pow2_spec(m: u32, i: int, j: int) -> u32 {
    mul_shift_32_spec(m, DOUBLE_POW5_SPLIT[i].1, j as i32)
}

pub(crate) fn mul_pow5_div_pow2<P: Pow5Provider>(m: u32, i: u32, j: i32) -> (r: u32)
    requires
        i < 326,
        32 < j < 96,
    ensures
        P::is_full_table() ==> r == mul_pow5_div_pow2_spec(m, i as int, j as int),
{
    mul_shift_32(m, P::pow5_split(i).1, j)
}

/// For a non-negative binary exponent, the decimal exponent and shifts stay
/// in range.
proof fn lemma_positive_exponent_ranges(e2: int)
    requires
        0 <= e2 <= 103,
    ensures
        ({
            let q = log10_pow2_spec(e2);
            let k = FLOAT_POW5_INV_BITCOUNT + pow5bits_spec(q) - 1;
            let i = -e2 + q + k;
            let l = FLOAT_POW5_INV_BITCOUNT + pow5bits_spec(q - 1) - 1;
            &&& 0 <= q <= 31
            &&& 32 < i < 96
            &&& q != 0 ==> 32 < -e2 + q - 1 + l < 96
        }),
{
}

/// For a negative binary exponent, the decimal exponent, table index and
/// shifts stay in range.
proof fn lemma_negative_exponent_ranges(e2: int)
    requires
        -151 <= e2 < 0,
    ensures
        ({
            let q = log10_pow5_spec(-e2);
            let i = -e2 - q;
            let k = pow5bits_spec(i) - FLOAT_POW5_BITCOUNT;
            let j = q - k;
            let j1 = q - 1 - (pow5bits_spec(i + 1) - FLOAT_POW5_BITCOUNT);
            &&& 0 <= q <= 106
            &&& 0 <= i < 325
            &&& 32 < j < 96
            &&& q != 0 ==> 32 < j1 < 96
        }),
{
}

pub open spec fn dec32(v: u32) -> u32 {
    if v == 0 {
        0xffff_ffff
    } else {
        (v - 1) as u32
    }
}

pub open spec fn inc32(v: u32) -> u32 {
    if v == 0xffff_ffff {
        0
    } else {
        (v + 1) as u32
    }
}

/// The value and its bounds scaled to a decimal power, the trailing-zero
/// flags, a first removed digit, the decimal exponent, and whether the
/// bounds belong to the interval.
#[derive(Debug, Clone, Copy, PartialEq, Eq)]
pub struct Scaled32 {
    pub vr: u32,
    pub vp: u32,
    pub vm: u32,
    pub vm_is_trailing_zeros: bool,
    pub vr_is_trailing_zeros: bool,
    pub last_removed_digit: u8,
    pub e10: i32,
    pub accept_bounds: bool,
}

pub open spec fn e2_of32(ieee_exponent: u32) -> int {
    if ieee_exponent == 0 {
        1 - FLOAT_BIAS - FLOAT_MANTISSA_BITS - 2
    } else {
        ieee_exponent - FLOAT_BIAS - FLOAT_MANTISSA_BITS - 2
    }
}

pub open spec fn m2_of32(ieee_mantissa: u32, ieee_exponent: u32) -> u32 {
    if ieee_exponent == 0 {
        ieee_mantissa
    } else {
        (ieee_mantissa + 0x80_0000) as u32
    }
}

/// Step one of the conversion: scale the value and its bounds to the
/// decimal exponent `e10`.
pub open spec fn scale32_spec(ieee_mantissa: u32, ieee_exponent: u32) -> Scaled32 {
    let e2 = e2_of32(ieee_exponent);
    let m2 = m2_of32(ieee_mantissa, ieee_exponent);
    let accept_bounds = m2 % 2 == 0;
    let mv = (4 * m2) as u32;
    let mp = (4 * m2 + 2) as u32;
    let mm_shift: u32 = if ieee_mantissa != 0 || ieee_exponent <= 1 {
        1
    } else {
        0
    };
    let mm = (4 * m2 - 1 - mm_shift) as u32;
    if e2 >= 0 {
        let q = log10_pow2_spec(e2);
        let k = FLOAT_POW5_INV_BITCOUNT + pow5bits_spec(q) - 1;
        let i = -e2 + q + k;
        let vr = mul_pow5_inv_div_pow2_spec(mv, q, i);
        let vp = mul_pow5_inv_div_pow2_spec(mp, q, i);
        let vm = mul_pow5_inv_div_pow2_spec(mm, q, i);
        let last: u8 = if q != 0 && dec32(vp) / 10 <= vm / 10 {
            let l = FLOAT_POW5_INV_BITCOUNT + pow5bits_spec(q - 1) - 1;
            (mul_pow5_inv_div_pow2_spec(mv, q - 1, -e2 + q - 1 + l) % 10) as u8
        } else {
            0
        };
        let s = Scaled32 {
            vr,
            vp,
            vm,
            vm_is_trailing_zeros: false,
            vr_is_trailing_zeros: false,
            last_removed_digit: last,
            e10: q as i32,
            accept_bounds,
        };
        if q <= 9 {
            if mv % 5 == 0 {
                Scaled32 { vr_is_trailing_zeros: pow5_factor_spec(mv as nat) >= q, ..s }
            } else if accept_bounds {
                Scaled32 { vm_is_trailing_zeros: pow5_factor_spec(mm as nat) >= q, ..s }
            } else if pow5_factor_spec(mp as nat) >= q {
                Scaled32 { vp: dec32(vp), ..s }
            } else {
                s
            }
        } else {
            s
        }
    } else {
        let q = log10_pow5_spec(-e2);
        let i = -e2 - q;
        let k = pow5bits_spec(i) - FLOAT_POW5_BITCOUNT;
        let j = q - k;
        let vr = mul_pow5_div_pow2_spec(mv, i, j);
        let vp = mul_pow5_div_pow2_spec(mp, i, j);
        let vm = mul_pow5_div_pow2_spec(mm, i, j);
        let last: u8 = if q != 0 && dec32(vp) / 10 <= vm / 10 {
            let j1 = q - 1 - (pow5bits_spec(i + 1) - FLOAT_POW5_BITCOUNT);
            (mul_pow5_div_pow2_spec(mv, i + 1, j1) % 10) as u8
        } else {
            0
        };
        let s = Scaled32 {
            vr,
            vp,
            vm,
            vm_is_trailing_zeros: false,
            vr_is_trailing_zeros: false,
            last_removed_digit: last,
            e10: (q + e2) as i32,
            accept_bounds,
        };
        if q <= 1 {
            if accept_bounds {
                Scaled32 { vr_is_trailing_zeros: true, vm_is_trailing_zeros: mm_shift == 1, ..s }
            } else {
                Scaled32 { vr_is_trailing_zeros: true, vp: dec32(vp), ..s }
            }
        } else if q < 31 {
            Scaled32 {
                vr_is_trailing_zeros: (mv as nat) % pow2((q - 1) as nat) == 0,
                ..s
            }
        } else {
            s
        }
    }
}

pub open spec fn general_loop32(
    vr: u32,
    vp: u32,
    vm: u32,
    vm_tz: bool,
    vr_tz: bool,
    last: u8,
    removed: int,
) -> (u32, u32, u32, bool, bool, u8, int)
    decreases vp,
{
    if vp / 10 > vm / 10 {
        general_loop32(
            vr / 10,
            vp / 10,
            vm / 10,
            vm_tz && vm % 10 == 0,
            vr_tz && last == 0,
            (vr % 10) as u8,
            removed + 1,
        )
    } else {
        (vr, vp, vm, vm_tz, vr_tz, last, removed)
    }
}

pub open spec fn trailing_loop32(vr: u32, vp: u32, vm: u32, vr_tz: bool, last: u8, removed: int) -> (
    u32,
    u32,
    u32,
    bool,
    u8,
    int,
)
    decreases vm,
{
    if vm != 0 && vm % 10 == 0 {
        trailing_loop32(vr / 10, vp / 10, vm / 10, vr_tz && last == 0, (vr % 10) as u8, removed + 1)
    } else {
        (vr, vp, vm, vr_tz, last, removed)
    }
}

pub open spec fn general_spec32(s: Scaled32) -> (u32, int) {
    let a = general_loop32(
        s.vr,
        s.vp,
        s.vm,
        s.vm_is_trailing_zeros,
        s.vr_is_trailing_zeros,
        s.last_removed_digit,
        0,
    );
    let vm_tz = a.3;
    let b = if vm_tz {
        trailing_loop32(a.0, a.1, a.2, a.4, a.5, a.6)
    } else {
        (a.0, a.1, a.2, a.4, a.5, a.6)
    };
    let vr = b.0;
    let vm = b.2;
    let last: u8 = if b.3 && b.4 == 5 && vr % 2 == 0 {
        4
    } else {
        b.4
    };
    let round_up = (vr == vm && (!s.accept_bounds || !vm_tz)) || last >= 5;
    (if round_up {
        inc32(vr)
    } else {
        vr
    }, b.5)
}

pub open spec fn common_loop32(vr: u32, vp: u32, vm: u32, last: u8, removed: int) -> (
    u32,
    u32,
    u32,
    u8,
    int,
)
    decreases vp,
{
    if vp / 10 > vm / 10 {
        common_loop32(vr / 10, vp / 10, vm / 10, (vr % 10) as u8, removed + 1)
    } else {
        (vr, vp, vm, last, removed)
    }
}

pub open spec fn common_spec32(s: Scaled32) -> (u32, int) {
    let a = common_loop32(s.vr, s.vp, s.vm, s.last_removed_digit, 0);
    (if a.0 == a.2 || a.3 >= 5 {
        inc32(a.0)
    } else {
        a.0
    }, a.4)
}

/// The decimal that the conversion computes for the given fields.
#[verifier::opaque]
pub open spec fn f2d_spec(ieee_mantissa: u32, ieee_exponent: u32) -> FloatingDecimal32 {
    let s = scale32_spec(ieee_mantissa, ieee_exponent);
    let r = if s.vm_is_trailing_zeros || s.vr_is_trailing_zeros {
        general_spec32(s)
    } else {
        common_spec32(s)
    };
    FloatingDecimal32 { mantissa: r.0, exponent: (s.e10 + r.1) as i32 }
}

fn scale32<P: Pow5Provider>(ieee_mantissa: u32, ieee_exponent: u32) -> (s: Scaled32)
    requires
        ieee_mantissa < 0x80_0000,
        ieee_exponent <= 255,
        ieee_mantissa != 0 || ieee_exponent != 0,
    ensures
        P::is_full_table() ==> s == scale32_spec(ieee_mantissa, ieee_exponent),
        -151 <= s.e10 <= 31,
        s.last_removed_digit < 10,
{
    let (e2, m2): (i32, u32) = if ieee_exponent == 0 {
        (1 - FLOAT_BIAS - FLOAT_MANTISSA_BITS as i32 - 2, ieee_mantissa)
    } else {
        (
            ieee_exponent as i32 - FLOAT_BIAS - FLOAT_MANTISSA_BITS as i32 - 2,
            0x80_0000u32 | ieee_mantissa,
        )
    };
    proof {
        if ieee_exponent != 0 {
            assert(0x80_0000u32 | ieee_mantissa == 0x80_0000u32 + ieee_mantissa) by (bit_vector)
                requires
                    ieee_mantissa < 0x80_0000u32,
            ;
        }
    }
    let accept_bounds = m2 % 2 == 0;

    // The interval of valid decimal representations, scaled by four.
    let mv = 4 * m2;
    let mp = 4 * m2 + 2;
    let mm_shift: u32 = if ieee_mantissa != 0 || ieee_exponent <= 1 {
        1
    } else {
        0
    };
    let mm = 4 * m2 - 1 - mm_shift;

    // Convert to a decimal power base with 64-bit arithmetic.
    if e2 >= 0 {
        proof {
            lemma_positive_exponent_ranges(e2 as int);
        }
        let q = log10_pow2(e2);
        let k = FLOAT_POW5_INV_BITCOUNT + pow5bits(q as i32) - 1;
        let i = -e2 + q as i32 + k;
        let vr = mul_pow5_inv_div_pow2::<P>(mv, q, i);
        let vp = mul_pow5_inv_div_pow2::<P>(mp, q, i);
        let vm = mul_pow5_inv_div_pow2::<P>(mm, q, i);
        // One removed digit is needed even where no digit is removed below.
        let last: u8 = if q != 0 && vp.wrapping_sub(1) / 10 <= vm / 10 {
            let l = FLOAT_POW5_INV_BITCOUNT + pow5bits(q as i32 - 1) - 1;
            (mul_pow5_inv_div_pow2::<P>(mv, q - 1, -e2 + q as i32 - 1 + l) % 10) as u8
        } else {
            0
        };
        let s = Scaled32 {
            vr,
            vp,
            vm,
            vm_is_trailing_zeros: false,
            vr_is_trailing_zeros: false,
            last_removed_digit: last,
            e10: q as i32,
            accept_bounds,
        };
        if q <= 9 {
            // Only one of mp, mv, and mm can be a multiple of 5, if any.
            if mv % 5 == 0 {
                Scaled32 { vr_is_trailing_zeros: multiple_of_power_of_5(mv as u64, q), ..s }
            } else if accept_bounds {
                Scaled32 { vm_is_trailing_zeros: multiple_of_power_of_5(mm as u64, q), ..s }
            } else if multiple_of_power_of_5(mp as u64, q) {
                Scaled32 { vp: vp.wrapping_sub(1), ..s }
            } else {
                s
            }
        } else {
            s
        }
    } else {
        proof {
            lemma_negative_exponent_ranges(e2 as int);
        }
        let q = log10_pow5(-e2);
        let i = -e2 - q as i32;
        let k = pow5bits(i) - FLOAT_POW5_BITCOUNT;
        let j = q as i32 - k;
        let vr = mul_pow5_div_pow2::<P>(mv, i as u32, j);
        let vp = mul_pow5_div_pow2::<P>(mp, i as u32, j);
        let vm = mul_pow5_div_pow2::<P>(mm, i as u32, j);
        let last: u8 = if q != 0 && vp.wrapping_sub(1) / 10 <= vm / 10 {
            let j1 = q as i32 - 1 - (pow5bits(i + 1) - FLOAT_POW5_BITCOUNT);
            (mul_pow5_div_pow2::<P>(mv, (i + 1) as u32, j1) % 10) as u8
        } else {
            0
        };
        let s = Scaled32 {
            vr,
            vp,
            vm,
            vm_is_trailing_zeros: false,
            vr_is_trailing_zeros: false,
            last_removed_digit: last,
            e10: q as i32 + e2,
            accept_bounds,
        };
        if q <= 1 {
            // mv = 4 * m2 always has at least two trailing zero bits; mm =
            // mv - 1 - mm_shift has one iff mm_shift == 1; mp = mv + 2 has
            // at least one.
            if accept_bounds {
                Scaled32 { vr_is_trailing_zeros: true, vm_is_trailing_zeros: mm_shift == 1, ..s }
            } else {
                Scaled32 { vr_is_trailing_zeros: true, vp: vp.wrapping_sub(1), ..s }
            }
        } else if q < 31 {
            Scaled32 { vr_is_trailing_zeros: multiple_of_power_of_2(mv as u64, q - 1), ..s }
        } else {
            s
        }
    }
}

/// Digit removal where a bound is exact.
fn remove_general32(s: Scaled32) -> (r: (u32, i32))
    requires
        s.last_removed_digit < 10,
    ensures
        (r.0, r.1 as int) == general_spec32(s),
        0 <= r.1 < 20,
{
    let mut vr = s.vr;
    let mut vp = s.vp;
    let mut vm = s.vm;
    let mut vm_is_trailing_zeros = s.vm_is_trailing_zeros;
    let mut vr_is_trailing_zeros = s.vr_is_trailing_zeros;
    let mut last_removed_digit = s.last_removed_digit;
    let mut removed: i32 = 0;
    let ghost a = general_loop32(
        vr,
        vp,
        vm,
        vm_is_trailing_zeros,
        vr_is_trailing_zeros,
        last_removed_digit,
        0,
    );
    proof {
        lemma_unscaled(removed, vp as u64, vm as u64);
    }
    while vp / 10 > vm / 10
        invariant
            0 <= removed < 20,
            pow10(removed as nat) * vp <= 0xffff_ffff_ffff_ffff,
            pow10(removed as nat) * vm <= 0xffff_ffff_ffff_ffff,
            general_loop32(
                vr,
                vp,
                vm,
                vm_is_trailing_zeros,
                vr_is_trailing_zeros,
                last_removed_digit,
                removed as int,
            ) == a,
        decreases vp,
    {
        proof {
            lemma_remove_digits(removed as nat, vp as nat, 10, 1);
            lemma_remove_digits(removed as nat, vm as nat, 10, 1);
            lemma_pow10_fits((removed + 1) as nat, (vp / 10) as nat);
        }
        vm_is_trailing_zeros = vm_is_trailing_zeros && vm % 10 == 0;
        vr_is_trailing_zeros = vr_is_trailing_zeros && last_removed_digit == 0;
        last_removed_digit = (vr % 10) as u8;
        vr = vr / 10;
        vp = vp / 10;
        vm = vm / 10;
        removed = removed + 1;
    }
    let ghost b = if vm_is_trailing_zeros {
        trailing_loop32(vr, vp, vm, vr_is_trailing_zeros, last_removed_digit, removed as int)
    } else {
        (vr, vp, vm, vr_is_trailing_zeros, last_removed_digit, removed as int)
    };
    if vm_is_trailing_zeros {
        // The lower boundary is exact: keep removing its trailing zeros.
        while vm != 0 && vm % 10 == 0
            invariant
                0 <= removed < 20,
                pow10(removed as nat) * vm <= 0xffff_ffff_ffff_ffff,
                trailing_loop32(vr, vp, vm, vr_is_trailing_zeros, last_removed_digit, removed as int)
                    == b,
            decreases vm,
        {
            proof {
                lemma_remove_digits(removed as nat, vm as nat, 10, 1);
                lemma_pow10_fits((removed + 1) as nat, (vm / 10) as nat);
            }
            vr_is_trailing_zeros = vr_is_trailing_zeros && last_removed_digit == 0;
            last_removed_digit = (vr % 10) as u8;
            vr = vr / 10;
            vp = vp / 10;
            vm = vm / 10;
            removed = removed + 1;
        }
    }
    if vr_is_trailing_zeros && last_removed_digit == 5 && vr % 2 == 0 {
        // Round to even if the exact number is .....50..0.
        last_removed_digit = 4;
    }
    // Take vr + 1 if vr is outside the bounds or must be rounded up.
    let round_up = (vr == vm && (!s.accept_bounds || !vm_is_trailing_zeros))
        || last_removed_digit >= 5;
    let output = if round_up {
        vr.wrapping_add(1)
    } else {
        vr
    };
    (output, removed)
}

/// Digit removal where no bound is exact.
fn remove_common32(s: Scaled32) -> (r: (u32, i32))
    ensures
        (r.0, r.1 as int) == common_spec32(s),
        0 <= r.1 < 20,
{
    let mut vr = s.vr;
    let mut vp = s.vp;
    let mut vm = s.vm;
    let mut last_removed_digit = s.last_removed_digit;
    let mut removed: i32 = 0;
    let ghost a = common_loop32(vr, vp, vm, last_removed_digit, 0);
    proof {
        lemma_unscaled(removed, vp as u64, vm as u64);
    }
    while vp / 10 > vm / 10
        invariant
            0 <= removed < 20,
            pow10(removed as nat) * vp <= 0xffff_ffff_ffff_ffff,
            pow10(removed as nat) * vm <= 0xffff_ffff_ffff_ffff,
            common_loop32(vr, vp, vm, last_removed_digit, removed as int) == a,
        decreases vp,
    {
        proof {
            lemma_remove_digits(removed as nat, vp as nat, 10, 1);
            lemma_remove_digits(removed as nat, vm as nat, 10, 1);
            lemma_pow10_fits((removed + 1) as nat, (vp / 10) as nat);
        }
        last_removed_digit = (vr % 10) as u8;
        vr = vr / 10;
        vp = vp / 10;
        vm = vm / 10;
        removed = removed + 1;
    }
    // Take vr + 1 if vr is outside the bounds or must be rounded up.
    let output = if vr == vm || last_removed_digit >= 5 {
        vr.wrapping_add(1)
    } else {
        vr
    };
    (output, removed)
}

/// The shortest decimal in the rounding interval of the binary32 value with
/// the given mantissa and biased exponent fields (Ryu), with the high
/// halves of the power-of-five multipliers of `P`. With the full tables the
/// result is `f2d_spec`, the decimal that this computation defines.
pub fn f2d<P: Pow5Provider>(ieee_mantissa: u32, ieee_exponent: u32) -> (r: FloatingDecimal32)
    requires
        ieee_mantissa < 0x80_0000,
        ieee_exponent <= 255,
        ieee_mantissa != 0 || ieee_exponent != 0,
    ensures
        P::is_full_table() ==> r == f2d_spec(ieee_mantissa, ieee_exponent),
        -151 <= r.exponent <= 50,
{
    proof {
        reveal(f2d_spec);
    }
    let s = scale32::<P>(ieee_mantissa, ieee_exponent);
    let (output, removed) = if s.vm_is_trailing_zeros || s.vr_is_trailing_zeros {
        remove_general32(s)
    } else {
        remove_common32(s)
    };
    FloatingDecimal32 { mantissa: output, exponent: s.e10 + removed }
}

} // verus!
