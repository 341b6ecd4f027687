//! Decomposition of binary32 and binary64 bit patterns into sign, biased
//! exponent and mantissa fields, and their classification.

use vstd::prelude::*;

verus! {

/// The fields of a floating-point bit pattern.
#[derive(Debug, Clone, Copy, PartialEq, Eq)]
pub struct Classified {
    pub sign: bool,
    pub mantissa: u64,
    pub exponent: u32,
}

/// What a bit pattern stands for.
#[derive(Debug, Clone, Copy, PartialEq, Eq)]
pub enum FloatKind {
    Zero,
    Finite,
    Infinite,
    Nan,
}

pub open spec fn f64_sign(bits: u64) -> bool {
    bits >= 0x8000_0000_0000_0000
}

pub open spec fn f64_exponent(bits: u64) -> nat {
    ((bits / 0x10_0000_0000_0000) % 0x800) as nat
}

pub open spec fn f64_mantissa(bits: u64) -> nat {
    (bits % 0x10_0000_0000_0000) as nat
}

pub open spec fn f32_sign(bits: u32) -> bool {
    bits >= 0x8000_0000
}

pub open spec fn f32_exponent(bits: u32) -> nat {
    ((bits / 0x80_0000) % 0x100) as nat
}

pub open spec fn f32_mantissa(bits: u32) -> nat {
    (bits % 0x80_0000) as nat
}

/// The kind of a value from its fields: an all-ones exponent marks a
/// non-finite value, NaN when the mantissa is not zero.
pub open spec fn kind_of(mantissa: nat, exponent: nat, max_exponent: nat) -> FloatKind {
    if exponent == max_exponent {
        if mantissa != 0 {
            FloatKind::Nan
        } else {
            FloatKind::Infinite
        }
    } else if exponent == 0 && mantissa == 0 {
        FloatKind::Zero
    } else {
        FloatKind::Finite
    }
}

pub fn decompose_f64(bits: u64) -> (r: Classified)
    ensures
        r.sign == f64_sign(bits),
        r.mantissa == f64_mantissa(bits),
        r.exponent == f64_exponent(bits),
{
    Classified {
        sign: bits >= 0x8000_0000_0000_0000,
        mantissa: bits % 0x10_0000_0000_0000,
        exponent: ((bits / 0x10_0000_0000_0000) % 0x800) as u32,
    }
}

pub fn decompose_f32(bits: u32) -> (r: Classified)
    ensures
        r.sign == f32_sign(bits),
        r.mantissa == f32_mantissa(bits),
        r.exponent == f32_exponent(bits),
{
    Classified {
        sign: bits >= 0x8000_0000,
        mantissa: (bits % 0x80_0000) as u64,
        exponent: (bits / 0x80_0000) % 0x100,
    }
}

pub fn classify_f64(bits: u64) -> (r: FloatKind)
    ensures
        r == kind_of(f64_mantissa(bits), f64_exponent(bits), 0x7ff),
{
    let c = decompose_f64(bits);
    classify(c.mantissa, c.exponent, 0x7ff)
}

pub fn classify_f32(bits: u32) -> (r: FloatKind)
    ensures
        r == kind_of(f32_mantissa(bits), f32_exponent(bits), 0xff),
{
    let c = decompose_f32(bits);
    classify(c.mantissa, c.exponent, 0xff)
}

fn classify(mantissa: u64, exponent: u32, max_exponent: u32) -> (r: FloatKind)
    ensures
        r == kind_of(mantissa as nat, exponent as nat, max_exponent as nat),
{
    if exponent == max_exponent {
        if mantissa != 0 {
            FloatKind::Nan
        } else {
            FloatKind::Infinite
        }
    } else if exponent == 0 && mantissa == 0 {
        FloatKind::Zero
    } else {
        FloatKind::Finite
    }
}

/// Whether the exponent field is all ones.
pub fn is_nonfinite_f64(bits: u64) -> (r: bool)
    ensures
        r == (f64_exponent(bits) == 0x7ff),
{
    (bits / 0x10_0000_0000_0000) % 0x800 == 0x7ff
}

/// Whether the exponent field is all ones.
pub fn is_nonfinite_f32(bits: u32) -> (r: bool)
    ensures
        r == (f32_exponent(bits) == 0xff),
{
    (bits / 0x80_0000) % 0x100 == 0xff
}

} // verus!
