//! The power-of-five multipliers, from either of two interchangeable
//! providers: the full tables, or the small seed tables with a derivation.

use vstd::prelude::*;
use crate::pow5_full::{DOUBLE_POW5_INV_SPLIT, DOUBLE_POW5_SPLIT};
use crate::pow5_small::{compute_inv_pow5, compute_pow5};

verus! {

/// A source of the 128-bit multipliers of `5^i` and of its reciprocal, as
/// `(low, high)` halves.
pub trait Pow5Provider {
    /// Whether every entry is the full-table entry.
    spec fn is_full_table() -> bool;

    /// The multiplier of `5^i`, scaled to 125 significant bits.
    fn pow5_split(i: u32) -> (r: (u64, u64))
        requires
            i < 326,
        ensures
            i % 26 == 0 ==> r == DOUBLE_POW5_SPLIT[i as int],
            Self::is_full_table() ==> r == DOUBLE_POW5_SPLIT[i as int],
    ;

    /// The scaled reciprocal multiplier of `5^i`.
    fn pow5_inv_split(i: u32) -> (r: (u64, u64))
        requires
            i < 292,
        ensures
            i % 26 == 0 ==> r == DOUBLE_POW5_INV_SPLIT[i as int],
            Self::is_full_table() ==> r == DOUBLE_POW5_INV_SPLIT[i as int],
    ;
}

/// Direct lookup in the full tables.
#[derive(Debug, Clone, Copy)]
pub struct FullTable;

/// Derivation from the small seed tables.
#[derive(Debug, Clone, Copy)]
pub struct SmallTable;

impl Pow5Provider for FullTable {
    open spec fn is_full_table() -> bool {
        true
    }

    fn pow5_split(i: u32) -> (r: (u64, u64)) {
        DOUBLE_POW5_SPLIT[i as usize]
    }

    fn pow5_inv_split(i: u32) -> (r: (u64, u64)) {
        DOUBLE_POW5_INV_SPLIT[i as usize]
    }
}

impl Pow5Provider for SmallTable {
    /// Agreement with the full tables is established here for the seed
    /// entries only.
    open spec fn is_full_table() -> bool {
        false
    }

    fn pow5_split(i: u32) -> (r: (u64, u64)) {
        compute_pow5(i)
    }

    fn pow5_inv_split(i: u32) -> (r: (u64, u64)) {
        compute_inv_pow5(i)
    }
}

} // verus!
