// The small-table derivation agrees with the full tables entry by entry,
// and the digit generators give the same digits with either provider.

use ryuu::pow5_full::{DOUBLE_POW5_INV_SPLIT, DOUBLE_POW5_SPLIT};
use ryuu::d2s::d2d;
use ryuu::f2s::f2d;
use ryuu::pow5::{FullTable, SmallTable};
use ryuu::pow5_small::{compute_inv_pow5, compute_pow5};

#[test]
fn test_compute_pow5() {
    for (i, entry) in DOUBLE_POW5_SPLIT.iter().enumerate() {
        assert_eq!(*entry, compute_pow5(i as u32), "entry {i}");
    }
}

#[test]
fn test_compute_inv_pow5() {
    for (i, entry) in DOUBLE_POW5_INV_SPLIT[..292].iter().enumerate() {
        assert_eq!(*entry, compute_inv_pow5(i as u32), "entry {i}");
    }
}

#[test]
fn providers_agree_on_digits() {
    let mut state: u64 = 0x2545_F491_4F6C_DD1D;
    for _ in 0..20000 {
        state ^= state << 13;
        state ^= state >> 7;
        state ^= state << 17;
        let mantissa = state & ((1u64 << 52) - 1);
        let exponent = ((state >> 52) % 2047) as u32;
        if mantissa == 0 && exponent == 0 {
            continue;
        }
        assert_eq!(d2d::<FullTable>(mantissa, exponent), d2d::<SmallTable>(mantissa, exponent));
        let m32 = (state as u32) & ((1u32 << 23) - 1);
        let e32 = ((state >> 40) % 255) as u32;
        if m32 == 0 && e32 == 0 {
            continue;
        }
        assert_eq!(f2d::<FullTable>(m32, e32), f2d::<SmallTable>(m32, e32));
    }
}

#[test]
fn digits_of_known_values() {
    // 1.0: mantissa field 0, exponent field 1023.
    let one = d2d::<FullTable>(0, 1023);
    assert_eq!((one.mantissa, one.exponent), (1, 0));
    // 0.3 has the shortest form 3e-1.
    let bits = 0.3_f64.to_bits();
    let v = d2d::<SmallTable>(bits & ((1u64 << 52) - 1), (bits >> 52) as u32);
    assert_eq!((v.mantissa, v.exponent), (3, -1));
    // The smallest subnormal binary32 is 1e-45.
    let v = f2d::<FullTable>(1, 0);
    assert_eq!((v.mantissa, v.exponent), (1, -45));
}
