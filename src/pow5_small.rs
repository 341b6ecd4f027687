//! The small power-of-five table: a few seed entries from which any entry of
//! the full table is derived with fixed-width arithmetic.

use vstd::prelude::*;
use crate::common::{pow5bits, pow5bits_spec};
use crate::d2s::lemma_mul_u64_fits;
use crate::pow5_full::{DOUBLE_POW5_INV_SPLIT, DOUBLE_POW5_SPLIT};

verus! {

/// The reciprocal multipliers of every 26th power of five.
pub const DOUBLE_POW5_INV_SPLIT2: [(u64, u64); 15] = [
    (1, 2305843009213693952),
    (5955668970331000884, 1784059615882449851),
    (8982663654677661702, 1380349269358112757),
    (7286864317269821294, 2135987035920910082),
    (7005857020398200553, 1652639921975621497),
    (17965325103354776697, 1278668206209430417),
    (8928596168509315048, 1978643211784836272),
    (10075671573058298858, 1530901034580419511),
    (597001226353042382, 1184477304306571148),
    (1527430471115325346, 1832889850782397517),
    (12533209867169019542, 1418129833677084982),
    (5577825024675947042, 2194449627517475473),
    (11006974540203867551, 1697873161311732311),
    (10313493231639821582, 1313665730009899186),
    (12701016819766672773, 2032799256770390445),
];

/// Two-bit corrections, sixteen to a word, for the derived reciprocal multipliers.
pub const POW5_INV_OFFSETS: [u32; 19] = [
    1414808916,
    67458373,
    268701696,
    4195348,
    1073807360,
    1091917141,
    1108,
    65604,
    1073741824,
    1140850753,
    1346716752,
    1431634004,
    1365595476,
    1073758208,
    16777217,
    66816,
    1364284433,
    89478484,
    0,
];

/// The multipliers of every 26th power of five.
pub const DOUBLE_POW5_SPLIT2: [(u64, u64); 13] = [
    (0, 1152921504606846976),
    (0, 1490116119384765625),
    (1032610780636961552, 1925929944387235853),
    (7910200175544436838, 1244603055572228341),
    (16941905809032713930, 1608611746708759036),
    (13024893955298202172, 2079081953128979843),
    (6607496772837067824, 1343575221513417750),
    (17332926989895652603, 1736530273035216783),
    (13037379183483547984, 2244412773384604712),
    (1605989338741628675, 1450417759929778918),
    (9630225068416591280, 1874621017369538693),
    (665883850346957067, 1211445438634777304),
    (14931890668723713708, 1565756531257009982),
];

/// Two-bit corrections, sixteen to a word, for the derived multipliers.
pub const POW5_OFFSETS: [u32; 21] = [
    0,
    0,
    0,
    0,
    1073741824,
    1500076437,
    1431590229,
    1448432917,
    1091896580,
    1079333904,
    1146442053,
    1146111296,
    1163220304,
    1073758208,
    2521039936,
    1431721317,
    1413824581,
    1075134801,
    1431671125,
    1363170645,
    261,
];

/// `5^i` for `i < 26`.
pub const DOUBLE_POW5_TABLE: [u64; 26] = [
    1,
    5,
    25,
    125,
    625,
    3125,
    15625,
    78125,
    390625,
    1953125,
    9765625,
    48828125,
    244140625,
    1220703125,
    6103515625,
    30517578125,
    152587890625,
    762939453125,
    3814697265625,
    19073486328125,
    95367431640625,
    476837158203125,
    2384185791015625,
    11920928955078125,
    59604644775390625,
    298023223876953125,
];

/// Each seed entry is the full-table entry of its power of five.
pub proof fn lemma_seed_entries()
    ensures
        forall|b: int| 0 <= b < 13 ==> #[trigger] DOUBLE_POW5_SPLIT2[b] == DOUBLE_POW5_SPLIT[26 * b],
        forall|b: int| 0 <= b < 12 ==> #[trigger] DOUBLE_POW5_INV_SPLIT2[b] == DOUBLE_POW5_INV_SPLIT[26 * b],
{
}

proof fn lemma_delta_range(i: int, base2: int)
    requires
        0 <= base2 < i < base2 + 26,
        i < 400,
    ensures
        0 < pow5bits_spec(i) - pow5bits_spec(base2) < 64,
{
}

/// The two-bit correction for index `i` from a packed correction table.
fn correction(offsets: u32, i: u32) -> (r: u128)
    ensures
        r < 4,
{
    let shift = (i % 16) * 2;
    let c = (offsets >> shift) & 3;
    assert(c <= 3) by (bit_vector)
        requires
            c == (offsets >> shift) & 3,
    ;
    c as u128
}

/// The multiplier of `5^i`, derived from the seed below it; the seed
/// entries are returned as they are.
pub fn compute_pow5(i: u32) -> (r: (u64, u64))
    requires
        i < 326,
    ensures
        i % 26 == 0 ==> r == DOUBLE_POW5_SPLIT[i as int],
{
    proof {
        lemma_seed_entries();
    }
    let base = i / 26;
    let base2 = base * 26;
    let offset = i - base2;
    let mul = DOUBLE_POW5_SPLIT2[base as usize];
    if offset == 0 {
        return mul;
    }
    let m = DOUBLE_POW5_TABLE[offset as usize];
    proof {
        lemma_mul_u64_fits(m, mul.0);
        lemma_mul_u64_fits(m, mul.1);
        lemma_delta_range(i as int, base2 as int);
    }
    let b0 = m as u128 * mul.0 as u128;
    let b2 = m as u128 * mul.1 as u128;
    let delta = (pow5bits(i as i32) - pow5bits(base2 as i32)) as u32;
    let corr = correction(POW5_OFFSETS[(i / 16) as usize], i);
    let shifted_sum = (b0 >> delta).wrapping_add(b2 << (64 - delta)).wrapping_add(corr);
    let high = shifted_sum >> 64;
    assert(shifted_sum >> 64u128 <= 0xffff_ffff_ffff_ffffu128) by (bit_vector);
    (#[verifier::truncate] (shifted_sum as u64), high as u64)
}

/// The reciprocal multiplier of `5^i`, derived from the seed above it; the
/// seed entries are returned as they are.
pub fn compute_inv_pow5(i: u32) -> (r: (u64, u64))
    requires
        i < 292,
    ensures
        i % 26 == 0 ==> r == DOUBLE_POW5_INV_SPLIT[i as int],
{
    proof {
        lemma_seed_entries();
        assert(forall|b: int| 0 <= b < 15 ==> #[trigger] DOUBLE_POW5_INV_SPLIT2[b].0 >= 1);
    }
    let base = (i + 25) / 26;
    let base2 = base * 26;
    let offset = base2 - i;
    let mul = DOUBLE_POW5_INV_SPLIT2[base as usize];
    if offset == 0 {
        return mul;
    }
    let m = DOUBLE_POW5_TABLE[offset as usize];
    proof {
        lemma_mul_u64_fits(m, (mul.0 - 1) as u64);
        lemma_mul_u64_fits(m, mul.1);
        lemma_delta_range(base2 as int, i as int);
    }
    let b0 = m as u128 * (mul.0 - 1) as u128;
    let b2 = m as u128 * mul.1 as u128;
    let delta = (pow5bits(base2 as i32) - pow5bits(i as i32)) as u32;
    let corr = correction(POW5_INV_OFFSETS[(i / 16) as usize], i);
    let shifted_sum = (b0 >> delta).wrapping_add(b2 << (64 - delta)).wrapping_add(1).wrapping_add(corr);
    let high = shifted_sum >> 64;
    assert(shifted_sum >> 64u128 <= 0xffff_ffff_ffff_ffffu128) by (bit_vector);
    (#[verifier::truncate] (shifted_sum as u64), high as u64)
}

} // verus!
