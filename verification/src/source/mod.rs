//! Source layer: the integer parts of the radiated-noise models.
//!
//! The synthesis of pressures is floating point and runs in the host; the
//! deterministic noise generator that drives it, and the per-band seeds, stand
//! here.

pub mod merchant;

use vstd::prelude::*;

verus! {

/// Number of tonal lines a source spectrum carries.
pub const TONAL_HARMONICS: u32 = 15;

/// Multiplier that spreads band indices over the seed space (an odd constant).
pub const BAND_SEED_MULTIPLIER: u64 = 0xD1B5_4A32_D192_ED03;

/// One step of the xorshift64 generator (shifts 13, 7, 17).
pub open spec fn spec_xorshift64(x: u64) -> u64 {
    let a = x ^ (x << 13u64);
    let b = a ^ (a >> 7u64);
    b ^ (b << 17u64)
}

/// Advances the xorshift64 state that drives every noise source of the engine.
pub fn xorshift64(state: u64) -> (res: u64)
    ensures
        res == spec_xorshift64(state),
{
    let mut x = state;
    x ^= x << 13u64;
    x ^= x >> 7u64;
    x ^= x << 17u64;
    x
}

/// The seed of the noise band at position `index` among a voice's active
/// bands: the voice seed mixed with `(index + 1)` times an odd constant, modulo 2^64.
pub open spec fn spec_band_seed(seed: u64, index: u64) -> u64 {
    seed ^ (((index + 1) * BAND_SEED_MULTIPLIER) % 0x1_0000_0000_0000_0000int) as u64
}

/// Derives the seed of one broadband noise band from the voice seed.
pub fn band_seed(seed: u64, index: u64) -> (res: u64)
    requires
        index < u64::MAX,
    ensures
        res == spec_band_seed(seed, index),
{
    seed ^ (index + 1).wrapping_mul(BAND_SEED_MULTIPLIER)
}

// ---------------------------------------------------------------------------
// Laws
// ---------------------------------------------------------------------------

proof fn lemma_xorshift_left_step_injective(x: u64, y: u64, s: u64)
    requires
        s == 13 || s == 17,
        x ^ (x << s) == y ^ (y << s),
    ensures
        x == y,
{
    assert(x ^ (x << s) == y ^ (y << s) && (s == 13 || s == 17) ==> x == y) by (bit_vector);
}

proof fn lemma_xorshift_right_step_injective(x: u64, y: u64)
    requires
        x ^ (x >> 7u64) == y ^ (y >> 7u64),
    ensures
        x == y,
{
    assert(x ^ (x >> 7u64) == y ^ (y >> 7u64) ==> x == y) by (bit_vector);
}

/// The xorshift64 step is a permutation of the 64-bit states: distinct states
/// step to distinct states.
pub proof fn lemma_xorshift64_injective(x: u64, y: u64)
    requires
        spec_xorshift64(x) == spec_xorshift64(y),
    ensures
        x == y,
{
    let ax = x ^ (x << 13u64);
    let ay = y ^ (y << 13u64);
    let bx = ax ^ (ax >> 7u64);
    let by_ = ay ^ (ay >> 7u64);
    lemma_xorshift_left_step_injective(bx, by_, 17);
    lemma_xorshift_right_step_injective(ax, ay);
    lemma_xorshift_left_step_injective(x, y, 13);
}

/// The zero state is fixed and every other state steps to a non-zero state,
/// so a generator seeded with a non-zero value never falls silent.
pub proof fn lemma_xorshift64_nonzero(x: u64)
    ensures
        spec_xorshift64(0) == 0,
        x != 0 ==> spec_xorshift64(x) != 0,
{
    assert(spec_xorshift64(0) == 0) by (bit_vector);
    if x != 0 && spec_xorshift64(x) == 0 {
        lemma_xorshift64_injective(x, 0);
    }
}

/// Undoing the voice seed leaves `(index + 1)` times the odd multiplier
/// `0xD1B5_4A32_D192_ED03`, modulo 2^64.
pub proof fn lemma_band_seed_is_scaled_index(seed: u64, index: u64)
    requires
        index < u64::MAX,
    ensures
        spec_band_seed(seed, index) ^ seed == (((index as nat + 1) * 0xD1B5_4A32_D192_ED03nat)
            % 0x1_0000_0000_0000_0000nat) as u64,
{
    let p = (((index + 1) * BAND_SEED_MULTIPLIER) % 0x1_0000_0000_0000_0000int) as u64;
    assert((seed ^ p) ^ seed == p) by (bit_vector);
}

/// Consecutive band positions differ by one multiplier: the seed of band
/// `index + 1`, with the voice seed undone, is that of band `index` plus
/// `0xD1B5_4A32_D192_ED03`, modulo 2^64.
pub proof fn lemma_band_seeds_step_by_multiplier(seed: u64, index: u64)
    requires
        index + 1 < u64::MAX,
    ensures
        (spec_band_seed(seed, (index + 1) as u64) ^ seed) as nat == (((spec_band_seed(seed, index)
            ^ seed) as nat + 0xD1B5_4A32_D192_ED03nat) % 0x1_0000_0000_0000_0000nat),
{
    lemma_band_seed_is_scaled_index(seed, index);
    lemma_band_seed_is_scaled_index(seed, (index + 1) as u64);
    let m = 0x1_0000_0000_0000_0000int;
    let c = 0xD1B5_4A32_D192_ED03int;
    let x = (index as int + 1) * c;
    assert((index as int + 2) * c == x + c) by (nonlinear_arith)
        requires x == (index as int + 1) * c;
    vstd::arithmetic::div_mod::lemma_add_mod_noop(x, c, m);
    vstd::arithmetic::div_mod::lemma_small_mod(c as nat, m as nat);
    vstd::arithmetic::div_mod::lemma_mod_pos_bound(x, m);
    vstd::arithmetic::div_mod::lemma_mod_pos_bound(x + c, m);
    vstd::arithmetic::div_mod::lemma_mod_pos_bound(x % m + c, m);
}

/// The bands of one voice draw distinct seeds: band seeds differ for
/// different band positions.
pub proof fn lemma_band_seeds_distinct(seed: u64, i: u64, j: u64)
    requires
        i < u64::MAX,
        j < u64::MAX,
        i != j,
    ensures
        spec_band_seed(seed, i) != spec_band_seed(seed, j),
{
    let a: u64 = (i + 1) as u64;
    let b: u64 = (j + 1) as u64;
    // 0x0610_6ccf_a448_e5ab is the inverse of the multiplier modulo 2^64.
    let pa: u64 = ((a * BAND_SEED_MULTIPLIER) % 0x1_0000_0000_0000_0000int) as u64;
    let pb: u64 = ((b * BAND_SEED_MULTIPLIER) % 0x1_0000_0000_0000_0000int) as u64;
    assert(((((a * 0xD1B5_4A32_D192_ED03u64) % 0x1_0000_0000_0000_0000int) as u64
        * 0x0610_6ccf_a448_e5abu64) % 0x1_0000_0000_0000_0000int) as u64 == a) by (bit_vector);
    assert(((((b * 0xD1B5_4A32_D192_ED03u64) % 0x1_0000_0000_0000_0000int) as u64
        * 0x0610_6ccf_a448_e5abu64) % 0x1_0000_0000_0000_0000int) as u64 == b) by (bit_vector);
    assert((seed ^ pa) == (seed ^ pb) ==> pa == pb) by (bit_vector);
}

} // verus!
