//! SplitMix64, used here only to spread one 64-bit seed over a whole state.

use vstd::prelude::*;

verus! {

/// The increment of the SplitMix64 counter.
pub const GAMMA: u64 = 0x9E37_79B9_7F4A_7C15;

/// The sum of `x` and `y` in 64 bits, where a carry out of the top is lost.
pub open spec fn add64(x: u64, y: u64) -> u64 {
    ((x + y) % 0x1_0000_0000_0000_0000) as u64
}

/// The product of `x` and `y` in 64 bits, where what exceeds them is lost.
pub open spec fn mul64(x: u64, y: u64) -> u64 {
    ((x * y) % 0x1_0000_0000_0000_0000) as u64
}

/// The first of the three rounds of the output function.
pub open spec fn round1(z: u64) -> u64 {
    mul64(z ^ (z >> 30), 0xBF58_476D_1CE4_E5B9)
}

/// The second round of the output function.
pub open spec fn round2(z: u64) -> u64 {
    mul64(z ^ (z >> 27), 0x94D0_49BB_1331_11EB)
}

/// The last round of the output function.
pub open spec fn round3(z: u64) -> u64 {
    z ^ (z >> 31)
}

/// The output function: what SplitMix64 yields at the counter value `z`.
pub open spec fn mix(z: u64) -> u64 {
    round3(round2(round1(z)))
}

/// The counter after `n` draws from the seed `seed`.
pub open spec fn counter(seed: u64, n: nat) -> u64
    decreases n,
{
    if n == 0 {
        seed
    } else {
        add64(counter(seed, (n - 1) as nat), GAMMA)
    }
}

/// The `n`-th value, counted from one, that SplitMix64 yields from `seed`.
pub open spec fn output(seed: u64, n: nat) -> u64 {
    mix(counter(seed, n))
}

/// One draw: the counter moved on by `GAMMA`, and the value at it.
pub fn draw(at: u64) -> (r: (u64, u64))
    ensures
        r.0 == add64(at, GAMMA),
        r.1 == mix(r.0),
{
    let next: u64 = at.wrapping_add(GAMMA);
    let a: u64 = (next ^ (next >> 30)).wrapping_mul(0xBF58_476D_1CE4_E5B9);
    let b: u64 = (a ^ (a >> 27)).wrapping_mul(0x94D0_49BB_1331_11EB);
    (next, b ^ (b >> 31))
}

/// Each round of the output function yields zero at zero alone.
proof fn lemma_rounds(z: u64)
    by (bit_vector)
    ensures
        round1(z) == 0 ==> z == 0,
        round2(z) == 0 ==> z == 0,
        round3(z) == 0 ==> z == 0,
{
}

/// The output function yields zero at the counter value zero alone.
pub proof fn lemma_mix_zero_only(z: u64)
    ensures
        mix(z) == 0 ==> z == 0,
{
    lemma_rounds(z);
    lemma_rounds(round1(z));
    lemma_rounds(round2(round1(z)));
}

/// Two values in a row are never both zero.
pub proof fn lemma_outputs_not_both_zero(seed: u64, n: nat)
    ensures
        output(seed, n) != 0 || output(seed, n + 1) != 0,
{
    lemma_mix_zero_only(counter(seed, n));
    lemma_mix_zero_only(counter(seed, n + 1));
}

} // verus!
