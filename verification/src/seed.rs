//! Seeding: from sixteen bytes, or from one 64-bit integer.
//!
//! No seed gives the state of all zeros, which the transition would never
//! leave. Sixteen zero bytes are replaced by the bytes
//! `af cd 1d 7b 39 a8 20 e2 f4 65 b9 a1 6a 9e 78 6e`, which hold the state
//! that the integer seed 0 gives.

use vstd::prelude::*;
use crate::splitmix::{draw, lemma_outputs_not_both_zero, output};
use crate::state::State;

verus! {

/// The 32-bit word that the four bytes of `b` from `at` on hold, lowest
/// byte first.
pub open spec fn le_word(b: Seq<u8>, at: int) -> u32 {
    (b[at] as u32) | ((b[at + 1] as u32) << 8) | ((b[at + 2] as u32) << 16) | ((b[at
        + 3] as u32) << 24)
}

/// The state whose words sixteen bytes hold, each lowest byte first.
pub open spec fn words_of(seed: Seq<u8>) -> State {
    State {
        s0: le_word(seed, 0),
        s1: le_word(seed, 4),
        s2: le_word(seed, 8),
        s3: le_word(seed, 12),
    }
}

/// Whether every byte of `seed` is zero.
pub open spec fn is_blank(seed: Seq<u8>) -> bool {
    forall|i: int| 0 <= i < seed.len() ==> seed[i] == 0
}

/// The sixteen bytes that stand in for sixteen zero bytes.
pub open spec fn fallback_seed() -> Seq<u8> {
    seq![
        0xaf, 0xcd, 0x1d, 0x7b, 0x39, 0xa8, 0x20, 0xe2, 0xf4, 0x65, 0xb9, 0xa1, 0x6a, 0x9e, 0x78,
        0x6e,
    ]
}

/// The state that stands in for the state of all zeros: the state that the
/// fallback seed holds.
pub open spec fn fallback() -> State {
    State { s0: 0x7b1d_cdaf, s1: 0xe220_a839, s2: 0xa1b9_65f4, s3: 0x6e78_9e6a }
}

/// `s`, or the fallback where `s` is all zeros.
pub open spec fn guarded(s: State) -> State {
    if s.is_zero() {
        fallback()
    } else {
        s
    }
}

/// The state that sixteen seed bytes give: the words that they hold, after
/// sixteen zero bytes have been replaced by the fallback seed.
pub open spec fn from_bytes(seed: Seq<u8>) -> State {
    words_of(
        if is_blank(seed) {
            fallback_seed()
        } else {
            seed
        },
    )
}

/// The low 32 bits of `z`.
pub open spec fn low_half(z: u64) -> u32 {
    (z & 0xffff_ffff) as u32
}

/// The high 32 bits of `z`.
pub open spec fn high_half(z: u64) -> u32 {
    (z >> 32) as u32
}

/// The state that a 64-bit seed gives: the first two values that SplitMix64
/// yields from it, each split into its low and its high half, low first.
pub open spec fn expand(seed: u64) -> State {
    let a = output(seed, 1);
    let b = output(seed, 2);
    State { s0: low_half(a), s1: high_half(a), s2: low_half(b), s3: high_half(b) }
}

/// A little-endian word is zero just when its four bytes are.
proof fn lemma_le_word_zero(a: u8, b: u8, c: u8, d: u8)
    by (bit_vector)
    ensures
        ((a as u32) | ((b as u32) << 8) | ((c as u32) << 16) | ((d as u32) << 24)) == 0 <==> (a
            == 0 && b == 0 && c == 0 && d == 0),
{
}

/// The two halves of a 64-bit value fit 32 bits, and are both zero only
/// for zero.
proof fn lemma_halves(z: u64)
    by (bit_vector)
    ensures
        (low_half(z) == 0 && high_half(z) == 0) ==> z == 0,
        z & 0xffff_ffff <= 0xffff_ffff,
        z >> 32 <= 0xffff_ffff,
{
}

/// The fallback seed holds the fallback state.
pub proof fn lemma_fallback_seed()
    ensures
        fallback_seed().len() == 16,
        words_of(fallback_seed()) == fallback(),
        !is_blank(fallback_seed()),
{
    assert(((0xafu8 as u32) | ((0xcdu8 as u32) << 8) | ((0x1du8 as u32) << 16) | ((0x7bu8 as u32)
        << 24)) == 0x7b1d_cdafu32 && ((0x39u8 as u32) | ((0xa8u8 as u32) << 8) | ((0x20u8 as u32)
        << 16) | ((0xe2u8 as u32) << 24)) == 0xe220_a839u32 && ((0xf4u8 as u32) | ((0x65u8 as u32)
        << 8) | ((0xb9u8 as u32) << 16) | ((0xa1u8 as u32) << 24)) == 0xa1b9_65f4u32 && ((
    0x6au8 as u32) | ((0x9eu8 as u32) << 8) | ((0x78u8 as u32) << 16) | ((0x6eu8 as u32) << 24))
        == 0x6e78_9e6au32) by (bit_vector);
    assert(fallback_seed()[0] == 0xaf);
}

/// Sixteen bytes hold the state of all zeros just when they are all zero,
/// so that replacing the seed and replacing the state come to the same.
pub proof fn lemma_blank_seed(seed: Seq<u8>)
    requires
        seed.len() == 16,
    ensures
        words_of(seed).is_zero() <==> is_blank(seed),
        from_bytes(seed) == guarded(words_of(seed)),
{
    lemma_fallback_seed();
    lemma_le_word_zero(seed[0], seed[1], seed[2], seed[3]);
    lemma_le_word_zero(seed[4], seed[5], seed[6], seed[7]);
    lemma_le_word_zero(seed[8], seed[9], seed[10], seed[11]);
    lemma_le_word_zero(seed[12], seed[13], seed[14], seed[15]);
}

/// No sixteen seed bytes give the state of all zeros. Sixteen zero bytes
/// give the fallback, whatever else is known of them: the state that the
/// integer seed 0 gives.
pub proof fn lemma_seed_never_zero(seed: Seq<u8>)
    requires
        seed.len() == 16,
    ensures
        !from_bytes(seed).is_zero(),
        is_blank(seed) ==> from_bytes(seed) == fallback() && from_bytes(seed) == expand(0),
{
    lemma_blank_seed(seed);
    lemma_fallback_is_expand_zero();
}

/// The fallback is the state that the integer seed 0 gives.
pub proof fn lemma_fallback_is_expand_zero()
    ensures
        fallback() == expand(0),
{
    assert(low_half(output(0, 1)) == 0x7b1d_cdafu32 && high_half(output(0, 1)) == 0xe220_a839u32
        && low_half(output(0, 2)) == 0xa1b9_65f4u32 && high_half(output(0, 2)) == 0x6e78_9e6au32)
        by (bit_vector);
}

/// No 64-bit seed gives the state of all zeros.
pub proof fn lemma_expand_not_zero(seed: u64)
    ensures
        !expand(seed).is_zero(),
{
    lemma_outputs_not_both_zero(seed, 1);
    lemma_halves(output(seed, 1));
    lemma_halves(output(seed, 2));
}

/// Reads the four words that sixteen bytes hold, through
/// `rand_core::le::read_u32_into`: word `j` is made of the bytes `4 * j` to
/// `4 * j + 3`, the lowest first. The source has as many bytes as the
/// destination asks for, so the call does not panic.
#[verifier::external_body]
fn read_words(seed: &[u8; 16]) -> (words: [u32; 4])
    ensures
        forall|j: int| 0 <= j < 4 ==> #[trigger] words@[j] == le_word(seed@, 4 * j),
{
    let mut words = [0u32; 4];
    rand_core::le::read_u32_into(seed, &mut words);
    words
}

/// Replaces the state of all zeros by the fallback.
pub fn guard(s: State) -> (r: State)
    ensures
        r == guarded(s),
        !r.is_zero(),
{
    if s.all_zero() {
        State { s0: 0x7b1d_cdaf, s1: 0xe220_a839, s2: 0xa1b9_65f4, s3: 0x6e78_9e6a }
    } else {
        s
    }
}

/// The state that sixteen seed bytes give: their four little-endian words,
/// or the fallback where every byte is zero.
pub fn state_from_seed(seed: &[u8; 16]) -> (s: State)
    ensures
        s == from_bytes(seed@),
        !s.is_zero(),
{
    let words = read_words(seed);
    proof {
        lemma_blank_seed(seed@);
    }
    guard(State { s0: words[0], s1: words[1], s2: words[2], s3: words[3] })
}

/// The state that a 64-bit seed gives.
pub fn state_from_u64(seed: u64) -> (s: State)
    ensures
        s == expand(seed),
        !s.is_zero(),
{
    let (c1, a) = draw(seed);
    let (_, b) = draw(c1);
    proof {
        reveal_with_fuel(crate::splitmix::counter, 3);
        lemma_halves(a);
        lemma_halves(b);
        lemma_expand_not_zero(seed);
    }
    guard(
        State {
            s0: (a & 0xffff_ffff) as u32,
            s1: (a >> 32) as u32,
            s2: (b & 0xffff_ffff) as u32,
            s3: (b >> 32) as u32,
        },
    )
}

} // verus!
