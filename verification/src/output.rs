//! Drawing 32-bit words from a state: the extractors of the family, and the
//! stream of words that a state yields under one of them.

use vstd::prelude::*;
use crate::state::{State, rotl};

verus! {

/// The sum of `x` and `y` in 32 bits, where a carry out of the top is lost.
pub open spec fn add32(x: u32, y: u32) -> u32 {
    ((x + y) % 0x1_0000_0000) as u32
}

/// The product of `x` and `y` in 32 bits, where what exceeds them is lost.
pub open spec fn mul32(x: u32, y: u32) -> u32 {
    ((x * y) % 0x1_0000_0000) as u32
}

/// The "+" output: the sum of the outer two words.
pub open spec fn plus(s: State) -> u32 {
    add32(s.s0, s.s3)
}

/// The "**" output: the second word times 5, rotated left by 7, times 9.
pub open spec fn star_star(s: State) -> u32 {
    mul32(rotl(mul32(s.s1, 5), 7), 9)
}

/// Byte `k` of `w`, counted from the lowest, for `k < 4`.
pub open spec fn byte_of(w: u32, k: nat) -> u8 {
    ((w >> ((8 * k) as u32)) & 0xff) as u8
}

/// A way to draw one 32-bit word from a state. The word is taken from the
/// state as it stands, before the transition that follows the draw.
pub trait Extractor {
    /// The word that the state `s` yields.
    spec fn word(s: State) -> u32;

    /// Computes the word that `s` yields.
    fn extract(s: &State) -> (w: u32)
        ensures
            w == Self::word(*s),
    ;
}

/// The `n`-th word, counted from zero, of the stream that starts at `s`.
pub open spec fn word_at<X: Extractor>(s: State, n: nat) -> u32 {
    X::word(s.steps(n))
}

/// Computes the "+" output of `s`.
pub fn extract_plus(s: &State) -> (w: u32)
    ensures
        w == plus(*s),
{
    s.s0.wrapping_add(s.s3)
}

/// Computes the "**" output of `s`.
pub fn extract_star_star(s: &State) -> (w: u32)
    ensures
        w == star_star(*s),
{
    let t: u32 = s.s1.wrapping_mul(5);
    let r: u32 = (t << 7) | (t >> 25);
    r.wrapping_mul(9)
}

/// Draws the next word: the word that the state yields, after which the
/// state is one step further.
pub fn next_word<X: Extractor>(s: &mut State) -> (w: u32)
    ensures
        w == X::word(*old(s)),
        *final(s) == old(s).step(),
{
    let w: u32 = X::extract(s);
    s.advance();
    w
}

/// Draws two words and packs them into 64 bits, the first drawn in the low
/// half.
pub fn next_pair<X: Extractor>(s: &mut State) -> (v: u64)
    ensures
        v == ((X::word(old(s).step()) as u64) << 32) | (X::word(*old(s)) as u64),
        *final(s) == old(s).steps(2),
{
    proof {
        assert(s.steps(0) == *s);
        assert(s.steps(1) == s.step());
        assert(s.steps(2) == s.step().step());
    }
    let lo: u32 = next_word::<X>(s);
    let hi: u32 = next_word::<X>(s);
    ((hi as u64) << 32) | (lo as u64)
}

/// Fills `dest` with the bytes of the words drawn, each word lowest byte
/// first. A word is drawn for every four bytes and one more for what is
/// left over, of which only the lowest bytes are used.
pub fn fill<X: Extractor>(s: &mut State, dest: &mut [u8])
    ensures
        final(dest)@.len() == old(dest)@.len(),
        forall|i: int|
            0 <= i < old(dest)@.len() ==> #[trigger] final(dest)@[i] == byte_of(
                word_at::<X>(*old(s), (i / 4) as nat),
                (i % 4) as nat,
            ),
        *final(s) == old(s).steps(((old(dest)@.len() + 3) / 4) as nat),
{
    let ghost start = *s;
    let n: usize = dest.len();
    let mut i: usize = 0;
    proof {
        assert(s.steps(0) == *s);
    }
    while i < n
        invariant
            n == dest@.len(),
            n == old(dest)@.len(),
            i <= n,
            i % 4 == 0 || i == n,
            *s == start.steps(((i + 3) / 4) as nat),
            forall|j: int|
                0 <= j < i ==> #[trigger] dest@[j] == byte_of(
                    word_at::<X>(start, (j / 4) as nat),
                    (j % 4) as nat,
                ),
        decreases n - i,
    {
        let ghost q = (i / 4) as nat;
        let w: u32 = next_word::<X>(s);
        let base: usize = i;
        let mut k: u32 = 0;
        while k < 4 && i < n
            invariant
                n == dest@.len(),
                base % 4 == 0,
                base / 4 == q,
                i == base + k,
                k <= 4,
                i <= n,
                w == word_at::<X>(start, q),
                forall|j: int|
                    0 <= j < i ==> #[trigger] dest@[j] == byte_of(
                        word_at::<X>(start, (j / 4) as nat),
                        (j % 4) as nat,
                    ),
            decreases 4 - k,
        {
            assert((w >> (8 * k)) & 0xff <= 0xff) by (bit_vector);
            dest[i] = ((w >> (8 * k)) & 0xff) as u8;
            i += 1;
            k += 1;
        }
    }
}

} // verus!
