//! The xoshiro128** generator.

use vstd::prelude::*;
use vstd::arithmetic::power2::pow2;
use crate::jump::{apply, jump_poly, jump_state, long_jump_poly, long_jump_state};
use crate::output::{Extractor, byte_of, extract_star_star, fill, next_pair, next_word, star_star};
use crate::seed::{expand, from_bytes, state_from_seed, state_from_u64};
use crate::linear::{lemma_steps_one, lemma_steps_zero_only};
use crate::state::State;

verus! {

/// A xoshiro128** generator.
///
/// Very fast and of excellent statistical quality; not fit for
/// cryptographic use.
#[derive(Debug, PartialEq, Eq, Structural)]
pub struct Xoshiro128StarStar {
    s: State,
}

impl View for Xoshiro128StarStar {
    type V = State;

    closed spec fn view(&self) -> State {
        self.s
    }
}

impl Extractor for Xoshiro128StarStar {
    open spec fn word(s: State) -> u32 {
        star_star(s)
    }

    fn extract(s: &State) -> (w: u32) {
        extract_star_star(s)
    }
}

impl Clone for Xoshiro128StarStar {
    fn clone(&self) -> (r: Self)
        ensures
            r@ == self@,
    {
        proof {
            use_type_invariant(self);
        }
        Xoshiro128StarStar { s: self.s }
    }
}

impl Xoshiro128StarStar {
    /// A generator never holds the state of all zeros.
    #[verifier::type_invariant]
    spec fn inv(self) -> bool {
        !self.s.is_zero()
    }

    /// Creates a generator from sixteen seed bytes: the four little-endian
    /// words that they hold are its state. Sixteen zero bytes are replaced
    /// by the fallback seed, and so give the same generator as the integer
    /// seed 0.
    pub fn from_seed(seed: [u8; 16]) -> (r: Self)
        ensures
            r@ == from_bytes(seed@),
            !r@.is_zero(),
    {
        Xoshiro128StarStar { s: state_from_seed(&seed) }
    }

    /// Creates a generator from a 64-bit seed, spread over the state by
    /// SplitMix64: its first two values, each low half first.
    pub fn seed_from_u64(seed: u64) -> (r: Self)
        ensures
            r@ == expand(seed),
            !r@.is_zero(),
    {
        Xoshiro128StarStar { s: state_from_u64(seed) }
    }

    /// Two generators are equal just when their states are.
    pub proof fn lemma_equal_by_state(self, other: Self)
        ensures
            (self == other) <==> (self@ == other@),
    {
    }

    /// The four words of the state.
    pub fn state(&self) -> (s: State)
        ensures
            s == self@,
            !s.is_zero(),
    {
        proof {
            use_type_invariant(self);
        }
        self.s
    }

    /// Draws the next 32-bit word: the second word of the state times 5,
    /// rotated left by 7, times 9. The state then moves one step on.
    pub fn next_u32(&mut self) -> (w: u32)
        ensures
            w == star_star(old(self)@),
            final(self)@ == old(self)@.step(),
            !final(self)@.is_zero(),
    {
        proof {
            use_type_invariant(&*self);
            lemma_steps_zero_only(self.s, 1);
            lemma_steps_one(self.s);
        }
        let mut s = self.s;
        let w: u32 = next_word::<Xoshiro128StarStar>(&mut s);
        self.s = s;
        w
    }

    /// Draws the next 64 bits: two words, the first drawn in the low half.
    pub fn next_u64(&mut self) -> (v: u64)
        ensures
            v == ((star_star(old(self)@.step()) as u64) << 32) | (star_star(old(self)@) as u64),
            final(self)@ == old(self)@.steps(2),
            !final(self)@.is_zero(),
    {
        proof {
            use_type_invariant(&*self);
            lemma_steps_zero_only(self.s, 2);
        }
        let mut s = self.s;
        let v: u64 = next_pair::<Xoshiro128StarStar>(&mut s);
        self.s = s;
        v
    }

    /// Fills `dest` with the bytes of the words drawn, each word lowest byte
    /// first: byte `i` is byte `i % 4` of the word drawn `i / 4` steps on.
    /// The last word drawn is used in part where the length is no multiple
    /// of four.
    pub fn fill_bytes(&mut self, dest: &mut [u8])
        ensures
            final(dest)@.len() == old(dest)@.len(),
            forall|i: int|
                0 <= i < old(dest)@.len() ==> #[trigger] final(dest)@[i] == byte_of(
                    star_star(old(self)@.steps((i / 4) as nat)),
                    (i % 4) as nat,
                ),
            final(self)@ == old(self)@.steps(((old(dest)@.len() + 3) / 4) as nat),
            !final(self)@.is_zero(),
    {
        proof {
            use_type_invariant(&*self);
            lemma_steps_zero_only(self.s, ((dest@.len() + 3) / 4) as nat);
        }
        let mut s = self.s;
        fill::<Xoshiro128StarStar>(&mut s, dest);
        self.s = s;
    }

    /// Jumps ahead by `2^64` steps, as that many calls of `next_u32` would,
    /// in 128 steps: the jump polynomial is applied to the state.
    ///
    /// Generators cloned from one and jumped a different number of times
    /// start `2^64` steps apart, for streams in parallel computations.
    pub fn jump(&mut self)
        ensures
            final(self)@ == apply(jump_poly(), old(self)@),
            final(self)@ == old(self)@.steps(pow2(64)),
            !final(self)@.is_zero(),
    {
        proof {
            use_type_invariant(&*self);
        }
        let mut s = self.s;
        jump_state(&mut s);
        self.s = s;
    }

    /// Jumps ahead by `2^96` steps, as that many calls of `next_u32` would,
    /// in 128 steps: the long-jump polynomial is applied to the state.
    ///
    /// This gives starting points `2^96` steps apart, from each of which
    /// `jump` gives `2^32` starting points for distributed computations.
    pub fn long_jump(&mut self)
        ensures
            final(self)@ == apply(long_jump_poly(), old(self)@),
            final(self)@ == old(self)@.steps(pow2(96)),
            !final(self)@.is_zero(),
    {
        proof {
            use_type_invariant(&*self);
        }
        let mut s = self.s;
        long_jump_state(&mut s);
        self.s = s;
    }
}

} // verus!
