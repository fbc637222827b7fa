//! The state of a generator and the transition that advances it.

use vstd::prelude::*;

verus! {

/// The four 32-bit words that a generator carries: all of its memory.
#[derive(Clone, Copy, Debug, PartialEq, Eq, Structural)]
pub struct State {
    pub s0: u32,
    pub s1: u32,
    pub s2: u32,
    pub s3: u32,
}

/// `x` rotated left by `k` bits, for `0 < k < 32`.
pub open spec fn rotl(x: u32, k: u32) -> u32 {
    (x << k) | (x >> ((32 - k) as u32))
}

/// Word 0 of the state that follows `(a, b, c, d)`.
pub open spec fn step0(a: u32, b: u32, c: u32, d: u32) -> u32 {
    a ^ (d ^ b)
}

/// Word 1 of the state that follows `(a, b, c, d)`.
pub open spec fn step1(a: u32, b: u32, c: u32, d: u32) -> u32 {
    b ^ (c ^ a)
}

/// Word 2 of the state that follows `(a, b, c, d)`.
pub open spec fn step2(a: u32, b: u32, c: u32, d: u32) -> u32 {
    (c ^ a) ^ (b << 9)
}

/// Word 3 of the state that follows `(a, b, c, d)`.
pub open spec fn step3(a: u32, b: u32, c: u32, d: u32) -> u32 {
    rotl(d ^ b, 11)
}

impl State {
    /// The state whose words are all zero: the one fixed point of the
    /// transition, which no generator may hold.
    pub open spec fn zero() -> State {
        State { s0: 0, s1: 0, s2: 0, s3: 0 }
    }

    /// Whether this is the state of all zeros.
    pub open spec fn is_zero(self) -> bool {
        self == State::zero()
    }

    /// The word-by-word exclusive or of two states: addition in the vector
    /// space over GF(2) on which the transition is linear.
    pub open spec fn xor(self, other: State) -> State {
        State {
            s0: self.s0 ^ other.s0,
            s1: self.s1 ^ other.s1,
            s2: self.s2 ^ other.s2,
            s3: self.s3 ^ other.s3,
        }
    }

    /// The transition: the state that follows `self`.
    pub open spec fn step(self) -> State {
        State {
            s0: step0(self.s0, self.s1, self.s2, self.s3),
            s1: step1(self.s0, self.s1, self.s2, self.s3),
            s2: step2(self.s0, self.s1, self.s2, self.s3),
            s3: step3(self.s0, self.s1, self.s2, self.s3),
        }
    }

    /// The state reached from `self` by `n` transitions.
    pub open spec fn steps(self, n: nat) -> State
        decreases n,
    {
        if n == 0 {
            self
        } else {
            self.steps((n - 1) as nat).step()
        }
    }

    /// Whether every word is zero.
    pub fn all_zero(&self) -> (z: bool)
        ensures
            z == self.is_zero(),
    {
        self.s0 == 0 && self.s1 == 0 && self.s2 == 0 && self.s3 == 0
    }

    /// Applies the transition once.
    pub fn advance(&mut self)
        ensures
            *final(self) == old(self).step(),
    {
        let t: u32 = self.s1 << 9;
        self.s2 ^= self.s0;
        self.s3 ^= self.s1;
        self.s1 ^= self.s2;
        self.s0 ^= self.s3;
        self.s2 ^= t;
        self.s3 = (self.s3 << 11) | (self.s3 >> 21);
    }

    /// Adds `other` to `self`, word by word, over GF(2).
    pub fn absorb(&mut self, other: &State)
        ensures
            *final(self) == old(self).xor(*other),
    {
        self.s0 ^= other.s0;
        self.s1 ^= other.s1;
        self.s2 ^= other.s2;
        self.s3 ^= other.s3;
    }
}

/// The transition sends zero to zero, and no other state.
pub proof fn lemma_step_zero_only(s: State)
    ensures
        s.step().is_zero() <==> s.is_zero(),
{
    let (a, b, c, d) = (s.s0, s.s1, s.s2, s.s3);
    assert((step0(a, b, c, d) == 0 && step1(a, b, c, d) == 0 && step2(a, b, c, d) == 0 && step3(
        a,
        b,
        c,
        d,
    ) == 0) <==> (a == 0 && b == 0 && c == 0 && d == 0)) by (bit_vector);
}

/// Zero is the one state that the transition leaves as it is.
pub proof fn lemma_step_fixes_zero_only(s: State)
    ensures
        s.step() == s <==> s.is_zero(),
{
    let (a, b, c, d) = (s.s0, s.s1, s.s2, s.s3);
    assert((step0(a, b, c, d) == a && step1(a, b, c, d) == b && step2(a, b, c, d) == c && step3(
        a,
        b,
        c,
        d,
    ) == d) <==> (a == 0 && b == 0 && c == 0 && d == 0)) by (bit_vector);
}

} // verus!
