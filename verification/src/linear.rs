//! States as a vector space over GF(2), on which the transition is linear.

use vstd::prelude::*;
use crate::state::{State, step0, step1, step2, step3};

verus! {

/// The laws of exclusive or on words that the laws on states rest on.
proof fn lemma_word_xor(a: u32, b: u32, c: u32, d: u32)
    by (bit_vector)
    ensures
        (a ^ b) ^ (c ^ d) == (a ^ c) ^ (b ^ d),
        a ^ 0 == a,
        0 ^ a == a,
        a ^ a == 0,
{
}

/// The transition is linear word by word.
proof fn lemma_word_step(a: u32, b: u32, c: u32, d: u32, e: u32, f: u32, g: u32, h: u32)
    by (bit_vector)
    ensures
        step0(a ^ e, b ^ f, c ^ g, d ^ h) == step0(a, b, c, d) ^ step0(e, f, g, h),
        step1(a ^ e, b ^ f, c ^ g, d ^ h) == step1(a, b, c, d) ^ step1(e, f, g, h),
        step2(a ^ e, b ^ f, c ^ g, d ^ h) == step2(a, b, c, d) ^ step2(e, f, g, h),
        step3(a ^ e, b ^ f, c ^ g, d ^ h) == step3(a, b, c, d) ^ step3(e, f, g, h),
        step0(0, 0, 0, 0) == 0,
        step1(0, 0, 0, 0) == 0,
        step2(0, 0, 0, 0) == 0,
        step3(0, 0, 0, 0) == 0,
{
}

/// Zero is neutral for the sum, and every state is its own opposite.
pub proof fn lemma_xor_zero(a: State)
    ensures
        a.xor(State::zero()) == a,
        State::zero().xor(a) == a,
        a.xor(a) == State::zero(),
{
    lemma_word_xor(a.s0, 0, 0, 0);
    lemma_word_xor(a.s1, 0, 0, 0);
    lemma_word_xor(a.s2, 0, 0, 0);
    lemma_word_xor(a.s3, 0, 0, 0);
}

/// Two sums of two terms may exchange their inner terms.
pub proof fn lemma_xor_interchange(a: State, b: State, c: State, d: State)
    ensures
        a.xor(b).xor(c.xor(d)) == a.xor(c).xor(b.xor(d)),
{
    lemma_word_xor(a.s0, b.s0, c.s0, d.s0);
    lemma_word_xor(a.s1, b.s1, c.s1, d.s1);
    lemma_word_xor(a.s2, b.s2, c.s2, d.s2);
    lemma_word_xor(a.s3, b.s3, c.s3, d.s3);
}

/// The transition is linear: it keeps sums, and it keeps zero.
pub proof fn lemma_step_linear(a: State, b: State)
    ensures
        a.xor(b).step() == a.step().xor(b.step()),
        State::zero().step() == State::zero(),
{
    lemma_word_step(a.s0, a.s1, a.s2, a.s3, b.s0, b.s1, b.s2, b.s3);
}

/// Any number of transitions is linear too.
pub proof fn lemma_steps_linear(a: State, b: State, n: nat)
    ensures
        a.xor(b).steps(n) == a.steps(n).xor(b.steps(n)),
        State::zero().steps(n) == State::zero(),
    decreases n,
{
    if n > 0 {
        lemma_steps_linear(a, b, (n - 1) as nat);
        lemma_step_linear(a.steps((n - 1) as nat), b.steps((n - 1) as nat));
    }
}

/// One step is one transition.
pub proof fn lemma_steps_one(s: State)
    ensures
        s.steps(1) == s.step(),
{
    assert(s.steps(0) == s);
}

/// Taking `m` steps and then `n` is taking `m + n`.
pub proof fn lemma_steps_add(s: State, m: nat, n: nat)
    ensures
        s.steps(m).steps(n) == s.steps(m + n),
    decreases n,
{
    if n > 0 {
        lemma_steps_add(s, m, (n - 1) as nat);
    }
}

/// No number of transitions sends a state other than zero to zero.
pub proof fn lemma_steps_zero_only(s: State, n: nat)
    ensures
        s.steps(n).is_zero() <==> s.is_zero(),
    decreases n,
{
    if n > 0 {
        lemma_steps_zero_only(s, (n - 1) as nat);
        crate::state::lemma_step_zero_only(s.steps((n - 1) as nat));
    }
}

} // verus!
