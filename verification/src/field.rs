//! Arithmetic of polynomials over GF(2) modulo the characteristic polynomial
//! of the transition, and what a polynomial therefore does to a state.
//!
//! The transition is a linear map `T` on a space of dimension 128, and its
//! characteristic polynomial annihilates it. A polynomial `p` applied to a
//! state `s` is `p(T) s`, so the product of two polynomials modulo the
//! characteristic one applies as one after the other, and the residue of the
//! `2^k`-th power of the indeterminate takes `2^k` steps at once.

use vstd::prelude::*;
use vstd::arithmetic::power2::{pow2, lemma_pow2_unfold};
use crate::state::State;
use crate::jump::{apply, bit, combine};
use crate::linear::{
    lemma_steps_add,
    lemma_steps_linear,
    lemma_steps_one,
    lemma_xor_interchange,
    lemma_xor_zero,
};

verus! {

/// The characteristic polynomial of the transition, without its leading
/// term, the 128th power.
pub open spec fn modulus_low() -> u128 {
    0x00fc_65a2_0062_54b1_1b48_9db6_de18_fc01u128
}

/// The residue of `a` times the indeterminate.
pub open spec fn times_x(a: u128) -> u128 {
    if bit(a, 127) {
        (a << 1) ^ modulus_low()
    } else {
        a << 1
    }
}

/// After the lowest `n` bits of `b`: the residue of `a` times those bits of
/// `b`, and the residue of `a` times the `n`-th power.
pub open spec fn product(a: u128, b: u128, n: nat) -> (u128, u128)
    decreases n,
{
    if n == 0 {
        (0u128, a)
    } else {
        let prev = product(a, b, (n - 1) as nat);
        (
            if bit(b, (n - 1) as nat) {
                prev.0 ^ prev.1
            } else {
                prev.0
            },
            times_x(prev.1),
        )
    }
}

/// The residue of `a` times `b`.
pub open spec fn times(a: u128, b: u128) -> u128 {
    product(a, b, 128).0
}

/// The residue of the square of `a`.
pub open spec fn square(a: u128) -> u128 {
    times(a, a)
}

/// The residue of the `2^k`-th power of the indeterminate.
pub open spec fn power(k: nat) -> u128
    decreases k,
{
    if k == 0 {
        2u128
    } else {
        square(power((k - 1) as nat))
    }
}

/// The pair of `combine(p, s, n)` and `s.steps(n)`, computed together.
pub open spec fn walk(p: u128, s: State, n: nat) -> (State, State)
    decreases n,
{
    if n == 0 {
        (State::zero(), s)
    } else {
        let prev = walk(p, s, (n - 1) as nat);
        (
            if bit(p, (n - 1) as nat) {
                prev.0.xor(prev.1)
            } else {
                prev.0
            },
            prev.1.step(),
        )
    }
}

/// The state whose word `j` is `x` and whose other words are zero.
spec fn single(j: nat, x: u32) -> State {
    if j == 0 {
        State { s0: x, s1: 0, s2: 0, s3: 0 }
    } else if j == 1 {
        State { s0: 0, s1: x, s2: 0, s3: 0 }
    } else if j == 2 {
        State { s0: 0, s1: 0, s2: x, s3: 0 }
    } else {
        State { s0: 0, s1: 0, s2: 0, s3: x }
    }
}

/// The state whose only set bit is bit `i % 32` of word `i / 32`.
spec fn unit(i: nat) -> State {
    single(i / 32, 1u32 << ((i % 32) as u32))
}

/// Whether the characteristic polynomial annihilates `s`: whether 128 steps
/// from `s` give what the rest of that polynomial gives.
pub open spec fn annihilated(s: State) -> bool {
    apply(modulus_low(), s) == s.steps(128)
}

/// `annihilated`, by one walk and word by word.
spec fn walk_agrees(s: State) -> bool {
    let w = walk(modulus_low(), s, 128);
    w.0.s0 == w.1.s0 && w.0.s1 == w.1.s1 && w.0.s2 == w.1.s2 && w.0.s3 == w.1.s3
}

/// Whether the walks from the first `n` units agree.
spec fn units_agree(n: nat) -> bool
    decreases n,
{
    n == 0 || (units_agree((n - 1) as nat) && walk_agrees(unit((n - 1) as nat)))
}

/// The lowest `k` bits of `x`, for `k` up to 32.
spec fn low_bits(x: u32, k: u32) -> u32 {
    ((x as u64) & (((1u64 << (k as u64)) - 1) as u64)) as u32
}

/// A word is built up from its lowest bits, one bit at a time.
proof fn lemma_word_bits(x: u32, k: u32)
    by (bit_vector)
    requires
        k < 32,
    ensures
        low_bits(x, 0) == 0,
        low_bits(x, 32) == x,
        low_bits(x, (k + 1) as u32) == low_bits(x, k) ^ (x & (1u32 << k)),
        x & (1u32 << k) == 0 || x & (1u32 << k) == 1u32 << k,
        0u32 ^ 0u32 == 0,
        x ^ 0 == x,
        0 ^ x == x,
{
}

/// The bits of a sum, of a polynomial shifted up by one power, and of the
/// constants zero and one.
proof fn lemma_poly_bits(p: u128, q: u128, i: u128)
    by (bit_vector)
    requires
        i < 128,
    ensures
        (((p ^ q) >> i) & 1 == 1) == (((p >> i) & 1 == 1) != ((q >> i) & 1 == 1)),
        ((1u128 >> i) & 1 == 1) == (i == 0),
        ((p << 1) >> 0u128) & 1 != 1,
        i < 127 ==> ((((p << 1) >> ((i + 1) as u128)) & 1 == 1) == ((p >> i) & 1 == 1)),
        1u128 << 1 == 2u128,
        (1u128 >> 127u128) & 1 != 1,
        (0u128 >> i) & 1 != 1,
{
}

/// A walk computes the combination and the stepped state.
pub proof fn lemma_walk(p: u128, s: State, n: nat)
    ensures
        walk(p, s, n) == (combine(p, s, n), s.steps(n)),
    decreases n,
{
    if n > 0 {
        lemma_walk(p, s, (n - 1) as nat);
    }
}

/// Applying a polynomial is linear in the state.
pub proof fn lemma_combine_linear(p: u128, a: State, b: State, n: nat)
    ensures
        combine(p, a.xor(b), n) == combine(p, a, n).xor(combine(p, b, n)),
        combine(p, State::zero(), n) == State::zero(),
    decreases n,
{
    lemma_xor_zero(State::zero());
    if n > 0 {
        let m = (n - 1) as nat;
        lemma_combine_linear(p, a, b, m);
        lemma_steps_linear(a, b, m);
        lemma_xor_interchange(combine(p, a, m), combine(p, b, m), a.steps(m), b.steps(m));
    }
}

/// Applying a polynomial commutes with stepping.
pub proof fn lemma_combine_steps(p: u128, s: State, n: nat, m: nat)
    ensures
        combine(p, s.steps(m), n) == combine(p, s, n).steps(m),
    decreases n,
{
    lemma_steps_linear(State::zero(), State::zero(), m);
    if n > 0 {
        let k = (n - 1) as nat;
        lemma_combine_steps(p, s, k, m);
        lemma_steps_add(s, m, k);
        lemma_steps_add(s, k, m);
        lemma_steps_linear(combine(p, s, k), s.steps(k), m);
    }
}

/// The sum of two polynomials applies as the sum of what each gives.
pub proof fn lemma_combine_sum(p: u128, q: u128, s: State, n: nat)
    requires
        n <= 128,
    ensures
        combine(p ^ q, s, n) == combine(p, s, n).xor(combine(q, s, n)),
    decreases n,
{
    lemma_xor_zero(State::zero());
    if n > 0 {
        let k = (n - 1) as nat;
        lemma_combine_sum(p, q, s, k);
        lemma_poly_bits(p, q, k as u128);
        let x = s.steps(k);
        let (cp, cq) = (combine(p, s, k), combine(q, s, k));
        lemma_xor_zero(x);
        lemma_xor_zero(cp.xor(cq));
        lemma_xor_interchange(cp, cq, x, x);
        lemma_xor_interchange(cp, cq, x, State::zero());
        lemma_xor_interchange(cp, cq, State::zero(), x);
        lemma_xor_zero(cp);
        lemma_xor_zero(cq);
    }
}

/// The zero polynomial gives zero.
pub proof fn lemma_combine_zero(s: State, n: nat)
    requires
        n <= 128,
    ensures
        combine(0, s, n) == State::zero(),
    decreases n,
{
    if n > 0 {
        lemma_combine_zero(s, (n - 1) as nat);
        lemma_poly_bits(0, 0, (n - 1) as u128);
    }
}

/// The constant polynomial one gives the state itself.
pub proof fn lemma_apply_one(s: State)
    ensures
        apply(1, s) == s,
{
    lemma_combine_one(s, 128);
}

/// The constant polynomial one gives the state itself, however many of
/// its bits are looked at.
proof fn lemma_combine_one(s: State, n: nat)
    requires
        1 <= n <= 128,
    ensures
        combine(1, s, n) == s,
    decreases n,
{
    lemma_poly_bits(1, 1, (n - 1) as u128);
    lemma_xor_zero(s);
    if n > 1 {
        lemma_combine_one(s, (n - 1) as nat);
    } else {
        assert(combine(1, s, 0) == State::zero());
    }
}

/// The walks from all 128 units agree: found by evaluating them.
proof fn lemma_units_agree()
    ensures
        units_agree(128),
{
    assert(units_agree(128)) by (bit_vector);
}

/// The characteristic polynomial annihilates each unit whose walk agrees.
proof fn lemma_unit_annihilated(i: nat, n: nat)
    requires
        i < n <= 128,
        units_agree(n),
    ensures
        annihilated(unit(i)),
    decreases n,
{
    if i == n - 1 {
        lemma_walk(modulus_low(), unit(i), 128);
    } else {
        lemma_unit_annihilated(i, (n - 1) as nat);
    }
}

/// What the characteristic polynomial annihilates is closed under sums.
proof fn lemma_annihilated_sum(a: State, b: State)
    requires
        annihilated(a),
        annihilated(b),
    ensures
        annihilated(a.xor(b)),
{
    lemma_combine_linear(modulus_low(), a, b, 128);
    lemma_steps_linear(a, b, 128);
}

/// The characteristic polynomial annihilates zero.
proof fn lemma_annihilated_zero()
    ensures
        annihilated(State::zero()),
{
    lemma_combine_linear(modulus_low(), State::zero(), State::zero(), 128);
    lemma_steps_linear(State::zero(), State::zero(), 128);
}

/// The characteristic polynomial annihilates a state of one word, by
/// induction over the bits of that word: each adds a unit or nothing.
proof fn lemma_single_annihilated(j: nat, x: u32, k: nat)
    requires
        j < 4,
        k <= 32,
    ensures
        annihilated(single(j, low_bits(x, k as u32))),
    decreases k,
{
    lemma_annihilated_zero();
    if k == 0 {
        lemma_word_bits(x, 0);
        assert(single(j, 0) == State::zero());
    } else {
        let h = (k - 1) as u32;
        lemma_single_annihilated(j, x, h as nat);
        lemma_word_bits(x, h);
        let lower = low_bits(x, h);
        let top = x & (1u32 << h);
        assert(low_bits(x, k as u32) == lower ^ top);
        assert(single(j, lower ^ top) == single(j, lower).xor(single(j, top)));
        if top == 0 {
            assert(single(j, top) == State::zero());
        } else {
            let i = 32 * j + h;
            assert(unit(i as nat) == single(j, top));
            lemma_units_agree();
            lemma_unit_annihilated(i as nat, 128);
        }
        lemma_annihilated_sum(single(j, lower), single(j, top));
    }
}

/// The characteristic polynomial annihilates every state: 128 steps give
/// what the rest of the polynomial gives.
pub proof fn lemma_annihilated(s: State)
    ensures
        annihilated(s),
{
    lemma_single_annihilated(0, s.s0, 32);
    lemma_single_annihilated(1, s.s1, 32);
    lemma_single_annihilated(2, s.s2, 32);
    lemma_single_annihilated(3, s.s3, 32);
    lemma_word_bits(s.s0, 0);
    lemma_word_bits(s.s1, 0);
    lemma_word_bits(s.s2, 0);
    lemma_word_bits(s.s3, 0);
    let a = single(0, s.s0);
    let b = single(1, s.s1);
    let c = single(2, s.s2);
    let d = single(3, s.s3);
    lemma_annihilated_sum(a, b);
    lemma_annihilated_sum(c, d);
    lemma_annihilated_sum(a.xor(b), c.xor(d));
    assert(a.xor(b).xor(c.xor(d)) == s);
}

/// Shifting a polynomial up by one power is applying it one step ahead, as
/// long as no bit is shifted out.
proof fn lemma_combine_shifted(a: u128, s: State, n: nat)
    requires
        n <= 127,
    ensures
        combine(a << 1, s, n + 1) == combine(a, s.step(), n),
    decreases n,
{
    lemma_xor_zero(State::zero());
    if n == 0 {
        lemma_poly_bits(a, a, 0);
        assert(combine(a << 1, s, 0) == State::zero());
    } else {
        let k = (n - 1) as nat;
        lemma_combine_shifted(a, s, k);
        lemma_poly_bits(a, a, k as u128);
        lemma_steps_add(s, 1, k);
        lemma_steps_one(s);
    }
}

/// Multiplying a polynomial by the indeterminate adds one step.
pub proof fn lemma_apply_times_x(a: u128, s: State)
    ensures
        apply(times_x(a), s) == apply(a, s).step(),
{
    let stepped = s.step();
    lemma_steps_one(s);
    lemma_combine_steps(a, s, 128, 1);
    lemma_steps_one(combine(a, s, 128));
    // apply(a, s).step() is the combination of `a` from one step ahead
    assert(apply(a, s).step() == combine(a, stepped, 128));
    lemma_combine_shifted(a, s, 127);
    lemma_steps_add(s, 1, 127);
    let low = combine(a << 1, s, 128);
    assert(low == combine(a, stepped, 127));
    if bit(a, 127) {
        assert(combine(a, stepped, 128) == low.xor(s.steps(128)));
        lemma_annihilated(s);
        lemma_combine_sum(a << 1, modulus_low(), s, 128);
    } else {
        assert(combine(a, stepped, 128) == low);
    }
}

/// What a partial product gives: the lowest `n` bits of `b` applied after
/// `a`, and `a` followed by `n` steps.
pub proof fn lemma_apply_product(a: u128, b: u128, s: State, n: nat)
    requires
        n <= 128,
    ensures
        apply(product(a, b, n).0, s) == combine(b, apply(a, s), n),
        apply(product(a, b, n).1, s) == apply(a, s).steps(n),
    decreases n,
{
    if n == 0 {
        lemma_combine_zero(s, 128);
    } else {
        let k = (n - 1) as nat;
        let prev = product(a, b, k);
        lemma_apply_product(a, b, s, k);
        lemma_apply_times_x(prev.1, s);
        lemma_combine_sum(prev.0, prev.1, s, 128);
    }
}

/// The product of two polynomials applies as one after the other.
pub proof fn lemma_apply_times(a: u128, b: u128, s: State)
    ensures
        apply(times(a, b), s) == apply(b, apply(a, s)),
{
    lemma_apply_product(a, b, s, 128);
}

/// The residue of the `2^k`-th power of the indeterminate takes `2^k` steps.
pub proof fn lemma_apply_power(k: nat, s: State)
    ensures
        apply(power(k), s) == s.steps(pow2(k)),
    decreases k,
{
    if k == 0 {
        lemma_poly_bits(1, 1, 0);
        assert(times_x(1) == 2u128);
        lemma_apply_times_x(1, s);
        lemma_apply_one(s);
        vstd::arithmetic::power2::lemma2_to64();
        lemma_steps_one(s);
    } else {
        let h = (k - 1) as nat;
        let p = power(h);
        lemma_apply_times(p, p, s);
        lemma_apply_power(h, s);
        lemma_apply_power(h, s.steps(pow2(h)));
        lemma_steps_add(s, pow2(h), pow2(h));
        lemma_pow2_unfold(k);
    }
}

} // verus!
