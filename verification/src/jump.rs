//! The jump engine: evaluating a polynomial over GF(2) in the transition.
//!
//! A polynomial of degree below 128 is held as a `u128` whose bit `i` is the
//! coefficient of the `i`-th power. Applied to a state it gives the sum, over
//! the powers whose coefficient is set, of the state that many steps ahead.

use vstd::prelude::*;
use vstd::arithmetic::power2::pow2;
use crate::field::{lemma_apply_power, power};
use crate::linear::lemma_steps_zero_only;
use crate::state::State;

verus! {

/// The 128-bit number that four words hold, lowest word first.
pub open spec fn pack4(w0: u32, w1: u32, w2: u32, w3: u32) -> u128 {
    (w0 as u128) | ((w1 as u128) << 32) | ((w2 as u128) << 64) | ((w3 as u128) << 96)
}

/// The 128-bit number that a sequence of four words holds, lowest word
/// first.
pub open spec fn pack(words: Seq<u32>) -> u128 {
    pack4(words[0], words[1], words[2], words[3])
}

/// Whether bit `i` of `p` is set.
pub open spec fn bit(p: u128, i: nat) -> bool {
    (p >> (i as u128)) & 1 == 1
}

/// The sum over GF(2) of the states `i` steps ahead of `s`, over the `i`
/// below `n` at which bit `i` of `p` is set.
pub open spec fn combine(p: u128, s: State, n: nat) -> State
    decreases n,
{
    if n == 0 {
        State::zero()
    } else {
        let rest = combine(p, s, (n - 1) as nat);
        if bit(p, (n - 1) as nat) {
            rest.xor(s.steps((n - 1) as nat))
        } else {
            rest
        }
    }
}

/// The polynomial `p` applied to `s`.
pub open spec fn apply(p: u128, s: State) -> State {
    combine(p, s, 128)
}

/// Where the bits of four words lie in the number that they hold.
proof fn lemma_bits_of_pack4(w0: u32, w1: u32, w2: u32, w3: u32, b: u32)
    by (bit_vector)
    requires
        b < 32,
    ensures
        ((pack4(w0, w1, w2, w3) >> (b as u128)) & 1 == 1) == ((w0 >> b) & 1 == 1),
        ((pack4(w0, w1, w2, w3) >> ((b + 32) as u128)) & 1 == 1) == ((w1 >> b) & 1 == 1),
        ((pack4(w0, w1, w2, w3) >> ((b + 64) as u128)) & 1 == 1) == ((w2 >> b) & 1 == 1),
        ((pack4(w0, w1, w2, w3) >> ((b + 96) as u128)) & 1 == 1) == ((w3 >> b) & 1 == 1),
{
}

/// Bit `b` of the `j`-th of four words is bit `32 * j + b` of the number
/// that they hold.
pub proof fn lemma_bit_of_pack(words: Seq<u32>, j: nat, b: u32)
    requires
        j < 4,
        b < 32,
    ensures
        bit(pack(words), (32 * j + b) as nat) == ((words[j as int] >> b) & 1 == 1),
{
    lemma_bits_of_pack4(words[0], words[1], words[2], words[3], b);
    let i = (32 * j + b) as u128;
    assert(j == 0 ==> i == b as u128);
    assert(j == 1 ==> i == (b + 32) as u128);
    assert(j == 2 ==> i == (b + 64) as u128);
    assert(j == 3 ==> i == (b + 96) as u128);
}

/// Replaces `s` by the polynomial that `poly` holds, applied to `s`.
///
/// The bits are taken word by word in array order, and within a word from
/// the lowest bit up; the state is stepped once per bit, 128 times in all.
pub fn jump_with(s: &mut State, poly: &[u32; 4])
    ensures
        *final(s) == apply(pack(poly@), *old(s)),
{
    let ghost p = pack(poly@);
    let ghost start = *s;
    let mut acc = State { s0: 0, s1: 0, s2: 0, s3: 0 };
    let mut j: usize = 0;
    while j < 4
        invariant
            j <= 4,
            p == pack(poly@),
            acc == combine(p, start, (32 * j) as nat),
            *s == start.steps((32 * j) as nat),
        decreases 4 - j,
    {
        let word: u32 = poly[j];
        let mut b: u32 = 0;
        while b < 32
            invariant
                j < 4,
                b <= 32,
                word == poly@[j as int],
                p == pack(poly@),
                acc == combine(p, start, (32 * j + b) as nat),
                *s == start.steps((32 * j + b) as nat),
            decreases 32 - b,
        {
            proof {
                lemma_bit_of_pack(poly@, j as nat, b);
            }
            if (word >> b) & 1 == 1 {
                acc.absorb(s);
            }
            s.advance();
            b += 1;
        }
        j += 1;
    }
    *s = acc;
}

/// The four words that hold the polynomial of the jump, lowest word first.
pub const JUMP: [u32; 4] = [0x8764_000b, 0xf542_d2d3, 0x6fa0_35c3, 0x77f2_db5b];

/// The four words that hold the polynomial of the long jump.
pub const LONG_JUMP: [u32; 4] = [0xb523_952e, 0x0b6f_099f, 0xccf5_a0ef, 0x1c58_0662];

/// The polynomial of the jump: the residue of the `2^64`-th power of the
/// indeterminate modulo the characteristic polynomial of the transition.
pub open spec fn jump_poly() -> u128 {
    0x77f2_db5b_6fa0_35c3_f542_d2d3_8764_000bu128
}

/// The polynomial of the long jump: the residue of the `2^96`-th power.
pub open spec fn long_jump_poly() -> u128 {
    0x1c58_0662_ccf5_a0ef_0b6f_099f_b523_952eu128
}

/// The two jump polynomials are the residues that they are said to be,
/// and the numbers that the two arrays of words hold.
pub proof fn lemma_jump_polys()
    ensures
        jump_poly() == power(64),
        long_jump_poly() == power(96),
        pack(JUMP@) == jump_poly(),
        pack(LONG_JUMP@) == long_jump_poly(),
{
    assert(JUMP@[0] == 0x8764_000b && JUMP@[1] == 0xf542_d2d3 && JUMP@[2] == 0x6fa0_35c3
        && JUMP@[3] == 0x77f2_db5b);
    assert(LONG_JUMP@[0] == 0xb523_952e && LONG_JUMP@[1] == 0x0b6f_099f && LONG_JUMP@[2]
        == 0xccf5_a0ef && LONG_JUMP@[3] == 0x1c58_0662);
    assert(pack4(0x8764_000b, 0xf542_d2d3, 0x6fa0_35c3, 0x77f2_db5b)
        == 0x77f2_db5b_6fa0_35c3_f542_d2d3_8764_000bu128 && pack4(
        0xb523_952e,
        0x0b6f_099f,
        0xccf5_a0ef,
        0x1c58_0662,
    ) == 0x1c58_0662_ccf5_a0ef_0b6f_099f_b523_952eu128) by (bit_vector);
    assert(power(64) == 0x77f2_db5b_6fa0_35c3_f542_d2d3_8764_000bu128 && power(96)
        == 0x1c58_0662_ccf5_a0ef_0b6f_099f_b523_952eu128) by (bit_vector);
}

/// The jump polynomial takes `2^64` steps, the long one `2^96`.
pub proof fn lemma_jump_distance(s: State)
    ensures
        apply(jump_poly(), s) == s.steps(pow2(64)),
        apply(long_jump_poly(), s) == s.steps(pow2(96)),
{
    lemma_jump_polys();
    lemma_apply_power(64, s);
    lemma_apply_power(96, s);
}

/// Moves `s` on by `2^64` steps, by applying the jump polynomial.
pub fn jump_state(s: &mut State)
    ensures
        *final(s) == apply(jump_poly(), *old(s)),
        *final(s) == old(s).steps(pow2(64)),
        final(s).is_zero() <==> old(s).is_zero(),
{
    proof {
        lemma_jump_polys();
        lemma_jump_distance(*s);
        lemma_steps_zero_only(*s, pow2(64));
    }
    jump_with(s, &JUMP);
}

/// Moves `s` on by `2^96` steps, by applying the long-jump polynomial.
pub fn long_jump_state(s: &mut State)
    ensures
        *final(s) == apply(long_jump_poly(), *old(s)),
        *final(s) == old(s).steps(pow2(96)),
        final(s).is_zero() <==> old(s).is_zero(),
{
    proof {
        lemma_jump_polys();
        lemma_jump_distance(*s);
        lemma_steps_zero_only(*s, pow2(96));
    }
    jump_with(s, &LONG_JUMP);
}

} // verus!
