use rand_core::RngCore;
use rand_xoshiro::jump::{jump_state, jump_with, long_jump_state, JUMP, LONG_JUMP};
use rand_xoshiro::output::{
    extract_plus, extract_star_star, fill, next_pair, next_word,
};
use rand_xoshiro::seed::{guard, state_from_seed, state_from_u64};
use rand_xoshiro::splitmix::{draw, GAMMA};
use rand_xoshiro::state::State;
use rand_xoshiro::{Xoshiro128Plus, Xoshiro128StarStar};

fn state(s0: u32, s1: u32, s2: u32, s3: u32) -> State {
    State { s0, s1, s2, s3 }
}

fn stepped(mut s: State, n: usize) -> State {
    for _ in 0..n {
        s.advance();
    }
    s
}

#[test]
fn advance_applies_the_transition() {
    let mut s = state(1, 2, 3, 4);
    s.advance();
    assert_eq!(s, state(7, 0, 1026, 12288));
    s.advance();
    assert_eq!(s, state(12295, 1029, 1029, 25165824));
}

#[test]
fn advance_rotates_the_last_word() {
    // only the last word is set: it is rotated left by 11, and added to the first
    let mut s = state(0, 0, 0, 0x8000_0001);
    s.advance();
    assert_eq!(s, state(0x8000_0001, 0, 0, 0x0000_0c00));
    // the second word is shifted left by 9 into the third, its top bits lost
    let mut s = state(0, 0xffc0_0001, 0, 0);
    s.advance();
    assert_eq!(s, state(0xffc0_0001, 0xffc0_0001, 0x8000_0200, 0x0000_0ffe));
}

#[test]
fn advance_keeps_zero_and_only_zero() {
    let mut z = state(0, 0, 0, 0);
    z.advance();
    assert_eq!(z, state(0, 0, 0, 0));
    assert!(z.all_zero());
    for i in 0..128u32 {
        let mut words = [0u32; 4];
        words[(i / 32) as usize] = 1 << (i % 32);
        let mut s = state(words[0], words[1], words[2], words[3]);
        assert!(!s.all_zero());
        s.advance();
        assert!(!s.all_zero());
    }
}

#[test]
fn advance_is_linear() {
    let a = state(0xdead_beef, 0x0123_4567, 0x89ab_cdef, 0x0f0f_0f0f);
    let b = state(0x1357_9bdf, 0x0246_8ace, 0xffff_0000, 0x8000_0001);
    let mut sum = a;
    sum.absorb(&b);
    assert_eq!(sum, state(0xdead_beef ^ 0x1357_9bdf, 0x0123_4567 ^ 0x0246_8ace, 0x7654_cdef, 0x8f0f_0f0e));
    let mut left = sum;
    left.advance();
    let mut right = stepped(a, 1);
    right.absorb(&stepped(b, 1));
    assert_eq!(left, right);
}

#[test]
fn advance_fixes_zero_only() {
    for i in 0..128u32 {
        let mut words = [0u32; 4];
        words[(i / 32) as usize] = 1 << (i % 32);
        let s = state(words[0], words[1], words[2], words[3]);
        assert_ne!(stepped(s, 1), s);
    }
    assert_ne!(stepped(state(1, 2, 3, 4), 1), state(1, 2, 3, 4));
    assert_eq!(stepped(state(0, 0, 0, 0), 1), state(0, 0, 0, 0));
}

#[test]
fn all_zero_tells_zero_apart() {
    assert!(state(0, 0, 0, 0).all_zero());
    assert!(!state(1, 0, 0, 0).all_zero());
    assert!(!state(0, 1, 0, 0).all_zero());
    assert!(!state(0, 0, 1, 0).all_zero());
    assert!(!state(0, 0, 0, 1).all_zero());
}

#[test]
fn jump_with_single_power_steps_that_often() {
    // bit 5 of the second word is the 37th power
    let mut s = state(1, 2, 3, 4);
    jump_with(&mut s, &[0, 32, 0, 0]);
    assert_eq!(s, state(589712264, 1627924485, 1295314335, 897176877));
    assert_eq!(s, stepped(state(1, 2, 3, 4), 37));
    for k in 0..128usize {
        let mut poly = [0u32; 4];
        poly[k / 32] = 1 << (k % 32);
        let mut s = state(0x9e37_79b9, 0x7f4a_7c15, 0xf39c_c060, 0x5ced_c834);
        jump_with(&mut s, &poly);
        assert_eq!(s, stepped(state(0x9e37_79b9, 0x7f4a_7c15, 0xf39c_c060, 0x5ced_c834), k));
    }
}

#[test]
fn jump_with_zero_polynomial_gives_zero() {
    let mut s = state(1, 2, 3, 4);
    jump_with(&mut s, &[0, 0, 0, 0]);
    assert_eq!(s, state(0, 0, 0, 0));
}

#[test]
fn jump_with_sums_the_powers() {
    // the powers 0, 1 and 33
    let start = state(1, 2, 3, 4);
    let mut s = start;
    jump_with(&mut s, &[3, 2, 0, 0]);
    let mut sum = start;
    sum.absorb(&stepped(start, 1));
    sum.absorb(&stepped(start, 33));
    assert_eq!(s, sum);
}

#[test]
fn characteristic_polynomial_takes_128_steps() {
    let low = [0xde18_fc01, 0x1b48_9db6, 0x0062_54b1, 0x00fc_65a2];
    let mut s = state(1, 2, 3, 4);
    jump_with(&mut s, &low);
    assert_eq!(s, state(40867058, 603748920, 3375649338, 1582863382));
    assert_eq!(s, stepped(state(1, 2, 3, 4), 128));
}

#[test]
fn jump_state_values() {
    let mut s = state(1, 2, 3, 4);
    jump_state(&mut s);
    assert_eq!(s, state(2843103750, 2038079848, 1533207345, 44816753));
    let mut s = state(1, 2, 3, 4);
    long_jump_state(&mut s);
    assert_eq!(s, state(1611968294, 2125834322, 966769569, 3193880526));
    let mut z = state(0, 0, 0, 0);
    jump_state(&mut z);
    assert_eq!(z, state(0, 0, 0, 0));
    long_jump_state(&mut z);
    assert_eq!(z, state(0, 0, 0, 0));
}

#[test]
fn jump_state_is_the_polynomial_of_its_words() {
    let mut a = state(0x0bad_5eed, 7, 0, 0xffff_ffff);
    let mut b = a;
    jump_state(&mut a);
    assert_eq!(JUMP, [0x8764000b, 0xf542d2d3, 0x6fa035c3, 0x77f2db5b]);
    jump_with(&mut b, &JUMP);
    assert_eq!(a, b);
    let mut a = state(0x0bad_5eed, 7, 0, 0xffff_ffff);
    let mut b = a;
    long_jump_state(&mut a);
    assert_eq!(LONG_JUMP, [0xb523952e, 0x0b6f099f, 0xccf5a0ef, 0x1c580662]);
    jump_with(&mut b, &LONG_JUMP);
    assert_eq!(a, b);
}

#[test]
fn two_jumps_are_one_by_the_square() {
    // the square of the jump polynomial, modulo the characteristic one
    let square = [0x9b80_2a8b, 0x7948_05ed, 0x5eb1_70f0, 0x7c0f_7916];
    let mut a = state(1, 2, 3, 4);
    jump_state(&mut a);
    jump_state(&mut a);
    let mut b = state(1, 2, 3, 4);
    jump_with(&mut b, &square);
    assert_eq!(a, b);
    assert_eq!(a, state(1683059163, 42983221, 988985087, 3798436341));
}

#[test]
fn draw_yields_splitmix_values() {
    assert_eq!(GAMMA, 0x9E37_79B9_7F4A_7C15);
    let (c1, a) = draw(0);
    assert_eq!(c1, 11400714819323198485);
    assert_eq!(a, 16294208416658607535);
    assert_eq!(a, 0xe220_a839_7b1d_cdaf);
    let (c2, b) = draw(c1);
    assert_eq!(c2, 4354685564936845354);
    assert_eq!(b, 7960286522194355700);
    assert_eq!(b, 0x6e78_9e6a_a1b9_65f4);
}

#[test]
fn guard_replaces_zero_only() {
    assert_eq!(guard(state(0, 0, 0, 0)), state(0x7b1dcdaf, 0xe220a839, 0xa1b965f4, 0x6e789e6a));
    assert_eq!(guard(state(0, 0, 0, 1)), state(0, 0, 0, 1));
    assert_eq!(guard(state(9, 8, 7, 6)), state(9, 8, 7, 6));
}

#[test]
fn state_from_seed_values() {
    let seed = [0x78, 0x56, 0x34, 0x12, 0, 0, 0, 0x80, 0xff, 0, 0, 0, 0, 0xff, 0, 0];
    assert_eq!(state_from_seed(&seed), state(0x1234_5678, 0x8000_0000, 0xff, 0xff00));
    assert_eq!(
        state_from_seed(&[0; 16]),
        state(0x7b1dcdaf, 0xe220a839, 0xa1b965f4, 0x6e789e6a)
    );
    for i in 0..16 {
        let mut seed = [0u8; 16];
        seed[i] = 1;
        let mut words = [0u32; 4];
        words[i / 4] = 1 << (8 * (i % 4));
        assert_eq!(state_from_seed(&seed), state(words[0], words[1], words[2], words[3]));
    }
}

#[test]
fn state_from_u64_values() {
    assert_eq!(state_from_u64(0), state(2065550767, 3793791033, 2713282036, 1853398634));
    assert_eq!(state_from_u64(0), state_from_seed(&[0; 16]));
    assert_eq!(state_from_u64(1), state(2298633409, 2433363436, 1703865447, 3203108257));
    assert_eq!(state_from_u64(u64::MAX), state(459615264, 3839455607, 3690365641, 3919575143));
}

#[test]
fn extractors_values() {
    assert_eq!(extract_plus(&state(1, 2, 3, 4)), 5);
    assert_eq!(extract_plus(&state(0xffff_ffff, 0, 0, 2)), 1);
    assert_eq!(extract_star_star(&state(1, 2, 3, 4)), 11520);
    assert_eq!(extract_star_star(&state(0, 0xffff_ffff, 0, 0)), 0xffff_edf7);
    assert_eq!(extract_star_star(&state(5, 0, 5, 5)), 0);
}

#[test]
fn next_word_draws_then_steps() {
    let mut s = state(1, 2, 3, 4);
    assert_eq!(next_word::<Xoshiro128Plus>(&mut s), 5);
    assert_eq!(s, state(7, 0, 1026, 12288));
    let mut s = state(1, 2, 3, 4);
    assert_eq!(next_word::<Xoshiro128StarStar>(&mut s), 11520);
    assert_eq!(s, state(7, 0, 1026, 12288));
}

#[test]
fn next_pair_values() {
    let mut s = state(1, 2, 3, 4);
    assert_eq!(next_pair::<Xoshiro128Plus>(&mut s), (12295u64 << 32) | 5);
    assert_eq!(s, stepped(state(1, 2, 3, 4), 2));
    let mut s = state(1, 2, 3, 4);
    assert_eq!(next_pair::<Xoshiro128StarStar>(&mut s), 11520);
    assert_eq!(s, stepped(state(1, 2, 3, 4), 2));
}

#[test]
fn fill_values() {
    let mut s = state(1, 2, 3, 4);
    let mut buf = [0u8; 7];
    fill::<Xoshiro128Plus>(&mut s, &mut buf);
    assert_eq!(buf, [5, 0, 0, 0, 7, 48, 0]);
    assert_eq!(s, stepped(state(1, 2, 3, 4), 2));
    let mut s = state(1, 2, 3, 4);
    let mut buf = [0u8; 9];
    fill::<Xoshiro128StarStar>(&mut s, &mut buf);
    assert_eq!(buf, [0, 45, 0, 0, 0, 0, 0, 0, 128]);
    assert_eq!(s, stepped(state(1, 2, 3, 4), 3));
    let mut empty: [u8; 0] = [];
    fill::<Xoshiro128Plus>(&mut s, &mut empty);
    assert_eq!(s, stepped(state(1, 2, 3, 4), 3));
}

struct ViaNextU32(Xoshiro128StarStar);

impl RngCore for ViaNextU32 {
    fn next_u32(&mut self) -> u32 {
        self.0.next_u32()
    }

    fn next_u64(&mut self) -> u64 {
        rand_core::impls::next_u64_via_u32(self)
    }

    fn fill_bytes(&mut self, dest: &mut [u8]) {
        rand_core::impls::fill_bytes_via_next(self, dest)
    }
}

#[test]
fn wide_outputs_agree_with_rand_core() {
    for len in 0..40usize {
        let mut ours = Xoshiro128StarStar::seed_from_u64(len as u64);
        let mut theirs = ViaNextU32(ours.clone());
        assert_eq!(ours.next_u64(), theirs.next_u64());
        let mut a = vec![0u8; len];
        let mut b = vec![0xffu8; len];
        ours.fill_bytes(&mut a);
        theirs.fill_bytes(&mut b);
        assert_eq!(a, b);
        assert_eq!(ours, theirs.0);
        assert_eq!(ours.next_u32(), theirs.next_u32());
    }
}
