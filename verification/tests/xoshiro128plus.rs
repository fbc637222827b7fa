use rand_xoshiro::Xoshiro128Plus;

const SEED: [u8; 16] = [1, 0, 0, 0, 2, 0, 0, 0, 3, 0, 0, 0, 4, 0, 0, 0];

#[test]
fn xoshiro128plus_reference() {
    let mut rng = Xoshiro128Plus::from_seed([1, 0, 0, 0, 2, 0, 0, 0, 3, 0, 0, 0, 4, 0, 0, 0]);
    // The values that xoshiro128plus.c by Blackman and Vigna yields.
    let expected = [
        5, 12295, 25178119, 27286542, 39879690, 1140358681, 3276312097, 4110231701, 399823256,
        2144435200,
    ];
    for &e in &expected {
        assert_eq!(rng.next_u32(), e);
    }
}

#[test]
fn xoshiro128plus_test_jump() {
    let mut rng = Xoshiro128Plus::from_seed([1, 0, 0, 0, 2, 0, 0, 0, 3, 0, 0, 0, 4, 0, 0, 0]);
    rng.jump();
    // The state that the C code by Blackman and Vigna reaches.
    assert_eq!(rng.state().s0, 2843103750);
    assert_eq!(rng.state().s1, 2038079848);
    assert_eq!(rng.state().s2, 1533207345);
    assert_eq!(rng.state().s3, 44816753);
}

#[test]
fn xoshiro128plus_test_long_jump() {
    let mut rng = Xoshiro128Plus::from_seed([1, 0, 0, 0, 2, 0, 0, 0, 3, 0, 0, 0, 4, 0, 0, 0]);
    rng.long_jump();
    // The state that the C code by Blackman and Vigna reaches.
    assert_eq!(rng.state().s0, 1611968294);
    assert_eq!(rng.state().s1, 2125834322);
    assert_eq!(rng.state().s2, 966769569);
    assert_eq!(rng.state().s3, 3193880526);
}

#[test]
fn plus_from_seed_reads_little_endian_words() {
    let rng = Xoshiro128Plus::from_seed([
        0x01, 0x02, 0x03, 0x04, 0x05, 0x06, 0x07, 0x08, 0x09, 0x0a, 0x0b, 0x0c, 0x0d, 0x0e, 0x0f,
        0x10,
    ]);
    let s = rng.state();
    assert_eq!([s.s0, s.s1, s.s2, s.s3], [0x04030201, 0x08070605, 0x0c0b0a09, 0x100f0e0d]);
}

#[test]
fn plus_zero_seed_is_replaced() {
    let a = Xoshiro128Plus::from_seed([0; 16]);
    let b = Xoshiro128Plus::from_seed([0; 16]);
    let s = a.state();
    assert_ne!([s.s0, s.s1, s.s2, s.s3], [0, 0, 0, 0]);
    assert_eq!([s.s0, s.s1, s.s2, s.s3], [0x7b1dcdaf, 0xe220a839, 0xa1b965f4, 0x6e789e6a]);
    assert_eq!(a, b);
    assert_eq!(a, Xoshiro128Plus::seed_from_u64(0));
    assert_eq!(
        a,
        Xoshiro128Plus::from_seed([
            0xaf, 0xcd, 0x1d, 0x7b, 0x39, 0xa8, 0x20, 0xe2, 0xf4, 0x65, 0xb9, 0xa1, 0x6a, 0x9e,
            0x78, 0x6e,
        ])
    );
}

#[test]
fn plus_nearly_zero_seed_is_kept() {
    let mut seed = [0u8; 16];
    seed[15] = 0x80;
    let s = Xoshiro128Plus::from_seed(seed).state();
    assert_eq!([s.s0, s.s1, s.s2, s.s3], [0, 0, 0, 0x8000_0000]);
}

#[test]
fn plus_seed_from_u64_values() {
    let cases: [(u64, [u32; 4]); 5] = [
        (0, [2065550767, 3793791033, 2713282036, 1853398634]),
        (1, [2298633409, 2433363436, 1703865447, 3203108257]),
        (42, [803958421, 3184996902, 2993090819, 686809907]),
        (u64::MAX, [459615264, 3839455607, 3690365641, 3919575143]),
        (0x0123_4567_89ab_cdef, [2760878749, 360331271, 883019923, 3581104795]),
    ];
    for (seed, words) in cases {
        let s = Xoshiro128Plus::seed_from_u64(seed).state();
        assert_eq!([s.s0, s.s1, s.s2, s.s3], words);
        assert_eq!(Xoshiro128Plus::seed_from_u64(seed), Xoshiro128Plus::seed_from_u64(seed));
    }
}

#[test]
fn plus_first_words_after_integer_seed() {
    let mut rng = Xoshiro128Plus::seed_from_u64(0);
    assert_eq!(rng.next_u32(), 3918949401);
    assert_eq!(rng.next_u32(), 3103299678);
    assert_eq!(rng.next_u32(), 3277025221);
}

#[test]
fn plus_next_u32_steps_the_state() {
    let mut rng = Xoshiro128Plus::from_seed(SEED);
    assert_eq!(rng.next_u32(), 5);
    let s = rng.state();
    assert_eq!([s.s0, s.s1, s.s2, s.s3], [7, 0, 1026, 12288]);
    assert_eq!(rng.next_u32(), 12295);
    let s = rng.state();
    assert_eq!([s.s0, s.s1, s.s2, s.s3], [12295, 1029, 1029, 25165824]);
}

#[test]
fn plus_output_wraps() {
    let mut seed = [0xffu8; 16];
    seed[0] = 2;
    seed[1] = 0;
    seed[2] = 0;
    seed[3] = 0;
    // words 2 and 0xffff_ffff: the sum is 1 in 32 bits
    let mut rng = Xoshiro128Plus::from_seed(seed);
    assert_eq!(rng.next_u32(), 1);
}

#[test]
fn plus_next_u64_packs_low_word_first() {
    let mut rng = Xoshiro128Plus::from_seed(SEED);
    assert_eq!(rng.next_u64(), (12295u64 << 32) | 5);
    assert_eq!(rng.next_u64(), (27286542u64 << 32) | 25178119);
    let mut other = Xoshiro128Plus::from_seed(SEED);
    for _ in 0..4 {
        other.next_u32();
    }
    assert_eq!(rng, other);
}

#[test]
fn plus_fill_bytes_writes_little_endian_words() {
    let all: [u8; 16] = [5, 0, 0, 0, 7, 48, 0, 0, 7, 48, 128, 1, 14, 92, 160, 1];
    for len in 0..=16usize {
        let mut rng = Xoshiro128Plus::from_seed(SEED);
        let mut buf = vec![0xeeu8; len];
        rng.fill_bytes(&mut buf);
        assert_eq!(&buf[..], &all[..len]);
        let mut other = Xoshiro128Plus::from_seed(SEED);
        for _ in 0..(len + 3) / 4 {
            other.next_u32();
        }
        assert_eq!(rng, other);
    }
}

#[test]
fn plus_clone_and_equality() {
    let mut a = Xoshiro128Plus::from_seed(SEED);
    let b = a.clone();
    assert_eq!(a, b);
    assert_eq!(a.state(), b.state());
    a.next_u32();
    assert_ne!(a, b);
    let mut c = b.clone();
    c.next_u32();
    assert_eq!(a, c);
}

#[test]
fn plus_jump_twice() {
    let mut a = Xoshiro128Plus::from_seed(SEED);
    a.jump();
    a.jump();
    let s = a.state();
    assert_eq!([s.s0, s.s1, s.s2, s.s3], [1683059163, 42983221, 988985087, 3798436341]);
    let mut b = Xoshiro128Plus::from_seed(SEED);
    b.jump();
    b.jump();
    assert_eq!(a, b);
}

#[test]
fn plus_jumps_commute() {
    let mut a = Xoshiro128Plus::from_seed(SEED);
    a.jump();
    a.long_jump();
    let mut b = Xoshiro128Plus::from_seed(SEED);
    b.long_jump();
    b.jump();
    assert_eq!(a, b);
    let s = a.state();
    assert_eq!([s.s0, s.s1, s.s2, s.s3], [2698987415, 1409188916, 767523287, 4274197194]);
}

#[test]
fn plus_jump_commutes_with_drawing() {
    let mut a = Xoshiro128Plus::from_seed(SEED);
    a.jump();
    for _ in 0..37 {
        a.next_u32();
    }
    let mut b = Xoshiro128Plus::from_seed(SEED);
    for _ in 0..37 {
        b.next_u32();
    }
    b.jump();
    assert_eq!(a, b);
}

#[test]
fn plus_state_never_zero() {
    let mut rng = Xoshiro128Plus::from_seed([0; 16]);
    for i in 0..2000 {
        if i % 500 == 0 {
            rng.jump();
        }
        if i % 700 == 0 {
            rng.long_jump();
        }
        rng.next_u32();
        let s = rng.state();
        assert_ne!([s.s0, s.s1, s.s2, s.s3], [0, 0, 0, 0]);
    }
}
