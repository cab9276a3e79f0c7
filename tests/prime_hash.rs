use prime_hash::message::{append_be_u64, append_bytes, digest_candidate, digest_word};
use prime_hash::PrimeHasher;

fn is_prime_by_division(n: u64) -> bool {
    if n < 2 {
        return false;
    }
    let mut d: u64 = 2;
    while d * d <= n {
        if n % d == 0 {
            return false;
        }
        d += 1;
    }
    true
}

fn pseudo_random_bytes(seed: u64, len: usize) -> Vec<u8> {
    let mut x = seed.wrapping_mul(0x9E37_79B9_7F4A_7C15).wrapping_add(1);
    let mut out = Vec::with_capacity(len);
    for _ in 0..len {
        x ^= x << 13;
        x ^= x >> 7;
        x ^= x << 17;
        out.push((x >> 24) as u8);
    }
    out
}

fn check_odd_prime_u32(v: u128) {
    assert!(v <= u32::MAX as u128);
    assert_eq!(v % 2, 1);
    assert!(is_prime_by_division(v as u64));
}

#[test]
fn hash_empty_fixture() {
    assert_eq!(PrimeHasher::hash(&[]), Some(2680066787));
}

#[test]
fn hash_known_values() {
    assert_eq!(PrimeHasher::hash(&[0u8]), Some(1603725437));
    assert_eq!(PrimeHasher::hash(b"a"), Some(2315374337));
    assert_eq!(PrimeHasher::hash(b"abc"), Some(3870172469));
    assert_eq!(PrimeHasher::hash(b"hello world"), Some(796954969));
    let all: Vec<u8> = (0..=255u8).collect();
    assert_eq!(PrimeHasher::hash(&all), Some(1361254777));
}

#[test]
fn hash_is_deterministic() {
    for seed in 0..20u64 {
        let data = pseudo_random_bytes(seed, 100);
        let copy = data.clone();
        assert_eq!(PrimeHasher::hash(&data), PrimeHasher::hash(&copy));
    }
    assert_eq!(PrimeHasher::hash(&[]), PrimeHasher::hash(&[]));
}

#[test]
fn hash_empty_and_single_bytes_are_odd_primes() {
    check_odd_prime_u32(PrimeHasher::hash(&[]).unwrap());
    for b in 0..=255u8 {
        check_odd_prime_u32(PrimeHasher::hash(&[b]).unwrap());
    }
}

#[test]
fn hash_large_inputs_are_odd_primes() {
    for seed in 0..10u64 {
        let data = pseudo_random_bytes(seed, 4096 + seed as usize);
        check_odd_prime_u32(PrimeHasher::hash(&data).unwrap());
    }
}

#[test]
fn hashv_equals_hash_of_concatenation() {
    let cases: Vec<(Vec<u8>, Vec<u8>)> = vec![
        (vec![], vec![]),
        (vec![], b"abc".to_vec()),
        (b"abc".to_vec(), vec![]),
        (b"a".to_vec(), b"bc".to_vec()),
        (pseudo_random_bytes(1, 37), pseudo_random_bytes(2, 91)),
    ];
    for (a, b) in cases {
        let mut ab = a.clone();
        ab.extend_from_slice(&b);
        let parts: [&[u8]; 2] = [&a, &b];
        assert_eq!(PrimeHasher::hashv(&parts), PrimeHasher::hash(&ab));
    }
}

#[test]
fn hashv_known_values() {
    let parts: [&[u8]; 3] = [b"hel", b"lo ", b"world"];
    assert_eq!(PrimeHasher::hashv(&parts), Some(796954969));
    assert_eq!(PrimeHasher::hashv(&[]), Some(2680066787));
    let one: [&[u8]; 1] = [b"abc"];
    assert_eq!(PrimeHasher::hashv(&one), Some(3870172469));
}

#[test]
fn hash_changes_when_one_bit_flips() {
    let trials = 300usize;
    let mut differ = 0usize;
    for t in 0..trials {
        let data = pseudo_random_bytes(1000 + t as u64, 256);
        let mut flipped = data.clone();
        let pos = t % data.len();
        flipped[pos] ^= 1u8 << (t % 8);
        if PrimeHasher::hash(&data) != PrimeHasher::hash(&flipped) {
            differ += 1;
        }
    }
    assert!(differ * 100 >= trials * 99);
}

#[test]
fn digest_word_reads_last_four_bytes() {
    assert_eq!(digest_word(&[0u8; 32]), 1);
    let mut d = [0xAAu8; 32];
    d[28] = 0x12;
    d[29] = 0x34;
    d[30] = 0x56;
    d[31] = 0x78;
    assert_eq!(digest_word(&d), 0x1234_5679);
    assert_eq!(digest_word(&[0xFFu8; 32]), 0xFFFF_FFFF);
}

#[test]
fn digest_candidate_uses_sha3_256() {
    // SHA3-256("") ends in 80 f8 43 4a; SHA3-256("abc") ends in 11 43 15 32
    assert_eq!(digest_candidate(&vec![]), 0x80F8_434B);
    assert_eq!(digest_candidate(&b"abc".to_vec()), 0x1143_1533);
}

#[test]
fn append_be_u64_is_big_endian() {
    let mut v = vec![9u8];
    append_be_u64(&mut v, 0x0102_0304_0506_0708);
    assert_eq!(v, vec![9, 1, 2, 3, 4, 5, 6, 7, 8]);
    let mut w = Vec::new();
    append_be_u64(&mut w, 1);
    assert_eq!(w, vec![0, 0, 0, 0, 0, 0, 0, 1]);
}

#[test]
fn append_bytes_keeps_order() {
    let mut v = b"ab".to_vec();
    append_bytes(&mut v, b"cde");
    assert_eq!(v, b"abcde".to_vec());
    append_bytes(&mut v, &[]);
    assert_eq!(v, b"abcde".to_vec());
}
