use wasm_sandbox::prng::DeterministicPrng;

#[test]
fn deterministic_output() {
    let manifest = b"test-manifest-content";
    let mut prng1 = DeterministicPrng::from_manifest(manifest);
    let mut prng2 = DeterministicPrng::from_manifest(manifest);

    for _ in 0..1000 {
        assert_eq!(prng1.next_u64(), prng2.next_u64());
    }
}

#[test]
fn different_manifest_different_output() {
    let mut prng1 = DeterministicPrng::from_manifest(b"manifest-a");
    let mut prng2 = DeterministicPrng::from_manifest(b"manifest-b");
    assert_ne!(prng1.next_u64(), prng2.next_u64());
}

/// Reference xoshiro256** step on a plain state, for comparison.
fn reference_next(s: &mut [u64; 4]) -> u64 {
    let result = s[1].wrapping_mul(5).rotate_left(7).wrapping_mul(9);
    let t = s[1] << 17;
    s[2] ^= s[0];
    s[3] ^= s[1];
    s[1] ^= s[2];
    s[0] ^= s[3];
    s[2] ^= t;
    s[3] = s[3].rotate_left(45);
    result
}

#[test]
fn from_seed_reads_little_endian_words() {
    let mut seed = [0u8; 32];
    for (i, b) in seed.iter_mut().enumerate() {
        *b = i as u8 + 1;
    }
    let mut prng = DeterministicPrng::from_seed(seed);
    let mut state = [
        u64::from_le_bytes(seed[0..8].try_into().unwrap()),
        u64::from_le_bytes(seed[8..16].try_into().unwrap()),
        u64::from_le_bytes(seed[16..24].try_into().unwrap()),
        u64::from_le_bytes(seed[24..32].try_into().unwrap()),
    ];
    for _ in 0..100 {
        assert_eq!(prng.next_u64(), reference_next(&mut state));
    }
}

#[test]
fn known_first_output() {
    // state (0, 1, 2, 3): output = rotl(1 * 5, 7) * 9 = 640 * 9
    let mut seed = [0u8; 32];
    seed[8] = 1;
    seed[16] = 2;
    seed[24] = 3;
    let mut prng = DeterministicPrng::from_seed(seed);
    assert_eq!(prng.next_u64(), 5760);
}

#[test]
fn fill_bytes_matches_next_u64_words() {
    let mut a = DeterministicPrng::from_manifest(b"fill");
    let mut b = DeterministicPrng::from_manifest(b"fill");
    let mut buf = [0u8; 20];
    a.fill_bytes(&mut buf);
    let w0 = b.next_u64().to_le_bytes();
    let w1 = b.next_u64().to_le_bytes();
    let w2 = b.next_u64().to_le_bytes();
    assert_eq!(&buf[0..8], &w0[..]);
    assert_eq!(&buf[8..16], &w1[..]);
    assert_eq!(&buf[16..20], &w2[0..4]);
    // Three words were consumed: both generators are now in the same state.
    assert_eq!(a.next_u64(), b.next_u64());
}

#[test]
fn fill_bytes_in_word_chunks_equals_one_fill() {
    let mut a = DeterministicPrng::from_manifest(b"chunks");
    let mut b = DeterministicPrng::from_manifest(b"chunks");
    let mut whole = [0u8; 29];
    a.fill_bytes(&mut whole);
    let mut first = [0u8; 16];
    let mut second = [0u8; 13];
    b.fill_bytes(&mut first);
    b.fill_bytes(&mut second);
    assert_eq!(&whole[0..16], &first[..]);
    assert_eq!(&whole[16..29], &second[..]);
}

#[test]
fn fill_empty_buffer_consumes_nothing() {
    let mut a = DeterministicPrng::from_manifest(b"empty");
    let mut b = DeterministicPrng::from_manifest(b"empty");
    let mut buf: [u8; 0] = [];
    a.fill_bytes(&mut buf);
    assert_eq!(a.next_u64(), b.next_u64());
}

#[test]
fn manifest_seed_is_blake3_digest() {
    let digest = *blake3::hash(b"seeded").as_bytes();
    let mut a = DeterministicPrng::from_manifest(b"seeded");
    let mut b = DeterministicPrng::from_seed(digest);
    for _ in 0..10 {
        assert_eq!(a.next_u64(), b.next_u64());
    }
}
