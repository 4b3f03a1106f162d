use bingo::rng::{hash_seed, shuffle, XorShift64, FNV_OFFSET_BASIS};

#[test]
fn hash_seed_of_empty_string_is_the_offset_basis() {
    assert_eq!(hash_seed(""), FNV_OFFSET_BASIS);
    assert_eq!(hash_seed(""), 14695981039346656037);
}

#[test]
fn hash_seed_is_fnv1a() {
    assert_eq!(hash_seed("a"), 0xaf63dc4c8601ec8c);
    assert_eq!(hash_seed("ABCDE|0123456789abcdef"), 3885716576947219720);
}

#[test]
fn hash_seed_hashes_utf8_bytes() {
    // "é" is two bytes in UTF-8; its hash differs from that of the single byte 0xe9.
    let mut h: u64 = 14695981039346656037;
    for b in [0xc3u8, 0xa9u8] {
        h ^= b as u64;
        h = h.wrapping_mul(1099511628211);
    }
    assert_eq!(hash_seed("é"), h);
}

#[test]
fn xorshift_steps() {
    let mut rng = XorShift64(1);
    assert_eq!(rng.next(), 1082269761);
    assert_eq!(rng.0, 1082269761);
    assert_eq!(rng.next(), 1152992998833853505);
}

#[test]
fn shuffle_matches_fisher_yates() {
    let mut v: Vec<u32> = (0..10).collect();
    let mut rng = XorShift64(1);
    shuffle(&mut v, &mut rng);
    assert_eq!(v, vec![2, 3, 0, 7, 4, 8, 6, 9, 5, 1]);
    // one generator step per position after the first
    assert_eq!(rng.0, 9024654201992055039);
}

#[test]
fn shuffle_is_a_permutation() {
    let mut v: Vec<u32> = (0..100).collect();
    let mut rng = XorShift64(0xdead_beef);
    shuffle(&mut v, &mut rng);
    let mut sorted = v.clone();
    sorted.sort();
    assert_eq!(sorted, (0..100).collect::<Vec<u32>>());
}

#[test]
fn shuffle_of_short_slices_leaves_generator_alone() {
    let mut empty: Vec<u8> = vec![];
    let mut one = vec![7u8];
    let mut rng = XorShift64(42);
    shuffle(&mut empty, &mut rng);
    shuffle(&mut one, &mut rng);
    assert_eq!(rng.0, 42);
    assert_eq!(one, vec![7]);
}

#[test]
fn shuffle_is_deterministic() {
    let mut a: Vec<u32> = (0..30).collect();
    let mut b: Vec<u32> = (0..30).collect();
    shuffle(&mut a, &mut XorShift64(99));
    shuffle(&mut b, &mut XorShift64(99));
    assert_eq!(a, b);
}
