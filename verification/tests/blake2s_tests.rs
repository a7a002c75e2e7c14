use stark_core::blake2s::{Blake2s_192, Blake2s_256, Blake2sHasher, ElementHasher, Hasher};
use stark_core::digest::ByteDigest;

#[test]
fn hash_padding() {
    let b1 = [1_u8, 2, 3];
    let b2 = [1_u8, 2, 3, 0];

    // adding a zero byte at the end of a byte string should result in a different hash
    let r1 = Blake2s_256::hash(&b1);
    let r2 = Blake2s_256::hash(&b2);
    assert_ne!(r1, r2);
}

#[test]
fn hash_elements_padding() {
    let e1 = vec![2541413064022245539_u64, 7129587402699328827];
    let e2 = vec![e1[0], e1[1], 0];

    // adding a zero element at the end of a list of elements should result in a different hash
    let r1 = Blake2s_256::hash_elements(&e1, false);
    let r2 = Blake2s_256::hash_elements(&e2, false);
    assert_ne!(r1, r2);
}

#[test]
fn hash_elements_with_ser() {
    let b1 = vec![
        2541413064022245539_u64,
        7129587402699328827,
        5589074863266416554,
        8033675306619022710,
    ];

    let r1 = Blake2s_256::hash_elements(&b1, false);
    println!("result:");
    for word in r1.to_words() {
        println!("{:x}", word);
    }
}

#[test]
fn merge_is_hash_of_concatenated_bytes() {
    let d1 = ByteDigest::new([17_u8; 32]);
    let d2 = ByteDigest::new([42_u8; 32]);
    let merged = Blake2s_256::merge(&[d1, d2]);
    let mut concat = [17_u8; 64];
    for i in 32..64 {
        concat[i] = 42;
    }
    assert_eq!(merged, Blake2s_256::hash(&concat));

    let s1 = ByteDigest::new([5_u8; 24]);
    let s2 = ByteDigest::new([6_u8; 24]);
    let merged = Blake2s_192::merge(&[s1, s2]);
    let mut concat = [5_u8; 48];
    for i in 24..48 {
        concat[i] = 6;
    }
    assert_eq!(merged, Blake2s_192::hash(&concat));
}

#[test]
fn merge_with_int_is_hash_of_seed_and_counter() {
    let seed = ByteDigest::new([9_u8; 32]);
    let n: u64 = 0x0102030405060708;
    let merged = Blake2s_256::merge_with_int(seed, n);
    let mut data = [9_u8; 40];
    data[32..].copy_from_slice(&n.to_le_bytes());
    assert_eq!(merged, Blake2s_256::hash(&data));

    let seed = ByteDigest::new([11_u8; 24]);
    let merged = Blake2s_192::merge_with_int(seed, n);
    let mut data = [11_u8; 32];
    data[24..].copy_from_slice(&n.to_le_bytes());
    assert_eq!(merged, Blake2s_192::hash(&data));
}

#[test]
fn blake2s_192_truncates_blake2s_256() {
    let bytes = [201_u8, 7, 255, 3];
    let full = Blake2s_256::hash(&bytes);
    let short = Blake2s_192::hash(&bytes);
    assert_eq!(&full.0[..24], &short.0[..]);

    let e = vec![12345_u64, 67890];
    let full = Blake2s_256::hash_elements(&e, false);
    let short = Blake2s_192::hash_elements(&e, false);
    assert_eq!(&full.0[..24], &short.0[..]);

    let full = Blake2s_256::hash_elements(&e, true);
    let short = Blake2s_192::hash_elements(&e, true);
    assert_eq!(&full.0[..24], &short.0[..]);
}

#[test]
fn streaming_accumulator_matches_one_shot_hash() {
    // one element hashed over the non-canonical path equals the one-shot
    // hash of its 32-byte zero-padded slot
    let e: u64 = 0x1122334455667788;
    let streamed = Blake2s_256::hash_elements(&vec![e], false);
    let mut slot = [0_u8; 32];
    slot[..8].copy_from_slice(&e.to_le_bytes());
    assert_eq!(streamed, Blake2s_256::hash(&slot));

    // the accumulator absorbs byte by byte and slice by slice alike
    let mut h1 = Blake2sHasher::new();
    h1.write_u8(1);
    h1.write_u8(2);
    h1.write_u8(3);
    let mut h2 = Blake2sHasher::new();
    h2.write_u8_slice(&[1, 2, 3]);
    assert_eq!(h1.finalize(), h2.finalize());
    assert_eq!(ByteDigest::new(h1.finalize()), Blake2s_256::hash(&[1, 2, 3]));
}

#[test]
fn canonical_and_padded_paths_differ_for_narrow_elements() {
    // with eight-byte elements the two paths hash different byte streams
    let e = vec![99_u64, 100];
    assert_ne!(
        Blake2s_256::hash_elements(&e, true),
        Blake2s_256::hash_elements(&e, false)
    );
}
