use stark_core::digest::{ByteDigest, DeserializationError, Digest};

#[test]
fn byte_digest_as_bytes() {
    let d = ByteDigest::new([255_u8; 32]);
    assert_eq!([255_u8; 32], d.as_bytes());

    let d = ByteDigest::new([255_u8; 31]);
    let mut expected = [255_u8; 32];
    expected[31] = 0;
    assert_eq!(expected, d.as_bytes());
}

#[test]
fn default_digest_is_all_zeros() {
    let d: ByteDigest<24> = Default::default();
    assert_eq!(d, ByteDigest::new([0_u8; 24]));
    assert_eq!([0_u8; 32], d.as_bytes());
}

#[test]
fn digest_equality() {
    let a = ByteDigest::new([7_u8, 8, 9, 10]);
    let b = ByteDigest::new([7_u8, 8, 9, 10]);
    let c = ByteDigest::new([7_u8, 8, 9, 11]);
    assert_eq!(a, b);
    assert_ne!(a, c);
}

#[test]
fn serialization_round_trip() {
    let d = ByteDigest::new([3_u8, 1, 4, 1, 5, 9, 2, 6]);
    let mut buf: Vec<u8> = Vec::new();
    d.write_into(&mut buf);
    assert_eq!(buf, vec![3_u8, 1, 4, 1, 5, 9, 2, 6]);
    let back: ByteDigest<8> = ByteDigest::read_from(&buf).unwrap();
    assert_eq!(back, d);
}

#[test]
fn deserialization_round_trip_on_exact_buffer() {
    let buf = [9_u8, 8, 7, 6];
    let d: ByteDigest<4> = ByteDigest::read_from(&buf).unwrap();
    let mut again: Vec<u8> = Vec::new();
    d.write_into(&mut again);
    assert_eq!(again.as_slice(), &buf);
}

#[test]
fn deserialization_rejects_short_buffer() {
    let buf = [1_u8, 2, 3];
    let r: Result<ByteDigest<4>, DeserializationError> = ByteDigest::read_from(&buf);
    assert_eq!(r, Err(DeserializationError::WrongByteCount));
}

#[test]
fn bulk_reinterpretation_round_trip() {
    let buf: Vec<u8> = (0_u8..24).collect();
    let digests: Vec<ByteDigest<8>> = ByteDigest::bytes_as_digests(&buf);
    assert_eq!(digests.len(), 3);
    assert_eq!(digests[0], ByteDigest::new([0, 1, 2, 3, 4, 5, 6, 7]));
    let back = ByteDigest::digests_as_bytes(&digests);
    assert_eq!(back, buf);
}

#[test]
fn digests_round_trip_through_bytes() {
    let digests = vec![ByteDigest::new([1_u8, 2, 3, 4]), ByteDigest::new([5_u8, 6, 7, 8])];
    let bytes = ByteDigest::digests_as_bytes(&digests);
    assert_eq!(bytes, vec![1_u8, 2, 3, 4, 5, 6, 7, 8]);
    let back: Vec<ByteDigest<4>> = ByteDigest::bytes_as_digests(&bytes);
    assert_eq!(back, digests);
}

#[test]
fn to_words_little_endian() {
    let d = ByteDigest::new([1_u8, 0, 0, 0, 0, 1, 0, 0]);
    assert_eq!(d.to_words(), vec![1_u32, 256]);
}

#[test]
fn to_hex_renders_words() {
    let d = ByteDigest::new([0x12_u8, 0x34, 0x56, 0x78]);
    assert_eq!(d.to_hex(), "78563412");

    let d = ByteDigest::new([0_u8, 0, 0, 0, 0xff, 0, 0, 0x0a]);
    assert_eq!(d.to_hex(), "000000000a0000ff");
}
