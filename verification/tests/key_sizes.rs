use ark_serialize::CanonicalSerialize;
use groth16_codec::length::{read_length, write_length};
use groth16_codec::{DecodeError, ErrorKind, Field, KeySize};

fn sample() -> KeySize {
    KeySize { vk_len: 3, a_len: 0x0102, b_g1_len: 7, b_g2_len: 0, h_len: 1 << 20, l_len: 9 }
}

#[test]
fn size_record_is_six_lengths() {
    let bytes = sample().encode();
    let mut expected = vec![3u8, 0, 0, 0, 0, 0, 0, 0];
    expected.extend_from_slice(&[2, 1, 0, 0, 0, 0, 0, 0]);
    expected.extend_from_slice(&[7, 0, 0, 0, 0, 0, 0, 0]);
    expected.extend_from_slice(&[0, 0, 0, 0, 0, 0, 0, 0]);
    expected.extend_from_slice(&[0, 0, 0x10, 0, 0, 0, 0, 0]);
    expected.extend_from_slice(&[9, 0, 0, 0, 0, 0, 0, 0]);
    assert_eq!(bytes, expected);
}

#[test]
fn size_record_matches_the_canonical_integer_codec() {
    let size = sample();
    let mut expected = Vec::new();
    for length in [size.vk_len, size.a_len, size.b_g1_len, size.b_g2_len, size.h_len, size.l_len] {
        length.serialize(&mut expected).unwrap();
    }
    assert_eq!(size.encode(), expected);
}

#[test]
fn size_record_round_trips() {
    let size = sample();
    assert_eq!(KeySize::decode(&size.encode()), Ok(size));
    let largest = KeySize {
        vk_len: usize::MAX,
        a_len: 0,
        b_g1_len: usize::MAX,
        b_g2_len: 1,
        h_len: usize::MAX - 1,
        l_len: 2,
    };
    assert_eq!(KeySize::decode(&largest.encode()), Ok(largest));
}

#[test]
fn size_record_write_appends_and_decode_leaves_what_follows() {
    let size = sample();
    let mut out = vec![5u8];
    size.write(&mut out);
    out.extend_from_slice(&[1, 2, 3]);
    assert_eq!(out.len(), 1 + 48 + 3);
    assert_eq!(KeySize::decode(&out[1..]), Ok(size));
}

#[test]
fn short_size_record_is_truncated_at_the_length_it_ends_in() {
    let bytes = sample().encode();
    let truncated = |field| DecodeError { kind: ErrorKind::TruncatedStream, field, index: 0 };
    assert_eq!(KeySize::decode(&[]), Err(truncated(Field::VkLen)));
    assert_eq!(KeySize::decode(&bytes[..7]), Err(truncated(Field::VkLen)));
    assert_eq!(KeySize::decode(&bytes[..8]), Err(truncated(Field::ALen)));
    assert_eq!(KeySize::decode(&bytes[..16]), Err(truncated(Field::BG1Len)));
    assert_eq!(KeySize::decode(&bytes[..31]), Err(truncated(Field::BG2Len)));
    assert_eq!(KeySize::decode(&bytes[..32]), Err(truncated(Field::HLen)));
    assert_eq!(KeySize::decode(&bytes[..47]), Err(truncated(Field::LLen)));
}

#[test]
fn lengths_are_little_endian() {
    let mut out = Vec::new();
    write_length(0x0102_0304_0506_0708, &mut out);
    assert_eq!(out, vec![8u8, 7, 6, 5, 4, 3, 2, 1]);
    write_length(1, &mut out);
    assert_eq!(out.len(), 16);
    assert_eq!(read_length(&out, 0), 0x0102_0304_0506_0708);
    assert_eq!(read_length(&out, 8), 1);
    assert_eq!(read_length(&out, 1), 0x0101_0203_0405_0607);
}
