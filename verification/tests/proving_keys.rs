use ark_ec::{AffineCurve, ProjectiveCurve};
use ark_ff::bytes::ToBytes;
use groth16_codec::{
    Bls12_381, DecodeError, ErrorKind, Field, G1Point, G2Point, KeySize, ProvingKey, VerifyingKey,
};

type G1 = G1Point<Bls12_381>;
type G2 = G2Point<Bls12_381>;
type Key = ProvingKey<Bls12_381>;

const G1_WIDTH: usize = 97;
const G2_WIDTH: usize = 193;

fn g1(scalar: u64) -> G1 {
    let point = ark_bls12_381::G1Affine::prime_subgroup_generator().mul(scalar).into_affine();
    let mut bytes = Vec::new();
    point.write(&mut bytes).unwrap();
    G1::from_bytes(&bytes).unwrap()
}

fn g2(scalar: u64) -> G2 {
    let point = ark_bls12_381::G2Affine::prime_subgroup_generator().mul(scalar).into_affine();
    let mut bytes = Vec::new();
    point.write(&mut bytes).unwrap();
    G2::from_bytes(&bytes).unwrap()
}

fn g1s(from: u64, count: usize) -> Vec<G1> {
    (0..count as u64).map(|i| g1(from + i)).collect()
}

fn g2s(from: u64, count: usize) -> Vec<G2> {
    (0..count as u64).map(|i| g2(from + i)).collect()
}

fn key(size: &KeySize) -> Key {
    ProvingKey {
        vk: VerifyingKey {
            alpha_g1: g1(2),
            beta_g2: g2(3),
            gamma_g2: g2(5),
            delta_g2: g2(7),
            gamma_abc_g1: g1s(10, size.vk_len),
        },
        beta_g1: g1(3),
        delta_g1: g1(7),
        a_query: g1s(20, size.a_len),
        b_g1_query: g1s(30, size.b_g1_len),
        b_g2_query: g2s(40, size.b_g2_len),
        h_query: g1s(50, size.h_len),
        l_query: g1s(60, size.l_len),
    }
}

fn sizes(vk_len: usize, a_len: usize, b_g1_len: usize, b_g2_len: usize, h_len: usize, l_len: usize) -> KeySize {
    KeySize { vk_len, a_len, b_g1_len, b_g2_len, h_len, l_len }
}

fn written(key: &Key) -> Vec<u8> {
    let mut bytes = Vec::new();
    key.write(&mut bytes);
    bytes
}

fn error(kind: ErrorKind, field: Field, index: u64) -> DecodeError {
    DecodeError { kind, field, index }
}

#[test]
fn size_gives_the_six_lengths() {
    let size = sizes(3, 4, 2, 5, 1, 6);
    assert_eq!(key(&size).size(), size);
    assert_eq!(key(&sizes(0, 0, 0, 0, 0, 0)).size(), sizes(0, 0, 0, 0, 0, 0));
}

#[test]
fn written_key_has_no_lengths_in_it() {
    let size = sizes(3, 4, 2, 5, 1, 6);
    let bytes = written(&key(&size));
    let g1_points = 1 + 3 + 2 + 4 + 2 + 1 + 6;
    let g2_points = 3 + 5;
    assert_eq!(bytes.len(), g1_points * G1_WIDTH + g2_points * G2_WIDTH);
}

#[test]
fn written_key_is_laid_out_in_order() {
    let size = sizes(1, 2, 1, 1, 0, 1);
    let pk = key(&size);
    let bytes = written(&pk);
    let mut expected = Vec::new();
    pk.vk.write(&mut expected);
    expected.extend_from_slice(pk.beta_g1.as_bytes());
    expected.extend_from_slice(pk.delta_g1.as_bytes());
    expected.extend_from_slice(pk.a_query[0].as_bytes());
    expected.extend_from_slice(pk.a_query[1].as_bytes());
    expected.extend_from_slice(pk.b_g1_query[0].as_bytes());
    expected.extend_from_slice(pk.b_g2_query[0].as_bytes());
    expected.extend_from_slice(pk.l_query[0].as_bytes());
    assert_eq!(bytes, expected);
}

#[test]
fn key_round_trips_under_its_own_size() {
    for size in [sizes(3, 4, 2, 5, 1, 6), sizes(1, 1, 1, 1, 1, 1), sizes(2, 0, 3, 0, 0, 1)] {
        let pk = key(&size);
        let bytes = written(&pk);
        assert_eq!(Key::read(&bytes, &pk.size()), Ok(pk));
    }
}

#[test]
fn key_with_empty_vectors_round_trips() {
    let size = sizes(0, 0, 0, 0, 0, 0);
    let pk = key(&size);
    let bytes = written(&pk);
    assert_eq!(bytes.len(), 3 * G1_WIDTH + 3 * G2_WIDTH);
    assert_eq!(Key::read(&bytes, &size), Ok(pk));
}

#[test]
fn understated_size_is_a_length_mismatch() {
    let size = sizes(3, 4, 2, 5, 1, 6);
    let bytes = written(&key(&size));
    let understated = [
        sizes(2, 4, 2, 5, 1, 6),
        sizes(3, 3, 2, 5, 1, 6),
        sizes(3, 4, 1, 5, 1, 6),
        sizes(3, 4, 2, 4, 1, 6),
        sizes(3, 4, 2, 5, 0, 6),
        sizes(3, 4, 2, 5, 1, 5),
        sizes(0, 0, 0, 0, 0, 0),
    ];
    for wrong in understated {
        assert_eq!(
            Key::read(&bytes, &wrong),
            Err(error(ErrorKind::LengthMismatch, Field::LQuery, wrong.l_len as u64))
        );
    }
}

#[test]
fn overstated_size_is_a_truncated_stream() {
    let size = sizes(3, 4, 2, 5, 1, 6);
    let bytes = written(&key(&size));
    assert_eq!(
        Key::read(&bytes, &sizes(3, 4, 2, 5, 1, 7)),
        Err(error(ErrorKind::TruncatedStream, Field::LQuery, 6))
    );
    assert_eq!(
        Key::read(&bytes, &sizes(4, 4, 2, 5, 1, 6)),
        Err(error(ErrorKind::TruncatedStream, Field::LQuery, 5))
    );
    assert_eq!(
        Key::read(&bytes, &sizes(3, 4, 2, 6, 1, 6)),
        Err(error(ErrorKind::TruncatedStream, Field::LQuery, 4))
    );
    assert_eq!(
        Key::read(&bytes, &sizes(3, 4, 2, 5, 1, usize::MAX)),
        Err(error(ErrorKind::TruncatedStream, Field::LQuery, 6))
    );
    assert_eq!(
        Key::read(&bytes, &sizes(usize::MAX, usize::MAX, 2, 5, 1, 6)),
        Err(error(ErrorKind::TruncatedStream, Field::GammaAbcG1, 27))
    );
}

#[test]
fn shortened_stream_is_truncated() {
    let size = sizes(1, 1, 1, 1, 1, 1);
    let bytes = written(&key(&size));
    assert_eq!(
        Key::read(&bytes[..bytes.len() - 1], &size),
        Err(error(ErrorKind::TruncatedStream, Field::LQuery, 0))
    );
    assert_eq!(
        Key::read(&bytes[..G1_WIDTH + 3 * G2_WIDTH + 3 * G1_WIDTH + 5], &size),
        Err(error(ErrorKind::TruncatedStream, Field::AQuery, 0))
    );
    assert_eq!(Key::read(&[], &size), Err(error(ErrorKind::TruncatedStream, Field::AlphaG1, 0)));
}

#[test]
fn lengthened_stream_is_a_length_mismatch() {
    let size = sizes(1, 2, 1, 1, 1, 3);
    let mut bytes = written(&key(&size));
    bytes.push(0);
    assert_eq!(
        Key::read(&bytes, &size),
        Err(error(ErrorKind::LengthMismatch, Field::LQuery, 3))
    );
}

#[test]
fn rejected_element_of_a_vector_is_a_malformed_point() {
    let size = sizes(2, 3, 2, 2, 2, 2);
    let pk = key(&size);
    let good = written(&pk);
    let a_query = G1_WIDTH + 3 * G2_WIDTH + 2 * G1_WIDTH + 2 * G1_WIDTH;
    let b_g2_query = a_query + 3 * G1_WIDTH + 2 * G1_WIDTH;

    let mut bytes = good.clone();
    bytes[a_query + 2 * G1_WIDTH + 96] = 2;
    assert_eq!(
        Key::read(&bytes, &size),
        Err(error(ErrorKind::MalformedPoint, Field::AQuery, 2))
    );

    let mut bytes = good.clone();
    bytes[b_g2_query + G2_WIDTH + 95] = 0xff;
    assert_eq!(
        Key::read(&bytes, &size),
        Err(error(ErrorKind::MalformedPoint, Field::BG2Query, 1))
    );

    let mut bytes = good.clone();
    let last = bytes.len() - 1;
    bytes[last] = 0xff;
    bytes[b_g2_query + 192] = 0xff;
    assert_eq!(
        Key::read(&bytes, &size),
        Err(error(ErrorKind::MalformedPoint, Field::BG2Query, 0))
    );
}

#[test]
fn changed_byte_that_the_codec_accepts_goes_unnoticed() {
    let size = sizes(1, 1, 1, 1, 1, 1);
    let pk = key(&size);
    let mut bytes = written(&pk);
    let a_query = G1_WIDTH + 3 * G2_WIDTH + G1_WIDTH + 2 * G1_WIDTH;
    bytes[a_query] ^= 1;
    let read = Key::read(&bytes, &size).unwrap();
    assert_ne!(read, pk);
    assert_ne!(read.a_query, pk.a_query);
    assert_eq!(read.b_g1_query, pk.b_g1_query);
    assert_eq!(written(&read), bytes);
}

#[test]
fn lengths_that_make_up_for_each_other_are_not_told_apart() {
    let size = sizes(1, 2, 2, 1, 1, 1);
    let pk = key(&size);
    let bytes = written(&pk);
    let shifted = sizes(1, 1, 3, 1, 1, 1);
    let read = Key::read(&bytes, &shifted).unwrap();
    assert_eq!(read.size(), shifted);
    assert_ne!(read, pk);
    assert_eq!(read.a_query[..], pk.a_query[..1]);
    assert_eq!(read.b_g1_query[0], pk.a_query[1]);
    assert_eq!(written(&read), bytes);
}

#[test]
fn lengths_shifted_across_groups_are_caught() {
    let size = sizes(1, 2, 2, 2, 1, 1);
    let bytes = written(&key(&size));
    assert_eq!(
        Key::read(&bytes, &sizes(1, 2, 3, 1, 1, 1)),
        Err(error(ErrorKind::LengthMismatch, Field::LQuery, 1))
    );
    assert_eq!(
        Key::read(&bytes, &sizes(1, 2, 1, 3, 1, 1)),
        Err(error(ErrorKind::TruncatedStream, Field::LQuery, 0))
    );
}

#[test]
fn embedded_key_reads_alone_from_the_same_stream() {
    let size = sizes(3, 1, 1, 1, 1, 1);
    let pk = key(&size);
    let bytes = written(&pk);
    let vk = VerifyingKey::<Bls12_381>::read(&bytes, size.vk_len).unwrap();
    assert_eq!(vk, pk.vk);
}

#[test]
fn cloned_proving_key_is_equal() {
    let pk = key(&sizes(1, 2, 1, 2, 1, 0));
    assert_eq!(pk.clone(), pk);
}
