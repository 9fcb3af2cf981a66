use ark_ec::{AffineCurve, ProjectiveCurve};
use ark_ff::bytes::ToBytes;
use groth16_codec::{Bls12_381, DecodeError, ErrorKind, Field, G1Point, G2Point, VerifyingKey};

type G1 = G1Point<Bls12_381>;
type G2 = G2Point<Bls12_381>;
type Key = VerifyingKey<Bls12_381>;

const FIXED: usize = 97 + 3 * 193;

fn g1(scalar: u64) -> G1 {
    let point = ark_bls12_381::G1Affine::prime_subgroup_generator().mul(scalar).into_affine();
    let mut bytes = Vec::new();
    point.write(&mut bytes).unwrap();
    G1::from_bytes(&bytes).unwrap()
}

fn g2(scalar: u64) -> G2 {
    let point = ark_bls12_381::G2Affine::prime_subgroup_generator().mul(scalar).into_affine();
    let mut bytes = Vec::new();
    point.write(&mut bytes).unwrap();
    G2::from_bytes(&bytes).unwrap()
}

fn key(inputs: u64) -> Key {
    VerifyingKey {
        alpha_g1: g1(2),
        beta_g2: g2(3),
        gamma_g2: g2(5),
        delta_g2: g2(7),
        gamma_abc_g1: (0..inputs).map(|i| g1(100 + i)).collect(),
    }
}

fn error(kind: ErrorKind, field: Field, index: u64) -> DecodeError {
    DecodeError { kind, field, index }
}

#[test]
fn key_with_two_public_inputs_has_the_stated_length() {
    let vk = key(3);
    let bytes = vk.encode();
    assert_eq!(bytes.len(), 97 + 3 * 193 + 8 + 3 * 97);
    assert_eq!(Key::decode(&bytes), Ok(vk));
}

#[test]
fn self_describing_key_round_trips() {
    for inputs in [0u64, 1, 2, 5] {
        let vk = key(inputs);
        let bytes = vk.encode();
        assert_eq!(bytes.len() as u64, 97 + 3 * 193 + 8 + inputs * 97);
        assert_eq!(Key::decode(&bytes), Ok(vk));
    }
}

#[test]
fn self_describing_key_is_laid_out_in_order() {
    let vk = key(2);
    let bytes = vk.encode();
    assert_eq!(&bytes[..97], vk.alpha_g1.as_bytes());
    assert_eq!(&bytes[97..290], vk.beta_g2.as_bytes());
    assert_eq!(&bytes[290..483], vk.gamma_g2.as_bytes());
    assert_eq!(&bytes[483..676], vk.delta_g2.as_bytes());
    assert_eq!(&bytes[676..684], &[2u8, 0, 0, 0, 0, 0, 0, 0]);
    assert_eq!(&bytes[684..781], vk.gamma_abc_g1[0].as_bytes());
    assert_eq!(&bytes[781..], vk.gamma_abc_g1[1].as_bytes());
}

#[test]
fn compact_key_has_no_length_field() {
    let vk = key(2);
    let mut compact = Vec::new();
    vk.write(&mut compact);
    let full = vk.encode();
    assert_eq!(compact.len(), FIXED + 2 * 97);
    assert_eq!(&compact[..FIXED], &full[..FIXED]);
    assert_eq!(&compact[FIXED..], &full[FIXED + 8..]);
}

#[test]
fn encode_into_appends() {
    let vk = key(1);
    let mut out = vec![0xaau8];
    vk.encode_into(&mut out);
    assert_eq!(out[0], 0xaa);
    assert_eq!(&out[1..], &vk.encode()[..]);
}

#[test]
fn compact_key_round_trips_under_its_length() {
    for inputs in [0usize, 1, 4] {
        let vk = key(inputs as u64);
        let mut bytes = Vec::new();
        vk.write(&mut bytes);
        assert_eq!(Key::read(&bytes, inputs), Ok(vk));
    }
}

#[test]
fn compact_read_stops_after_the_declared_length() {
    let vk = key(4);
    let mut bytes = Vec::new();
    vk.write(&mut bytes);
    bytes.extend_from_slice(&[0xee; 50]);
    assert_eq!(Key::read(&bytes, 4), Ok(vk.clone()));

    let shorter = Key::read(&bytes, 2).unwrap();
    assert_eq!(shorter.gamma_abc_g1.len(), 2);
    assert_eq!(shorter.gamma_abc_g1[..], vk.gamma_abc_g1[..2]);
    assert_eq!(shorter.alpha_g1, vk.alpha_g1);
}

#[test]
fn compact_read_of_too_many_elements_is_truncated() {
    let vk = key(2);
    let mut bytes = Vec::new();
    vk.write(&mut bytes);
    assert_eq!(
        Key::read(&bytes, 3),
        Err(error(ErrorKind::TruncatedStream, Field::GammaAbcG1, 2))
    );
    assert_eq!(
        Key::read(&bytes, usize::MAX),
        Err(error(ErrorKind::TruncatedStream, Field::GammaAbcG1, 2))
    );
    assert_eq!(
        Key::read(&bytes[..FIXED + 96], 2),
        Err(error(ErrorKind::TruncatedStream, Field::GammaAbcG1, 0))
    );
    assert_eq!(
        Key::read(&bytes[..400], 2),
        Err(error(ErrorKind::TruncatedStream, Field::GammaG2, 0))
    );
}

#[test]
fn compact_read_reports_the_first_malformed_element() {
    let vk = key(3);
    let mut bytes = Vec::new();
    vk.write(&mut bytes);
    bytes[FIXED + 97 + 96] = 3;
    bytes[FIXED + 2 * 97 + 96] = 3;
    assert_eq!(
        Key::read(&bytes, 3),
        Err(error(ErrorKind::MalformedPoint, Field::GammaAbcG1, 1))
    );
    assert_eq!(Key::read(&bytes, 1).map(|k| k.gamma_abc_g1.len()), Ok(1));
    bytes[483 + 192] = 2;
    assert_eq!(
        Key::read(&bytes, 3),
        Err(error(ErrorKind::MalformedPoint, Field::DeltaG2, 0))
    );
}

#[test]
fn decode_is_truncated_within_the_header() {
    let bytes = key(1).encode();
    assert_eq!(
        Key::decode(&bytes[..10]),
        Err(error(ErrorKind::TruncatedStream, Field::AlphaG1, 0))
    );
    assert_eq!(
        Key::decode(&bytes[..FIXED]),
        Err(error(ErrorKind::TruncatedStream, Field::GammaAbcLen, 0))
    );
    assert_eq!(
        Key::decode(&bytes[..FIXED + 7]),
        Err(error(ErrorKind::TruncatedStream, Field::GammaAbcLen, 0))
    );
}

#[test]
fn decode_is_truncated_where_the_declared_elements_are_missing() {
    let mut bytes = key(2).encode();
    assert_eq!(
        Key::decode(&bytes[..FIXED + 8 + 97 + 50]),
        Err(error(ErrorKind::TruncatedStream, Field::GammaAbcG1, 1))
    );
    bytes[FIXED] = 3;
    assert_eq!(
        Key::decode(&bytes),
        Err(error(ErrorKind::TruncatedStream, Field::GammaAbcG1, 2))
    );
    for byte in bytes[FIXED..FIXED + 8].iter_mut() {
        *byte = 0xff;
    }
    assert_eq!(
        Key::decode(&bytes),
        Err(error(ErrorKind::TruncatedStream, Field::GammaAbcG1, 2))
    );
}

#[test]
fn decode_reads_as_many_elements_as_declared() {
    let vk = key(3);
    let mut bytes = vk.encode();
    bytes[FIXED] = 1;
    let decoded = Key::decode(&bytes).unwrap();
    assert_eq!(decoded.gamma_abc_g1[..], vk.gamma_abc_g1[..1]);
    let (again, used) = Key::decode_prefix(&bytes).unwrap();
    assert_eq!(again, decoded);
    assert_eq!(used, FIXED + 8 + 97);
}

#[test]
fn decode_reports_a_malformed_element() {
    let mut bytes = key(2).encode();
    bytes[FIXED + 8 + 97 + 96] = 0x10;
    assert_eq!(
        Key::decode(&bytes),
        Err(error(ErrorKind::MalformedPoint, Field::GammaAbcG1, 1))
    );
    bytes[96] = 0x10;
    assert_eq!(
        Key::decode(&bytes),
        Err(error(ErrorKind::MalformedPoint, Field::AlphaG1, 0))
    );
}

#[test]
fn default_key_is_made_of_identities() {
    let vk = Key::default();
    assert_eq!(vk.alpha_g1, G1::identity());
    assert_eq!(vk.beta_g2, G2::identity());
    assert_eq!(vk.gamma_g2, G2::identity());
    assert_eq!(vk.delta_g2, G2::identity());
    assert!(vk.gamma_abc_g1.is_empty());
    assert_eq!(Key::decode(&vk.encode()), Ok(vk));
}

#[test]
fn cloned_key_is_equal() {
    let vk = key(3);
    assert_eq!(vk.clone(), vk);
    assert_ne!(key(2), vk);
}
