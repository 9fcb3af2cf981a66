use ark_ec::{AffineCurve, PairingEngine, ProjectiveCurve};
use ark_ff::bytes::ToBytes;
use groth16_codec::{
    Bls12_381, DecodeError, Engine, ErrorKind, Field, G1Point, G2Point, PreparedVerifyingKey,
    VerifyingKey,
};

type G1 = G1Point<Bls12_381>;
type G2 = G2Point<Bls12_381>;
type Key = VerifyingKey<Bls12_381>;
type Prepared = PreparedVerifyingKey<Bls12_381>;
type Ark = ark_bls12_381::Bls12_381;

fn ark_g1(scalar: u64) -> ark_bls12_381::G1Affine {
    ark_bls12_381::G1Affine::prime_subgroup_generator().mul(scalar).into_affine()
}

fn ark_g2(scalar: u64) -> ark_bls12_381::G2Affine {
    ark_bls12_381::G2Affine::prime_subgroup_generator().mul(scalar).into_affine()
}

fn bytes_of<T: ToBytes>(value: &T) -> Vec<u8> {
    let mut bytes = Vec::new();
    value.write(&mut bytes).unwrap();
    bytes
}

fn g1(scalar: u64) -> G1 {
    G1::from_bytes(&bytes_of(&ark_g1(scalar))).unwrap()
}

fn g2(scalar: u64) -> G2 {
    G2::from_bytes(&bytes_of(&ark_g2(scalar))).unwrap()
}

fn key(inputs: u64) -> Key {
    VerifyingKey {
        alpha_g1: g1(2),
        beta_g2: g2(3),
        gamma_g2: g2(5),
        delta_g2: g2(7),
        gamma_abc_g1: (0..inputs).map(|i| g1(100 + i)).collect(),
    }
}

fn error(kind: ErrorKind, field: Field) -> DecodeError {
    DecodeError { kind, field, index: 0 }
}

#[test]
fn prepared_key_holds_the_pairing_of_alpha_and_beta() {
    let prepared = Prepared::prepare(key(2)).unwrap();
    let expected = bytes_of(&Ark::pairing(ark_g1(2), ark_g2(3)));
    assert_eq!(expected.len(), 576);
    assert_eq!(prepared.alpha_g1_beta_g2(), &expected[..]);
}

#[test]
fn prepared_key_holds_the_prepared_negations() {
    let prepared = Prepared::prepare(key(2)).unwrap();
    let gamma: <Ark as PairingEngine>::G2Prepared = (-ark_g2(5)).into();
    let delta: <Ark as PairingEngine>::G2Prepared = (-ark_g2(7)).into();
    assert_eq!(prepared.gamma_g2_neg_pc(), &bytes_of(&gamma)[..]);
    assert_eq!(prepared.delta_g2_neg_pc(), &bytes_of(&delta)[..]);
    assert_ne!(prepared.gamma_g2_neg_pc(), prepared.delta_g2_neg_pc());
    let unnegated: <Ark as PairingEngine>::G2Prepared = ark_g2(5).into();
    assert_ne!(prepared.gamma_g2_neg_pc(), &bytes_of(&unnegated)[..]);
}

#[test]
fn engine_pairs_and_prepares_encoded_points() {
    let paired = <Bls12_381 as Engine>::pair(g1(4).as_bytes(), g2(6).as_bytes()).unwrap();
    assert_eq!(paired, bytes_of(&Ark::pairing(ark_g1(4), ark_g2(6))));
    let same = <Bls12_381 as Engine>::pair(g1(24).as_bytes(), g2(1).as_bytes()).unwrap();
    assert_eq!(paired, same);
    let prepared = <Bls12_381 as Engine>::negate_and_prepare(g2(6).as_bytes());
    let expected: <Ark as PairingEngine>::G2Prepared = (-ark_g2(6)).into();
    assert_eq!(prepared, bytes_of(&expected));
    assert_eq!(<Bls12_381 as Engine>::g1_len(), 97);
    assert_eq!(<Bls12_381 as Engine>::g2_len(), 193);
}

#[test]
fn pairing_with_the_identity_is_one() {
    let paired =
        <Bls12_381 as Engine>::pair(G1::identity().as_bytes(), g2(6).as_bytes()).unwrap();
    let mut one = vec![0u8; 576];
    one[0] = 1;
    assert_eq!(paired, one);
}

#[test]
fn verifying_key_of_a_prepared_key_is_the_key_it_came_from() {
    let vk = key(3);
    let prepared = Prepared::prepare(vk.clone()).unwrap();
    assert_eq!(prepared.vk(), &vk);
    assert_eq!(VerifyingKey::from(prepared), vk);
}

#[test]
fn preparing_again_gives_the_same_prepared_key() {
    let prepared = Prepared::prepare(key(3)).unwrap();
    let again = Prepared::prepare(prepared.vk().clone()).unwrap();
    assert_eq!(again, prepared);
}

#[test]
fn prepared_key_is_the_key_then_the_derived_elements() {
    let vk = key(2);
    let prepared = Prepared::prepare(vk.clone()).unwrap();
    let bytes = prepared.encode();
    let mut expected = vk.encode();
    expected.extend_from_slice(prepared.alpha_g1_beta_g2());
    expected.extend_from_slice(prepared.gamma_g2_neg_pc());
    expected.extend_from_slice(prepared.delta_g2_neg_pc());
    assert_eq!(bytes, expected);
    let mut out = vec![1u8, 2];
    prepared.write(&mut out);
    assert_eq!(&out[2..], &bytes[..]);
}

#[test]
fn prepared_key_round_trips() {
    for inputs in [0u64, 1, 3] {
        let prepared = Prepared::prepare(key(inputs)).unwrap();
        let mut bytes = prepared.encode();
        assert_eq!(Prepared::decode(&bytes), Ok(Prepared::prepare(key(inputs)).unwrap()));
        bytes.extend_from_slice(&[7; 9]);
        assert_eq!(Prepared::decode(&bytes), Ok(prepared));
    }
}

#[test]
fn prepared_key_of_the_default_key_round_trips() {
    let prepared = Prepared::prepare(Key::default()).unwrap();
    assert_eq!(prepared.gamma_g2_neg_pc(), &[1u8][..]);
    assert_eq!(prepared.delta_g2_neg_pc(), &[1u8][..]);
    let bytes = prepared.encode();
    assert_eq!(bytes.len(), 97 + 3 * 193 + 8 + 576 + 2);
    assert_eq!(Prepared::decode(&bytes), Ok(prepared));
}

#[test]
fn prepared_key_with_other_derived_elements_is_malformed() {
    let prepared = Prepared::prepare(key(1)).unwrap();
    let good = prepared.encode();
    let vk_len = key(1).encode().len();
    let pairing = prepared.alpha_g1_beta_g2().len();
    let gamma = prepared.gamma_g2_neg_pc().len();

    let mut bytes = good.clone();
    bytes[vk_len + 10] ^= 1;
    assert_eq!(
        Prepared::decode(&bytes),
        Err(error(ErrorKind::MalformedPoint, Field::AlphaG1BetaG2))
    );

    let mut bytes = good.clone();
    bytes[vk_len + pairing] ^= 1;
    let last = bytes.len() - 1;
    bytes[last] ^= 1;
    assert_eq!(
        Prepared::decode(&bytes),
        Err(error(ErrorKind::MalformedPoint, Field::GammaG2NegPc))
    );

    let mut bytes = good.clone();
    bytes[vk_len + pairing + gamma + 3] ^= 0x40;
    assert_eq!(
        Prepared::decode(&bytes),
        Err(error(ErrorKind::MalformedPoint, Field::DeltaG2NegPc))
    );
}

#[test]
fn prepared_key_of_another_key_is_malformed() {
    let prepared = Prepared::prepare(key(1)).unwrap();
    let mut bytes = prepared.encode();
    let other = g2(9);
    bytes[97..290].copy_from_slice(other.as_bytes());
    assert_eq!(
        Prepared::decode(&bytes),
        Err(error(ErrorKind::MalformedPoint, Field::AlphaG1BetaG2))
    );
}

#[test]
fn short_prepared_key_is_truncated() {
    let prepared = Prepared::prepare(key(1)).unwrap();
    let bytes = prepared.encode();
    let vk_len = key(1).encode().len();
    let pairing = prepared.alpha_g1_beta_g2().len();
    let gamma = prepared.gamma_g2_neg_pc().len();
    assert_eq!(
        Prepared::decode(&bytes[..vk_len - 1]),
        Err(DecodeError { kind: ErrorKind::TruncatedStream, field: Field::GammaAbcG1, index: 0 })
    );
    assert_eq!(
        Prepared::decode(&bytes[..vk_len]),
        Err(error(ErrorKind::TruncatedStream, Field::AlphaG1BetaG2))
    );
    assert_eq!(
        Prepared::decode(&bytes[..vk_len + pairing]),
        Err(error(ErrorKind::TruncatedStream, Field::GammaG2NegPc))
    );
    assert_eq!(
        Prepared::decode(&bytes[..vk_len + pairing + gamma]),
        Err(error(ErrorKind::TruncatedStream, Field::DeltaG2NegPc))
    );
    assert_eq!(
        Prepared::decode(&bytes[..bytes.len() - 1]),
        Err(error(ErrorKind::TruncatedStream, Field::DeltaG2NegPc))
    );
}

#[test]
fn malformed_key_inside_a_prepared_key_is_reported() {
    let mut bytes = Prepared::prepare(key(2)).unwrap().encode();
    bytes[96] = 5;
    assert_eq!(
        Prepared::decode(&bytes),
        Err(error(ErrorKind::MalformedPoint, Field::AlphaG1))
    );
}
