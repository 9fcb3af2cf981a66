use ark_ec::{AffineCurve, ProjectiveCurve};
use ark_ff::bytes::ToBytes;
use groth16_codec::{Bls12_381, DecodeError, ErrorKind, Field, G1Point, G2Point, Proof};

type G1 = G1Point<Bls12_381>;
type G2 = G2Point<Bls12_381>;

fn g1(scalar: u64) -> G1 {
    let point = ark_bls12_381::G1Affine::prime_subgroup_generator().mul(scalar).into_affine();
    let mut bytes = Vec::new();
    point.write(&mut bytes).unwrap();
    G1::from_bytes(&bytes).unwrap()
}

fn g2(scalar: u64) -> G2 {
    let point = ark_bls12_381::G2Affine::prime_subgroup_generator().mul(scalar).into_affine();
    let mut bytes = Vec::new();
    point.write(&mut bytes).unwrap();
    G2::from_bytes(&bytes).unwrap()
}

fn sample() -> Proof<Bls12_381> {
    Proof { a: g1(3), b: g2(5), c: g1(7) }
}

#[test]
fn proof_round_trips() {
    let proof = sample();
    let bytes = proof.encode();
    assert_eq!(bytes.len(), 97 + 193 + 97);
    assert_eq!(Proof::<Bls12_381>::decode(&bytes), Ok(proof));
}

#[test]
fn proof_is_a_then_b_then_c() {
    let proof = sample();
    let bytes = proof.encode();
    assert_eq!(&bytes[..97], proof.a.as_bytes());
    assert_eq!(&bytes[97..290], proof.b.as_bytes());
    assert_eq!(&bytes[290..], proof.c.as_bytes());
}

#[test]
fn proof_write_appends() {
    let proof = sample();
    let mut out = vec![9u8, 8, 7];
    proof.write(&mut out);
    assert_eq!(&out[..3], &[9u8, 8, 7]);
    assert_eq!(&out[3..], &proof.encode()[..]);
}

#[test]
fn proof_decode_leaves_what_follows() {
    let proof = sample();
    let mut bytes = proof.encode();
    bytes.extend_from_slice(&[1, 2, 3, 4]);
    assert_eq!(Proof::<Bls12_381>::decode(&bytes), Ok(proof));
}

#[test]
fn proof_points_match_the_engine() {
    let point = ark_bls12_381::G1Affine::prime_subgroup_generator().mul(3u64).into_affine();
    let mut expected = Vec::new();
    point.write(&mut expected).unwrap();
    assert_eq!(sample().a.as_bytes(), &expected[..]);
    assert_eq!(expected.len(), 97);
}

#[test]
fn truncated_proof_names_the_element() {
    let bytes = sample().encode();
    let truncated = |field| DecodeError { kind: ErrorKind::TruncatedStream, field, index: 0 };
    assert_eq!(Proof::<Bls12_381>::decode(&[]), Err(truncated(Field::A)));
    assert_eq!(Proof::<Bls12_381>::decode(&bytes[..96]), Err(truncated(Field::A)));
    assert_eq!(Proof::<Bls12_381>::decode(&bytes[..97]), Err(truncated(Field::B)));
    assert_eq!(Proof::<Bls12_381>::decode(&bytes[..289]), Err(truncated(Field::B)));
    assert_eq!(Proof::<Bls12_381>::decode(&bytes[..290]), Err(truncated(Field::C)));
    assert_eq!(Proof::<Bls12_381>::decode(&bytes[..386]), Err(truncated(Field::C)));
}

#[test]
fn truncation_is_reported_before_a_malformed_point() {
    let mut bytes = sample().encode();
    bytes[96] = 2;
    assert_eq!(
        Proof::<Bls12_381>::decode(&bytes[..300]),
        Err(DecodeError { kind: ErrorKind::TruncatedStream, field: Field::C, index: 0 })
    );
}

#[test]
fn malformed_proof_names_the_first_bad_element() {
    let good = sample().encode();
    let malformed = |field| DecodeError { kind: ErrorKind::MalformedPoint, field, index: 0 };

    let mut bytes = good.clone();
    bytes[96] = 2;
    assert_eq!(Proof::<Bls12_381>::decode(&bytes), Err(malformed(Field::A)));

    let mut bytes = good.clone();
    for byte in bytes[97..145].iter_mut() {
        *byte = 0xff;
    }
    assert_eq!(Proof::<Bls12_381>::decode(&bytes), Err(malformed(Field::B)));

    let mut bytes = good.clone();
    bytes[386] = 0x80;
    assert_eq!(Proof::<Bls12_381>::decode(&bytes), Err(malformed(Field::C)));

    let mut bytes = good.clone();
    bytes[386] = 7;
    bytes[289] = 7;
    assert_eq!(Proof::<Bls12_381>::decode(&bytes), Err(malformed(Field::B)));
}

#[test]
fn default_proof_is_made_of_identities() {
    let proof: Proof<Bls12_381> = Proof::default();
    assert_eq!(proof.a, G1::identity());
    assert_eq!(proof.b, G2::identity());
    assert_eq!(proof.c, G1::identity());
    let bytes = proof.encode();
    assert_eq!(Proof::<Bls12_381>::decode(&bytes), Ok(proof));
}

#[test]
fn identities_match_the_engine() {
    let mut expected = Vec::new();
    ark_bls12_381::G1Affine::default().write(&mut expected).unwrap();
    assert_eq!(G1::identity().as_bytes(), &expected[..]);
    let mut by_hand = vec![0u8; 97];
    by_hand[48] = 1;
    by_hand[96] = 1;
    assert_eq!(expected, by_hand);

    let mut expected = Vec::new();
    ark_bls12_381::G2Affine::default().write(&mut expected).unwrap();
    assert_eq!(G2::identity().as_bytes(), &expected[..]);
    let mut by_hand = vec![0u8; 193];
    by_hand[96] = 1;
    by_hand[192] = 1;
    assert_eq!(expected, by_hand);
}

#[test]
fn points_are_checked_by_the_engine() {
    let good = g1(11);
    assert_eq!(G1::from_bytes(good.as_bytes()), Some(good.clone()));
    assert_eq!(G1::from_bytes(&good.as_bytes()[..96]), None);
    let mut longer = good.as_bytes().to_vec();
    longer.push(0);
    assert_eq!(G1::from_bytes(&longer), None);
    let mut flagged = good.as_bytes().to_vec();
    flagged[96] = 2;
    assert_eq!(G1::from_bytes(&flagged), None);
    let mut oversized = good.as_bytes().to_vec();
    for byte in oversized[..48].iter_mut() {
        *byte = 0xff;
    }
    assert_eq!(G1::from_bytes(&oversized), None);
    assert_eq!(G1::from_bytes(&[0u8; 97]), Some(G1::from_bytes(&[0u8; 97]).unwrap()));

    let good = g2(13);
    assert_eq!(G2::from_bytes(good.as_bytes()), Some(good.clone()));
    assert_eq!(G2::from_bytes(&good.as_bytes()[..192]), None);
    let mut flagged = good.as_bytes().to_vec();
    flagged[192] = 9;
    assert_eq!(G2::from_bytes(&flagged), None);
    assert_eq!(G2::from_bytes(g1(13).as_bytes()), None);
}

#[test]
fn cloned_proof_is_equal() {
    let proof = sample();
    assert_eq!(proof.clone(), proof);
    assert_ne!(Proof { a: g1(4), b: g2(5), c: g1(7) }, proof);
}
