//! The BLS12-381 engine, whose point codec, pairing and preparation are
//! those of `ark_bls12_381` and `ark_ec`.
use ark_ec::PairingEngine;
use ark_ff::bytes::{FromBytes, ToBytes};
use vstd::prelude::*;

use crate::engine::{bytes_of, Engine};

verus! {

/// Whether `FromBytes::read` of the curve's `G1Affine` succeeds on `bytes`.
pub uninterp spec fn g1_read_succeeds(bytes: Seq<u8>) -> bool;

/// Whether `FromBytes::read` of the curve's `G2Affine` succeeds on `bytes`.
pub uninterp spec fn g2_read_succeeds(bytes: Seq<u8>) -> bool;

/// What `ToBytes::write` gives for the final exponentiation of the Miller
/// loop of the points read from `p` and `q`; `None` where that
/// exponentiation returns `None`.
pub uninterp spec fn pairing_bytes(p: Seq<u8>, q: Seq<u8>) -> Option<Seq<u8>>;

/// What `ToBytes::write` gives for the `G2Prepared` made from the negation of
/// the point read from `q`.
pub uninterp spec fn negated_prepared_bytes(q: Seq<u8>) -> Seq<u8>;

/// Bytes of a base field element: six 64-bit limbs.
pub const FQ_WIDTH: usize = 48;

/// Bytes of an encoded `G1` point: two coordinates and the infinity flag.
pub const G1_WIDTH: usize = 97;

/// Bytes of an encoded `G2` point: two coordinates in the quadratic
/// extension and the infinity flag.
pub const G2_WIDTH: usize = 193;

/// The encoding of a point at infinity whose coordinates take `half` bytes
/// each: `x` is zero, `y` is one, and the flag is set.
pub open spec fn infinity_bytes(half: int) -> Seq<u8> {
    Seq::new(
        (2 * half + 1) as nat,
        |i: int|
            if i == half || i == 2 * half {
                1u8
            } else {
                0u8
            },
    )
}

/// `FromBytes::read` of `G1Affine` on `bytes`: reads two base field elements,
/// each of which must be below the modulus, and a flag byte that must be 0 or
/// 1. The contract names whether it succeeds.
#[verifier::external_body]
fn ark_g1_accepts(bytes: &[u8]) -> (ok: bool)
    ensures
        ok == g1_read_succeeds(bytes@),
{
    <<ark_bls12_381::Bls12_381 as PairingEngine>::G1Affine as FromBytes>::read(bytes).is_ok()
}

/// `FromBytes::read` of `G2Affine` on `bytes`, as for `G1Affine` with
/// coordinates in the quadratic extension. The contract names whether it
/// succeeds.
#[verifier::external_body]
fn ark_g2_accepts(bytes: &[u8]) -> (ok: bool)
    ensures
        ok == g2_read_succeeds(bytes@),
{
    <<ark_bls12_381::Bls12_381 as PairingEngine>::G2Affine as FromBytes>::read(bytes).is_ok()
}

/// `ToBytes::write` of `G1Affine::default()`, the point at infinity, which
/// holds `x = 0`, `y = 1` and a set flag: the contract states those bytes, and
/// that `FromBytes::read` takes them back.
#[verifier::external_body]
fn ark_g1_identity() -> (bytes: Vec<u8>)
    ensures
        bytes@ == infinity_bytes(FQ_WIDTH as int),
        g1_read_succeeds(bytes@),
{
    let mut out = Vec::new();
    <ark_bls12_381::Bls12_381 as PairingEngine>::G1Affine::default().write(&mut out).unwrap();
    out
}

/// `ToBytes::write` of `G2Affine::default()`, the point at infinity, which
/// holds `x = 0`, `y = 1` and a set flag: the contract states those bytes, and
/// that `FromBytes::read` takes them back.
#[verifier::external_body]
fn ark_g2_identity() -> (bytes: Vec<u8>)
    ensures
        bytes@ == infinity_bytes(2 * FQ_WIDTH),
        g2_read_succeeds(bytes@),
{
    let mut out = Vec::new();
    <ark_bls12_381::Bls12_381 as PairingEngine>::G2Affine::default().write(&mut out).unwrap();
    out
}

/// `PairingEngine::miller_loop` on the one pair read from `p` and `q`, then
/// `PairingEngine::final_exponentiation`, written with `ToBytes::write`. This
/// is what `PairingEngine::pairing` computes, without its `unwrap`. The
/// contract names the result.
#[verifier::external_body]
fn ark_pairing(p: &[u8], q: &[u8]) -> (e: Option<Vec<u8>>)
    requires
        g1_read_succeeds(p@),
        g2_read_succeeds(q@),
    ensures
        bytes_of(e) == pairing_bytes(p@, q@),
{
    let p = <<ark_bls12_381::Bls12_381 as PairingEngine>::G1Affine as FromBytes>::read(p).unwrap();
    let q = <<ark_bls12_381::Bls12_381 as PairingEngine>::G2Affine as FromBytes>::read(q).unwrap();
    let pair = (p.into(), q.into());
    let looped = ark_bls12_381::Bls12_381::miller_loop(core::iter::once(&pair));
    let e = ark_bls12_381::Bls12_381::final_exponentiation(&looped)?;
    let mut out = Vec::new();
    e.write(&mut out).unwrap();
    Some(out)
}

/// `Neg::neg` on the point read from `q`, then `G2Prepared::from`, written
/// with `ToBytes::write`. The contract names the result.
#[verifier::external_body]
fn ark_negated_prepared(q: &[u8]) -> (bytes: Vec<u8>)
    requires
        g2_read_succeeds(q@),
    ensures
        bytes@ == negated_prepared_bytes(q@),
{
    let q = <<ark_bls12_381::Bls12_381 as PairingEngine>::G2Affine as FromBytes>::read(q).unwrap();
    let prepared: <ark_bls12_381::Bls12_381 as PairingEngine>::G2Prepared = (-q).into();
    let mut out = Vec::new();
    prepared.write(&mut out).unwrap();
    out
}

/// The BLS12-381 pairing engine.
#[allow(non_camel_case_types)]
#[derive(Clone, Copy, Debug, PartialEq, Eq)]
pub struct Bls12_381;

impl Engine for Bls12_381 {
    open spec fn g1_width() -> nat {
        G1_WIDTH as nat
    }

    open spec fn g2_width() -> nat {
        G2_WIDTH as nat
    }

    open spec fn g1_accepts(bytes: Seq<u8>) -> bool {
        g1_read_succeeds(bytes)
    }

    open spec fn g2_accepts(bytes: Seq<u8>) -> bool {
        g2_read_succeeds(bytes)
    }

    open spec fn g1_identity() -> Seq<u8> {
        infinity_bytes(FQ_WIDTH as int)
    }

    open spec fn g2_identity() -> Seq<u8> {
        infinity_bytes(2 * FQ_WIDTH)
    }

    open spec fn pairing(p: Seq<u8>, q: Seq<u8>) -> Option<Seq<u8>> {
        pairing_bytes(p, q)
    }

    open spec fn negated_prepared(q: Seq<u8>) -> Seq<u8> {
        negated_prepared_bytes(q)
    }

    proof fn widths_are_positive() {
    }

    fn g1_len() -> (n: usize) {
        G1_WIDTH
    }

    fn g2_len() -> (n: usize) {
        G2_WIDTH
    }

    fn check_g1(bytes: &[u8]) -> (ok: bool) {
        ark_g1_accepts(bytes)
    }

    fn check_g2(bytes: &[u8]) -> (ok: bool) {
        ark_g2_accepts(bytes)
    }

    fn identity_g1() -> (bytes: Vec<u8>) {
        ark_g1_identity()
    }

    fn identity_g2() -> (bytes: Vec<u8>) {
        ark_g2_identity()
    }

    fn pair(p: &[u8], q: &[u8]) -> (e: Option<Vec<u8>>) {
        ark_pairing(p, q)
    }

    fn negate_and_prepare(q: &[u8]) -> (bytes: Vec<u8>) {
        ark_negated_prepared(q)
    }
}

} // verus!
