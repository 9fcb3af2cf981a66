//! Prepared verifying keys: a verifying key with the pairing of `alpha_g1`
//! and `beta_g2` and the prepared negations of `gamma_g2` and `delta_g2`,
//! which are derived from the key once and then kept.
use vstd::prelude::*;
use vstd::slice::slice_subrange;
use vstd::std_specs::convert::FromSpecImpl;

use crate::engine::Engine;
use crate::error::{DecodeError, ErrorKind, Field};
use crate::verifying_key::{VerifyingKey, VerifyingKeyView};

verus! {

/// A verifying key with the elements derived from it.
#[derive(Debug, PartialEq, Eq)]
pub struct PreparedVerifyingKey<E: Engine> {
    vk: VerifyingKey<E>,
    alpha_g1_beta_g2: Vec<u8>,
    gamma_g2_neg_pc: Vec<u8>,
    delta_g2_neg_pc: Vec<u8>,
}

/// A prepared verifying key as the encodings of its elements.
pub ghost struct PreparedVerifyingKeyView {
    /// The key that the other elements are derived from.
    pub vk: VerifyingKeyView,
    /// The pairing of `alpha_g1` and `beta_g2`.
    pub alpha_g1_beta_g2: Seq<u8>,
    /// The negation of `gamma_g2`, prepared.
    pub gamma_g2_neg_pc: Seq<u8>,
    /// The negation of `delta_g2`, prepared.
    pub delta_g2_neg_pc: Seq<u8>,
}

impl PreparedVerifyingKeyView {
    /// What preparing `vk` gives: the key with its derived elements, or
    /// `None` where the pairing of `alpha_g1` and `beta_g2` fails.
    pub open spec fn prepare<E: Engine>(vk: VerifyingKeyView) -> Option<PreparedVerifyingKeyView> {
        match E::pairing(vk.alpha_g1, vk.beta_g2) {
            Some(pairing) => Some(
                PreparedVerifyingKeyView {
                    vk,
                    alpha_g1_beta_g2: pairing,
                    gamma_g2_neg_pc: E::negated_prepared(vk.gamma_g2),
                    delta_g2_neg_pc: E::negated_prepared(vk.delta_g2),
                },
            ),
            None => None,
        }
    }

    /// The key is valid and the other elements are those derived from it.
    pub open spec fn valid<E: Engine>(self) -> bool {
        self.vk.valid::<E>() && Self::prepare::<E>(self.vk) == Some(self)
    }

    /// The derived elements, one after the other.
    pub open spec fn derived_bytes(self) -> Seq<u8> {
        self.alpha_g1_beta_g2 + self.gamma_g2_neg_pc + self.delta_g2_neg_pc
    }

    /// The encoding: the key in its self-describing encoding, then the
    /// derived elements.
    pub open spec fn bytes(self) -> Seq<u8> {
        self.vk.bytes() + self.derived_bytes()
    }

    /// Why `rest` does not start with the derived elements, if it does not:
    /// it is truncated at the first element that it does not hold in full,
    /// and failing that malformed at the first element that differs.
    pub open spec fn derived_error(self, rest: Seq<u8>) -> Option<DecodeError> {
        let e1 = self.alpha_g1_beta_g2.len() as int;
        let e2 = e1 + self.gamma_g2_neg_pc.len();
        let e3 = e2 + self.delta_g2_neg_pc.len();
        if rest.len() < e1 {
            Some(DecodeError::truncated(Field::AlphaG1BetaG2, 0))
        } else if rest.len() < e2 {
            Some(DecodeError::truncated(Field::GammaG2NegPc, 0))
        } else if rest.len() < e3 {
            Some(DecodeError::truncated(Field::DeltaG2NegPc, 0))
        } else if rest.subrange(0, e1) != self.alpha_g1_beta_g2 {
            Some(DecodeError::malformed(Field::AlphaG1BetaG2, 0))
        } else if rest.subrange(e1, e2) != self.gamma_g2_neg_pc {
            Some(DecodeError::malformed(Field::GammaG2NegPc, 0))
        } else if rest.subrange(e2, e3) != self.delta_g2_neg_pc {
            Some(DecodeError::malformed(Field::DeltaG2NegPc, 0))
        } else {
            None
        }
    }

    /// What decoding `bytes` gives: the prepared key that stands at their
    /// start, or the reason why none does. The verifying key is decoded from
    /// its self-describing encoding; the elements that follow must be those
    /// derived from it. Where the pairing of the key fails, no element can
    /// stand for it, and the input is malformed there.
    pub open spec fn decode<E: Engine>(bytes: Seq<u8>) -> Result<
        PreparedVerifyingKeyView,
        DecodeError,
    > {
        match VerifyingKeyView::decode::<E>(bytes) {
            Err(e) => Err(e),
            Ok(vk) => match Self::prepare::<E>(vk) {
                None => Err(DecodeError::malformed(Field::AlphaG1BetaG2, 0)),
                Some(prepared) => {
                    let rest = bytes.skip(VerifyingKeyView::decoded_len::<E>(bytes) as int);
                    match prepared.derived_error(rest) {
                        Some(e) => Err(e),
                        None => Ok(prepared),
                    }
                },
            },
        }
    }
}

impl<E: Engine> PreparedVerifyingKey<E> {
    /// The verifying key.
    pub closed spec fn key(self) -> VerifyingKey<E> {
        self.vk
    }

    /// The encoding of the pairing of `alpha_g1` and `beta_g2`.
    pub closed spec fn pairing(self) -> Seq<u8> {
        self.alpha_g1_beta_g2@
    }

    /// The encoding of the prepared negation of `gamma_g2`.
    pub closed spec fn gamma_neg(self) -> Seq<u8> {
        self.gamma_g2_neg_pc@
    }

    /// The encoding of the prepared negation of `delta_g2`.
    pub closed spec fn delta_neg(self) -> Seq<u8> {
        self.delta_g2_neg_pc@
    }

    /// The derived elements are those of the key.
    #[verifier::type_invariant]
    closed spec fn well_formed(self) -> bool {
        PreparedVerifyingKeyView::prepare::<E>(self.vk@) == Some(self@)
    }
}

impl<E: Engine> View for PreparedVerifyingKey<E> {
    type V = PreparedVerifyingKeyView;

    open spec fn view(&self) -> PreparedVerifyingKeyView {
        PreparedVerifyingKeyView {
            vk: self.key()@,
            alpha_g1_beta_g2: self.pairing(),
            gamma_g2_neg_pc: self.gamma_neg(),
            delta_g2_neg_pc: self.delta_neg(),
        }
    }
}

/// Whether `expected` stands at `at` in `bytes`.
fn stands_at(bytes: &[u8], at: usize, expected: &Vec<u8>) -> (found: bool)
    requires
        at + expected@.len() <= bytes.len(),
    ensures
        found == (bytes@.subrange(at as int, at + expected@.len()) == expected@),
{
    let n = expected.len();
    let part = slice_subrange(bytes, at, at + n);
    let mut i: usize = 0;
    while i < n
        invariant
            i <= n,
            n == expected@.len(),
            at + n <= bytes@.len(),
            part@ == bytes@.subrange(at as int, at + n),
            forall|j: int| 0 <= j < i ==> part@[j] == expected@[j],
        decreases n - i,
    {
        if part[i] != expected[i] {
            return false;
        }
        i = i + 1;
    }
    assert(part@ =~= expected@);
    true
}

impl<E: Engine> PreparedVerifyingKey<E> {
    /// Derives the prepared key of `vk`. Where the pairing of `alpha_g1` and
    /// `beta_g2` fails, `vk` is handed back.
    pub fn prepare(vk: VerifyingKey<E>) -> (prepared: Result<Self, VerifyingKey<E>>)
        ensures
            match prepared {
                Ok(key) => PreparedVerifyingKeyView::prepare::<E>(vk@) == Some(key@) && key.key()
                    == vk,
                Err(back) => PreparedVerifyingKeyView::prepare::<E>(vk@) is None && back == vk,
            },
    {
        match E::pair(vk.alpha_g1.as_bytes(), vk.beta_g2.as_bytes()) {
            None => Err(vk),
            Some(pairing) => {
                let gamma = E::negate_and_prepare(vk.gamma_g2.as_bytes());
                let delta = E::negate_and_prepare(vk.delta_g2.as_bytes());
                Ok(
                    PreparedVerifyingKey {
                        vk,
                        alpha_g1_beta_g2: pairing,
                        gamma_g2_neg_pc: gamma,
                        delta_g2_neg_pc: delta,
                    },
                )
            },
        }
    }

    /// The verifying key.
    pub fn vk(&self) -> (vk: &VerifyingKey<E>)
        ensures
            *vk == self.key(),
    {
        &self.vk
    }

    /// The encoding of the pairing of `alpha_g1` and `beta_g2`.
    pub fn alpha_g1_beta_g2(&self) -> (bytes: &[u8])
        ensures
            bytes@ == self@.alpha_g1_beta_g2,
    {
        self.alpha_g1_beta_g2.as_slice()
    }

    /// The encoding of the prepared negation of `gamma_g2`.
    pub fn gamma_g2_neg_pc(&self) -> (bytes: &[u8])
        ensures
            bytes@ == self@.gamma_g2_neg_pc,
    {
        self.gamma_g2_neg_pc.as_slice()
    }

    /// The encoding of the prepared negation of `delta_g2`.
    pub fn delta_g2_neg_pc(&self) -> (bytes: &[u8])
        ensures
            bytes@ == self@.delta_g2_neg_pc,
    {
        self.delta_g2_neg_pc.as_slice()
    }

    /// Appends the encoding of the prepared key to `out`.
    pub fn write(&self, out: &mut Vec<u8>)
        ensures
            final(out)@ == old(out)@ + self@.bytes(),
            self@.valid::<E>(),
    {
        proof {
            use_type_invariant(self);
        }
        self.vk.encode_into(out);
        let mut pairing = self.alpha_g1_beta_g2.clone();
        let mut gamma = self.gamma_g2_neg_pc.clone();
        let mut delta = self.delta_g2_neg_pc.clone();
        out.append(&mut pairing);
        out.append(&mut gamma);
        out.append(&mut delta);
        assert(out@ =~= old(out)@ + self@.bytes());
    }

    /// The encoding of the prepared key.
    pub fn encode(&self) -> (bytes: Vec<u8>)
        ensures
            bytes@ == self@.bytes(),
            self@.valid::<E>(),
    {
        let mut out = Vec::new();
        self.write(&mut out);
        assert(out@ =~= self@.bytes());
        out
    }

    /// Decodes the prepared key that stands at the start of `bytes`.
    pub fn decode(bytes: &[u8]) -> (decoded: Result<Self, DecodeError>)
        ensures
            match decoded {
                Ok(key) => PreparedVerifyingKeyView::decode::<E>(bytes@) == Ok::<
                    PreparedVerifyingKeyView,
                    DecodeError,
                >(key@) && key@.valid::<E>(),
                Err(e) => PreparedVerifyingKeyView::decode::<E>(bytes@) == Err::<
                    PreparedVerifyingKeyView,
                    DecodeError,
                >(e),
            },
    {
        let len = bytes.len();
        let (vk, used) = match VerifyingKey::<E>::decode_prefix(bytes) {
            Err(e) => {
                return Err(e);
            },
            Ok(found) => found,
        };
        let key = match Self::prepare(vk) {
            Err(_) => {
                return Err(
                    DecodeError {
                        kind: ErrorKind::MalformedPoint,
                        field: Field::AlphaG1BetaG2,
                        index: 0,
                    },
                );
            },
            Ok(key) => key,
        };
        let ghost rest = bytes@.skip(used as int);
        let left = len - used;
        let n1 = key.alpha_g1_beta_g2.len();
        let n2 = key.gamma_g2_neg_pc.len();
        let n3 = key.delta_g2_neg_pc.len();
        if left < n1 {
            return Err(truncated_at(Field::AlphaG1BetaG2));
        }
        if left - n1 < n2 {
            return Err(truncated_at(Field::GammaG2NegPc));
        }
        if left - n1 - n2 < n3 {
            return Err(truncated_at(Field::DeltaG2NegPc));
        }
        proof {
            assert(rest.subrange(0, n1 as int) =~= bytes@.subrange(used as int, used + n1));
            assert(rest.subrange(n1 as int, n1 + n2) =~= bytes@.subrange(
                used + n1,
                used + n1 + n2,
            ));
            assert(rest.subrange(n1 + n2, n1 + n2 + n3) =~= bytes@.subrange(
                used + n1 + n2,
                used + n1 + n2 + n3,
            ));
        }
        if !stands_at(bytes, used, &key.alpha_g1_beta_g2) {
            return Err(malformed_at(Field::AlphaG1BetaG2));
        }
        if !stands_at(bytes, used + n1, &key.gamma_g2_neg_pc) {
            return Err(malformed_at(Field::GammaG2NegPc));
        }
        if !stands_at(bytes, used + n1 + n2, &key.delta_g2_neg_pc) {
            return Err(malformed_at(Field::DeltaG2NegPc));
        }
        Ok(key)
    }
}

/// The input ends within `field`.
fn truncated_at(field: Field) -> (e: DecodeError)
    ensures
        e == DecodeError::truncated(field, 0),
{
    DecodeError { kind: ErrorKind::TruncatedStream, field, index: 0 }
}

/// The bytes of `field` are not what they must be.
fn malformed_at(field: Field) -> (e: DecodeError)
    ensures
        e == DecodeError::malformed(field, 0),
{
    DecodeError { kind: ErrorKind::MalformedPoint, field, index: 0 }
}

impl<E: Engine> From<PreparedVerifyingKey<E>> for VerifyingKey<E> {
    /// The verifying key that `prepared` was derived from.
    fn from(prepared: PreparedVerifyingKey<E>) -> (vk: Self) {
        prepared.vk
    }
}

impl<E: Engine> FromSpecImpl<PreparedVerifyingKey<E>> for VerifyingKey<E> {
    open spec fn obeys_from_spec() -> bool {
        true
    }

    open spec fn from_spec(prepared: PreparedVerifyingKey<E>) -> Self {
        prepared.key()
    }
}

} // verus!
