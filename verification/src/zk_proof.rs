//! Proofs: three group elements, encoded one after the other.
use vstd::prelude::*;

use crate::engine::{is_g1, is_g2, Engine};
use crate::error::{DecodeError, Field};
use crate::layout::{
    check_layout, item, layout_error, lemma_accepted, lemma_first_short_none,
    lemma_span_step_single, lemma_start_first, lemma_start_last, Kind, Segment,
};
use crate::point::{G1Point, G2Point};

verus! {

/// A proof.
#[derive(Debug, PartialEq, Eq)]
pub struct Proof<E: Engine> {
    /// The `A` element, in `G1`.
    pub a: G1Point<E>,
    /// The `B` element, in `G2`.
    pub b: G2Point<E>,
    /// The `C` element, in `G1`.
    pub c: G1Point<E>,
}

/// A proof as the encodings of its elements.
pub ghost struct ProofView {
    pub a: Seq<u8>,
    pub b: Seq<u8>,
    pub c: Seq<u8>,
}

impl<E: Engine> View for Proof<E> {
    type V = ProofView;

    open spec fn view(&self) -> ProofView {
        ProofView { a: self.a@, b: self.b@, c: self.c@ }
    }
}

impl ProofView {
    /// Each element is a point of its group.
    pub open spec fn valid<E: Engine>(self) -> bool {
        is_g1::<E>(self.a) && is_g2::<E>(self.b) && is_g1::<E>(self.c)
    }

    /// The encoding: `a`, `b`, `c`.
    pub open spec fn bytes(self) -> Seq<u8> {
        self.a + self.b + self.c
    }

    /// The layout of an encoded proof.
    pub open spec fn layout() -> Seq<Segment> {
        seq![
            Segment { field: Field::A, kind: Kind::G1, count: 1 },
            Segment { field: Field::B, kind: Kind::G2, count: 1 },
            Segment { field: Field::C, kind: Kind::G1, count: 1 },
        ]
    }

    /// The proof whose elements stand in `bytes`.
    pub open spec fn carve<E: Engine>(bytes: Seq<u8>) -> ProofView {
        ProofView {
            a: item::<E>(bytes, Self::layout(), 0, 0),
            b: item::<E>(bytes, Self::layout(), 1, 0),
            c: item::<E>(bytes, Self::layout(), 2, 0),
        }
    }

    /// What decoding `bytes` gives: the proof that stands at their start, or
    /// the reason why none does.
    pub open spec fn decode<E: Engine>(bytes: Seq<u8>) -> Result<ProofView, DecodeError> {
        match layout_error::<E>(bytes, Self::layout(), false) {
            Some(e) => Err(e),
            None => Ok(Self::carve::<E>(bytes)),
        }
    }

    /// The proof made of the identities of the groups.
    pub open spec fn identity<E: Engine>() -> ProofView {
        ProofView { a: E::g1_identity(), b: E::g2_identity(), c: E::g1_identity() }
    }
}

/// The layout of an encoded proof.
fn proof_layout() -> (layout: Vec<Segment>)
    ensures
        layout@ == ProofView::layout(),
{
    let mut layout = Vec::new();
    layout.push(Segment { field: Field::A, kind: Kind::G1, count: 1 });
    layout.push(Segment { field: Field::B, kind: Kind::G2, count: 1 });
    layout.push(Segment { field: Field::C, kind: Kind::G1, count: 1 });
    assert(layout@ =~= ProofView::layout());
    layout
}

impl<E: Engine> Proof<E> {
    /// Appends the encoding of the proof to `out`.
    pub fn write(&self, out: &mut Vec<u8>)
        ensures
            final(out)@ == old(out)@ + self@.bytes(),
            self@.valid::<E>(),
    {
        self.a.write(out);
        self.b.write(out);
        self.c.write(out);
        assert(out@ =~= old(out)@ + self@.bytes());
    }

    /// The encoding of the proof.
    pub fn encode(&self) -> (bytes: Vec<u8>)
        ensures
            bytes@ == self@.bytes(),
            self@.valid::<E>(),
    {
        let mut out = Vec::new();
        self.write(&mut out);
        assert(out@ =~= self@.bytes());
        out
    }

    /// Decodes the proof that stands at the start of `bytes`.
    pub fn decode(bytes: &[u8]) -> (decoded: Result<Self, DecodeError>)
        ensures
            match decoded {
                Ok(proof) => ProofView::decode::<E>(bytes@) == Ok::<ProofView, DecodeError>(proof@)
                    && proof@.valid::<E>(),
                Err(e) => ProofView::decode::<E>(bytes@) == Err::<ProofView, DecodeError>(e),
            },
    {
        let layout = proof_layout();
        match check_layout::<E>(bytes, &layout, false) {
            Err(e) => Err(e),
            Ok(()) => {
                let g1 = E::g1_len();
                let g2 = E::g2_len();
                proof {
                    let l = ProofView::layout();
                    assert(bytes@.len() == bytes.len());
                    assert(l[0].kind == Kind::G1 && l[1].kind == Kind::G2 && l[2].kind == Kind::G1);
                    lemma_start_first::<E>(l);
                    lemma_span_step_single::<E>(l, 0);
                    lemma_span_step_single::<E>(l, 1);
                    lemma_span_step_single::<E>(l, 2);
                    lemma_start_last::<E>(l);
                    lemma_first_short_none::<E>(l, bytes@.len());
                    lemma_accepted::<E>(bytes@, l, 0, 0);
                    lemma_accepted::<E>(bytes@, l, 1, 0);
                    lemma_accepted::<E>(bytes@, l, 2, 0);
                }
                let a = G1Point::<E>::at(bytes, 0);
                let b = G2Point::<E>::at(bytes, g1);
                let c = G1Point::<E>::at(bytes, g1 + g2);
                Ok(Proof { a, b, c })
            },
        }
    }
}

impl<E: Engine> Clone for Proof<E> {
    fn clone(&self) -> (copy: Self)
        ensures
            copy@ == self@,
    {
        Proof { a: self.a.clone(), b: self.b.clone(), c: self.c.clone() }
    }
}

impl<E: Engine> Default for Proof<E> {
    /// The proof made of the identities of the groups.
    fn default() -> (proof: Self)
        ensures
            proof@ == ProofView::identity::<E>(),
    {
        Proof { a: G1Point::identity(), b: G2Point::identity(), c: G1Point::identity() }
    }
}

} // verus!
