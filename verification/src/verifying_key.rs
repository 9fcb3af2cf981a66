//! Verifying keys, in their two encodings: the self-describing one, which
//! carries the length of its vector, and the compact one, which does not.
use vstd::prelude::*;

use crate::carve::{
    conforms, g1_at, g1_points_at, g2_at, lemma_checked_conforms, length_at, offsets, starts_of,
};
use crate::engine::{is_g1, is_g2, Engine};
use crate::error::{DecodeError, Field};
use crate::layout::{
    check_holds, check_layout, concat, item, items, layout_error, lemma_first_short_none,
    lemma_start_within, span, truncation, Kind, Segment,
};
use crate::length::{length_bytes, length_value, write_length};
use crate::point::{all_g1, clone_g1_points, g1_views, write_g1_points, G1Point, G2Point};

verus! {

/// A verifying key.
#[derive(Debug, PartialEq, Eq)]
pub struct VerifyingKey<E: Engine> {
    /// `alpha` times the generator of `G1`.
    pub alpha_g1: G1Point<E>,
    /// `beta` times the generator of `G2`.
    pub beta_g2: G2Point<E>,
    /// `gamma` times the generator of `G2`.
    pub gamma_g2: G2Point<E>,
    /// `delta` times the generator of `G2`.
    pub delta_g2: G2Point<E>,
    /// One element for the constant term, then one for each public input.
    pub gamma_abc_g1: Vec<G1Point<E>>,
}

/// A verifying key as the encodings of its elements.
pub ghost struct VerifyingKeyView {
    pub alpha_g1: Seq<u8>,
    pub beta_g2: Seq<u8>,
    pub gamma_g2: Seq<u8>,
    pub delta_g2: Seq<u8>,
    pub gamma_abc_g1: Seq<Seq<u8>>,
}

impl<E: Engine> View for VerifyingKey<E> {
    type V = VerifyingKeyView;

    open spec fn view(&self) -> VerifyingKeyView {
        VerifyingKeyView {
            alpha_g1: self.alpha_g1@,
            beta_g2: self.beta_g2@,
            gamma_g2: self.gamma_g2@,
            delta_g2: self.delta_g2@,
            gamma_abc_g1: g1_views(self.gamma_abc_g1@),
        }
    }
}

impl VerifyingKeyView {
    /// Each element is a point of its group, and the length of the vector
    /// can be written down.
    pub open spec fn valid<E: Engine>(self) -> bool {
        &&& is_g1::<E>(self.alpha_g1)
        &&& is_g2::<E>(self.beta_g2)
        &&& is_g2::<E>(self.gamma_g2)
        &&& is_g2::<E>(self.delta_g2)
        &&& all_g1::<E>(self.gamma_abc_g1)
        &&& self.gamma_abc_g1.len() <= u64::MAX
    }

    /// The four fixed elements, one after the other.
    pub open spec fn fixed_bytes(self) -> Seq<u8> {
        self.alpha_g1 + self.beta_g2 + self.gamma_g2 + self.delta_g2
    }

    /// The compact encoding: the fixed elements, then the vector's elements.
    pub open spec fn compact_bytes(self) -> Seq<u8> {
        self.fixed_bytes() + concat(self.gamma_abc_g1)
    }

    /// The self-describing encoding: the fixed elements, the length of the
    /// vector, then the vector's elements.
    pub open spec fn bytes(self) -> Seq<u8> {
        self.fixed_bytes() + length_bytes(self.gamma_abc_g1.len() as u64) + concat(
            self.gamma_abc_g1,
        )
    }

    /// The layout of the four fixed elements.
    pub open spec fn fixed_layout() -> Seq<Segment> {
        seq![
            Segment { field: Field::AlphaG1, kind: Kind::G1, count: 1 },
            Segment { field: Field::BetaG2, kind: Kind::G2, count: 1 },
            Segment { field: Field::GammaG2, kind: Kind::G2, count: 1 },
            Segment { field: Field::DeltaG2, kind: Kind::G2, count: 1 },
        ]
    }

    /// The layout of the compact encoding of a key whose vector holds `len`
    /// elements: the fixed elements, then the vector's.
    pub open spec fn compact_layout(len: u64) -> Seq<Segment> {
        Self::fixed_layout().push(Segment { field: Field::GammaAbcG1, kind: Kind::G1, count: len })
    }

    /// The layout of the self-describing encoding up to and with the length.
    pub open spec fn header_layout() -> Seq<Segment> {
        Self::fixed_layout().push(
            Segment { field: Field::GammaAbcLen, kind: Kind::Length, count: 1 },
        )
    }

    /// The layout of the self-describing encoding of a key whose vector
    /// holds `len` elements.
    pub open spec fn layout(len: u64) -> Seq<Segment> {
        Self::header_layout().push(
            Segment { field: Field::GammaAbcG1, kind: Kind::G1, count: len },
        )
    }

    /// The key whose elements stand in `bytes`, laid out as `layout` says,
    /// the vector in segment `k`.
    pub open spec fn carve<E: Engine>(bytes: Seq<u8>, layout: Seq<Segment>, k: int) -> VerifyingKeyView {
        VerifyingKeyView {
            alpha_g1: item::<E>(bytes, layout, 0, 0),
            beta_g2: item::<E>(bytes, layout, 1, 0),
            gamma_g2: item::<E>(bytes, layout, 2, 0),
            delta_g2: item::<E>(bytes, layout, 3, 0),
            gamma_abc_g1: items::<E>(bytes, layout, k),
        }
    }

    /// What a size-guided read of `bytes` gives, for a vector of `len`
    /// elements: the key that stands at their start in the compact encoding,
    /// or the reason why none does.
    pub open spec fn read<E: Engine>(bytes: Seq<u8>, len: u64) -> Result<VerifyingKeyView, DecodeError> {
        match layout_error::<E>(bytes, Self::compact_layout(len), false) {
            Some(e) => Err(e),
            None => Ok(Self::carve::<E>(bytes, Self::compact_layout(len), 4)),
        }
    }

    /// The length that the header of a self-describing encoding declares.
    pub open spec fn declared_len<E: Engine>(bytes: Seq<u8>) -> u64 {
        length_value(item::<E>(bytes, Self::header_layout(), 4, 0))
    }

    /// What decoding `bytes` gives: the key that stands at their start in the
    /// self-describing encoding, or the reason why none does. An input that
    /// ends within the header is truncated there; otherwise the length that
    /// the header declares says how many elements follow.
    pub open spec fn decode<E: Engine>(bytes: Seq<u8>) -> Result<VerifyingKeyView, DecodeError> {
        match truncation::<E>(Self::header_layout(), bytes.len()) {
            Some(e) => Err(e),
            None => {
                let layout = Self::layout(Self::declared_len::<E>(bytes));
                match layout_error::<E>(bytes, layout, false) {
                    Some(e) => Err(e),
                    None => Ok(Self::carve::<E>(bytes, layout, 5)),
                }
            },
        }
    }

    /// Number of bytes of the self-describing encoding that `decode` reads.
    pub open spec fn decoded_len<E: Engine>(bytes: Seq<u8>) -> nat {
        span::<E>(Self::layout(Self::declared_len::<E>(bytes)))
    }

    /// The key made of the identities of the groups, with an empty vector.
    pub open spec fn identity<E: Engine>() -> VerifyingKeyView {
        VerifyingKeyView {
            alpha_g1: E::g1_identity(),
            beta_g2: E::g2_identity(),
            gamma_g2: E::g2_identity(),
            delta_g2: E::g2_identity(),
            gamma_abc_g1: Seq::empty(),
        }
    }
}

/// The four fixed elements of a verifying key.
pub(crate) fn fixed_segments() -> (layout: Vec<Segment>)
    ensures
        layout@ == VerifyingKeyView::fixed_layout(),
{
    let mut layout = Vec::new();
    layout.push(Segment { field: Field::AlphaG1, kind: Kind::G1, count: 1 });
    layout.push(Segment { field: Field::BetaG2, kind: Kind::G2, count: 1 });
    layout.push(Segment { field: Field::GammaG2, kind: Kind::G2, count: 1 });
    layout.push(Segment { field: Field::DeltaG2, kind: Kind::G2, count: 1 });
    assert(layout@ =~= VerifyingKeyView::fixed_layout());
    layout
}

/// The layout of the compact encoding of a key whose vector holds `len`
/// elements.
pub(crate) fn compact_layout(len: u64) -> (layout: Vec<Segment>)
    ensures
        layout@ == VerifyingKeyView::compact_layout(len),
{
    let mut layout = fixed_segments();
    layout.push(Segment { field: Field::GammaAbcG1, kind: Kind::G1, count: len });
    assert(layout@ =~= VerifyingKeyView::compact_layout(len));
    layout
}

/// The layout of the self-describing encoding up to and with the length.
fn header_layout() -> (layout: Vec<Segment>)
    ensures
        layout@ == VerifyingKeyView::header_layout(),
{
    let mut layout = fixed_segments();
    layout.push(Segment { field: Field::GammaAbcLen, kind: Kind::Length, count: 1 });
    assert(layout@ =~= VerifyingKeyView::header_layout());
    layout
}

impl<E: Engine> VerifyingKey<E> {
    /// The key whose elements stand in `bytes`, laid out as `layout` says,
    /// the vector in segment `k`.
    pub(crate) fn carve(bytes: &[u8], layout: &Vec<Segment>, offsets: &Vec<usize>, k: usize) -> (key: Self)
        requires
            conforms::<E>(bytes@, layout@),
            starts_of::<E>(layout@, offsets@),
            4 <= k < layout@.len(),
            layout@.take(4) == VerifyingKeyView::fixed_layout(),
            layout@[k as int].kind == Kind::G1,
        ensures
            key@ == VerifyingKeyView::carve::<E>(bytes@, layout@, k as int),
            key@.valid::<E>(),
    {
        proof {
            let fixed = VerifyingKeyView::fixed_layout();
            assert(forall|j: int| 0 <= j < 4 ==> layout@[j] == #[trigger] layout@.take(4)[j]);
            assert(fixed[0].kind == Kind::G1 && fixed[0].count == 1);
            assert(fixed[1].kind == Kind::G2 && fixed[1].count == 1);
            assert(fixed[2].kind == Kind::G2 && fixed[2].count == 1);
            assert(fixed[3].kind == Kind::G2 && fixed[3].count == 1);
        }
        VerifyingKey {
            alpha_g1: g1_at::<E>(bytes, layout, offsets, 0),
            beta_g2: g2_at::<E>(bytes, layout, offsets, 1),
            gamma_g2: g2_at::<E>(bytes, layout, offsets, 2),
            delta_g2: g2_at::<E>(bytes, layout, offsets, 3),
            gamma_abc_g1: g1_points_at::<E>(bytes, layout, offsets, k),
        }
    }

    /// Appends the four fixed elements to `out`.
    fn write_fixed(&self, out: &mut Vec<u8>)
        ensures
            final(out)@ == old(out)@ + self@.fixed_bytes(),
            is_g1::<E>(self@.alpha_g1),
            is_g2::<E>(self@.beta_g2),
            is_g2::<E>(self@.gamma_g2),
            is_g2::<E>(self@.delta_g2),
    {
        self.alpha_g1.write(out);
        self.beta_g2.write(out);
        self.gamma_g2.write(out);
        self.delta_g2.write(out);
        assert(out@ =~= old(out)@ + self@.fixed_bytes());
    }

    /// Appends the compact encoding of the key to `out`: no length is
    /// written.
    pub fn write(&self, out: &mut Vec<u8>)
        ensures
            final(out)@ == old(out)@ + self@.compact_bytes(),
            self@.valid::<E>(),
    {
        self.write_fixed(out);
        write_g1_points::<E>(&self.gamma_abc_g1, out);
        assert(self@.gamma_abc_g1.len() == self.gamma_abc_g1.len());
        assert(out@ =~= old(out)@ + self@.compact_bytes());
    }

    /// Reads the key that stands at the start of `bytes` in the compact
    /// encoding, its vector holding `len` elements. Bytes that follow the
    /// key are left alone.
    pub fn read(bytes: &[u8], len: usize) -> (read: Result<Self, DecodeError>)
        ensures
            match read {
                Ok(key) => VerifyingKeyView::read::<E>(bytes@, len as u64) == Ok::<
                    VerifyingKeyView,
                    DecodeError,
                >(key@) && key@.valid::<E>(),
                Err(e) => VerifyingKeyView::read::<E>(bytes@, len as u64) == Err::<
                    VerifyingKeyView,
                    DecodeError,
                >(e),
            },
    {
        let layout = compact_layout(len as u64);
        match check_layout::<E>(bytes, &layout, false) {
            Err(e) => Err(e),
            Ok(()) => {
                proof {
                    assert(bytes@.len() == bytes.len());
                    lemma_checked_conforms::<E>(bytes@, layout@, false);
                    assert(layout@.take(4) =~= VerifyingKeyView::fixed_layout());
                }
                let offsets = offsets::<E>(&layout);
                let key = Self::carve(bytes, &layout, &offsets, 4);
                Ok(key)
            },
        }
    }

    /// Appends the self-describing encoding of the key to `out`.
    pub fn encode_into(&self, out: &mut Vec<u8>)
        ensures
            final(out)@ == old(out)@ + self@.bytes(),
            self@.valid::<E>(),
    {
        self.write_fixed(out);
        let n = self.gamma_abc_g1.len();
        write_length(n as u64, out);
        write_g1_points::<E>(&self.gamma_abc_g1, out);
        assert(out@ =~= old(out)@ + self@.bytes());
    }

    /// The self-describing encoding of the key.
    pub fn encode(&self) -> (bytes: Vec<u8>)
        ensures
            bytes@ == self@.bytes(),
            self@.valid::<E>(),
    {
        let mut out = Vec::new();
        self.encode_into(&mut out);
        assert(out@ =~= self@.bytes());
        out
    }

    /// Decodes the key that stands at the start of `bytes` in the
    /// self-describing encoding, and says how many bytes it takes.
    pub fn decode_prefix(bytes: &[u8]) -> (decoded: Result<(Self, usize), DecodeError>)
        ensures
            match decoded {
                Ok((key, used)) => VerifyingKeyView::decode::<E>(bytes@) == Ok::<
                    VerifyingKeyView,
                    DecodeError,
                >(key@) && key@.valid::<E>() && used == VerifyingKeyView::decoded_len::<E>(bytes@)
                    && used <= bytes@.len(),
                Err(e) => VerifyingKeyView::decode::<E>(bytes@) == Err::<
                    VerifyingKeyView,
                    DecodeError,
                >(e),
            },
    {
        let len = bytes.len();
        let header = header_layout();
        match check_holds::<E>(len, &header) {
            Err(e) => {
                return Err(e);
            },
            Ok(_) => {},
        }
        proof {
            lemma_first_short_none::<E>(header@, len as nat);
        }
        let header_offsets = offsets::<E>(&header);
        let declared = length_at::<E>(bytes, &header, &header_offsets, 4);
        let mut layout = header;
        layout.push(Segment { field: Field::GammaAbcG1, kind: Kind::G1, count: declared });
        match check_layout::<E>(bytes, &layout, false) {
            Err(e) => Err(e),
            Ok(()) => {
                proof {
                    lemma_checked_conforms::<E>(bytes@, layout@, false);
                    assert(layout@.take(4) =~= VerifyingKeyView::fixed_layout());
                    lemma_start_within::<E>(layout@, 6);
                    assert(layout@.take(6) =~= layout@);
                }
                let offsets = offsets::<E>(&layout);
                let key = Self::carve(bytes, &layout, &offsets, 5);
                Ok((key, offsets[6]))
            },
        }
    }

    /// Decodes the key that stands at the start of `bytes` in the
    /// self-describing encoding. Bytes that follow the key are left alone.
    pub fn decode(bytes: &[u8]) -> (decoded: Result<Self, DecodeError>)
        ensures
            match decoded {
                Ok(key) => VerifyingKeyView::decode::<E>(bytes@) == Ok::<
                    VerifyingKeyView,
                    DecodeError,
                >(key@) && key@.valid::<E>(),
                Err(e) => VerifyingKeyView::decode::<E>(bytes@) == Err::<
                    VerifyingKeyView,
                    DecodeError,
                >(e),
            },
    {
        match Self::decode_prefix(bytes) {
            Ok((key, _)) => Ok(key),
            Err(e) => Err(e),
        }
    }
}

impl<E: Engine> Clone for VerifyingKey<E> {
    fn clone(&self) -> (copy: Self)
        ensures
            copy@ == self@,
    {
        VerifyingKey {
            alpha_g1: self.alpha_g1.clone(),
            beta_g2: self.beta_g2.clone(),
            gamma_g2: self.gamma_g2.clone(),
            delta_g2: self.delta_g2.clone(),
            gamma_abc_g1: clone_g1_points::<E>(&self.gamma_abc_g1),
        }
    }
}

impl<E: Engine> Default for VerifyingKey<E> {
    /// The key made of the identities of the groups, with an empty vector.
    fn default() -> (key: Self)
        ensures
            key@ == VerifyingKeyView::identity::<E>(),
    {
        let key = VerifyingKey {
            alpha_g1: G1Point::identity(),
            beta_g2: G2Point::identity(),
            gamma_g2: G2Point::identity(),
            delta_g2: G2Point::identity(),
            gamma_abc_g1: Vec::new(),
        };
        assert(key@.gamma_abc_g1 =~= Seq::<Seq<u8>>::empty());
        key
    }
}

} // verus!
