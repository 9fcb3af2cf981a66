//! Proving keys and their compact encoding, which carries no lengths and is
//! read back under the guidance of a size record.
use vstd::prelude::*;

use crate::carve::{
    g1_at, g1_points_at, g2_points_at, lemma_checked_conforms, offsets,
};
use crate::engine::{is_g1, Engine};
use crate::error::{DecodeError, Field};
use crate::key_size::KeySize;
use crate::layout::{check_layout, concat, item, items, layout_error, Kind, Segment};
use crate::point::{
    all_g1, all_g2, clone_g1_points, clone_g2_points, g1_views, g2_views, write_g1_points,
    write_g2_points, G1Point, G2Point,
};
use crate::verifying_key::{compact_layout, VerifyingKey, VerifyingKeyView};

verus! {

/// A proving key.
#[derive(Debug, PartialEq, Eq)]
pub struct ProvingKey<E: Engine> {
    /// The verifying key.
    pub vk: VerifyingKey<E>,
    /// `beta` times the generator of `G1`.
    pub beta_g1: G1Point<E>,
    /// `delta` times the generator of `G1`.
    pub delta_g1: G1Point<E>,
    /// The elements `a_i` times the generator of `G1`.
    pub a_query: Vec<G1Point<E>>,
    /// The elements `b_i` times the generator of `G1`.
    pub b_g1_query: Vec<G1Point<E>>,
    /// The elements `b_i` times the generator of `G2`.
    pub b_g2_query: Vec<G2Point<E>>,
    /// The elements `h_i` times the generator of `G1`.
    pub h_query: Vec<G1Point<E>>,
    /// The elements `l_i` times the generator of `G1`.
    pub l_query: Vec<G1Point<E>>,
}

/// A proving key as the encodings of its elements.
pub ghost struct ProvingKeyView {
    pub vk: VerifyingKeyView,
    pub beta_g1: Seq<u8>,
    pub delta_g1: Seq<u8>,
    pub a_query: Seq<Seq<u8>>,
    pub b_g1_query: Seq<Seq<u8>>,
    pub b_g2_query: Seq<Seq<u8>>,
    pub h_query: Seq<Seq<u8>>,
    pub l_query: Seq<Seq<u8>>,
}

impl<E: Engine> View for ProvingKey<E> {
    type V = ProvingKeyView;

    open spec fn view(&self) -> ProvingKeyView {
        ProvingKeyView {
            vk: self.vk@,
            beta_g1: self.beta_g1@,
            delta_g1: self.delta_g1@,
            a_query: g1_views(self.a_query@),
            b_g1_query: g1_views(self.b_g1_query@),
            b_g2_query: g2_views(self.b_g2_query@),
            h_query: g1_views(self.h_query@),
            l_query: g1_views(self.l_query@),
        }
    }
}

impl ProvingKeyView {
    /// Each element is a point of its group, and the length of each vector
    /// fits a size record.
    pub open spec fn valid<E: Engine>(self) -> bool {
        &&& self.vk.valid::<E>()
        &&& is_g1::<E>(self.beta_g1)
        &&& is_g1::<E>(self.delta_g1)
        &&& all_g1::<E>(self.a_query)
        &&& all_g1::<E>(self.b_g1_query)
        &&& all_g2::<E>(self.b_g2_query)
        &&& all_g1::<E>(self.h_query)
        &&& all_g1::<E>(self.l_query)
        &&& self.sized()
    }

    /// The length of each vector fits a size record.
    pub open spec fn sized(self) -> bool {
        &&& self.vk.gamma_abc_g1.len() <= usize::MAX
        &&& self.a_query.len() <= usize::MAX
        &&& self.b_g1_query.len() <= usize::MAX
        &&& self.b_g2_query.len() <= usize::MAX
        &&& self.h_query.len() <= usize::MAX
        &&& self.l_query.len() <= usize::MAX
    }

    /// The lengths of the key's vectors.
    pub open spec fn size(self) -> KeySize {
        KeySize {
            vk_len: self.vk.gamma_abc_g1.len() as usize,
            a_len: self.a_query.len() as usize,
            b_g1_len: self.b_g1_query.len() as usize,
            b_g2_len: self.b_g2_query.len() as usize,
            h_len: self.h_query.len() as usize,
            l_len: self.l_query.len() as usize,
        }
    }

    /// The compact encoding: the verifying key in its compact encoding,
    /// `beta_g1`, `delta_g1`, then the elements of `a_query`, `b_g1_query`,
    /// `b_g2_query`, `h_query` and `l_query`. No length is written.
    pub open spec fn bytes(self) -> Seq<u8> {
        self.vk.compact_bytes() + self.beta_g1 + self.delta_g1 + concat(self.a_query) + concat(
            self.b_g1_query,
        ) + concat(self.b_g2_query) + concat(self.h_query) + concat(self.l_query)
    }

    /// The layout of the compact encoding of a key of the given size.
    pub open spec fn layout(size: KeySize) -> Seq<Segment> {
        seq![
            Segment { field: Field::AlphaG1, kind: Kind::G1, count: 1 },
            Segment { field: Field::BetaG2, kind: Kind::G2, count: 1 },
            Segment { field: Field::GammaG2, kind: Kind::G2, count: 1 },
            Segment { field: Field::DeltaG2, kind: Kind::G2, count: 1 },
            Segment { field: Field::GammaAbcG1, kind: Kind::G1, count: size.vk_len as u64 },
            Segment { field: Field::BetaG1, kind: Kind::G1, count: 1 },
            Segment { field: Field::DeltaG1, kind: Kind::G1, count: 1 },
            Segment { field: Field::AQuery, kind: Kind::G1, count: size.a_len as u64 },
            Segment { field: Field::BG1Query, kind: Kind::G1, count: size.b_g1_len as u64 },
            Segment { field: Field::BG2Query, kind: Kind::G2, count: size.b_g2_len as u64 },
            Segment { field: Field::HQuery, kind: Kind::G1, count: size.h_len as u64 },
            Segment { field: Field::LQuery, kind: Kind::G1, count: size.l_len as u64 },
        ]
    }

    /// The key of the given size whose elements stand in `bytes`.
    pub open spec fn carve<E: Engine>(bytes: Seq<u8>, size: KeySize) -> ProvingKeyView {
        let layout = Self::layout(size);
        ProvingKeyView {
            vk: VerifyingKeyView::carve::<E>(bytes, layout, 4),
            beta_g1: item::<E>(bytes, layout, 5, 0),
            delta_g1: item::<E>(bytes, layout, 6, 0),
            a_query: items::<E>(bytes, layout, 7),
            b_g1_query: items::<E>(bytes, layout, 8),
            b_g2_query: items::<E>(bytes, layout, 9),
            h_query: items::<E>(bytes, layout, 10),
            l_query: items::<E>(bytes, layout, 11),
        }
    }

    /// What a size-guided read of `bytes` gives: the key of the given size
    /// that they encode, or the reason why they encode none. The input must
    /// end where the key ends.
    pub open spec fn read<E: Engine>(bytes: Seq<u8>, size: KeySize) -> Result<
        ProvingKeyView,
        DecodeError,
    > {
        match layout_error::<E>(bytes, Self::layout(size), true) {
            Some(e) => Err(e),
            None => Ok(Self::carve::<E>(bytes, size)),
        }
    }
}

/// The layout of the compact encoding of a key of the given size.
fn proving_key_layout(size: &KeySize) -> (layout: Vec<Segment>)
    ensures
        layout@ == ProvingKeyView::layout(*size),
{
    let mut layout = compact_layout(size.vk_len as u64);
    layout.push(Segment { field: Field::BetaG1, kind: Kind::G1, count: 1 });
    layout.push(Segment { field: Field::DeltaG1, kind: Kind::G1, count: 1 });
    layout.push(Segment { field: Field::AQuery, kind: Kind::G1, count: size.a_len as u64 });
    layout.push(Segment { field: Field::BG1Query, kind: Kind::G1, count: size.b_g1_len as u64 });
    layout.push(Segment { field: Field::BG2Query, kind: Kind::G2, count: size.b_g2_len as u64 });
    layout.push(Segment { field: Field::HQuery, kind: Kind::G1, count: size.h_len as u64 });
    layout.push(Segment { field: Field::LQuery, kind: Kind::G1, count: size.l_len as u64 });
    assert(layout@ =~= ProvingKeyView::layout(*size));
    layout
}

impl<E: Engine> ProvingKey<E> {
    /// Appends the compact encoding of the key to `out`.
    pub fn write(&self, out: &mut Vec<u8>)
        ensures
            final(out)@ == old(out)@ + self@.bytes(),
            self@.valid::<E>(),
    {
        self.vk.write(out);
        self.beta_g1.write(out);
        self.delta_g1.write(out);
        write_g1_points::<E>(&self.a_query, out);
        write_g1_points::<E>(&self.b_g1_query, out);
        write_g2_points::<E>(&self.b_g2_query, out);
        write_g1_points::<E>(&self.h_query, out);
        write_g1_points::<E>(&self.l_query, out);
        assert(self@.vk.gamma_abc_g1.len() == self.vk.gamma_abc_g1.len());
        assert(self@.a_query.len() == self.a_query.len());
        assert(self@.b_g1_query.len() == self.b_g1_query.len());
        assert(self@.b_g2_query.len() == self.b_g2_query.len());
        assert(self@.h_query.len() == self.h_query.len());
        assert(self@.l_query.len() == self.l_query.len());
        assert(out@ =~= old(out)@ + self@.bytes());
    }

    /// Reads the key that `bytes` encode, the lengths of its vectors being
    /// those of `size`.
    pub fn read(bytes: &[u8], size: &KeySize) -> (read: Result<Self, DecodeError>)
        ensures
            match read {
                Ok(key) => ProvingKeyView::read::<E>(bytes@, *size) == Ok::<
                    ProvingKeyView,
                    DecodeError,
                >(key@) && key@.valid::<E>() && key@.size() == *size,
                Err(e) => ProvingKeyView::read::<E>(bytes@, *size) == Err::<
                    ProvingKeyView,
                    DecodeError,
                >(e),
            },
    {
        let layout = proving_key_layout(size);
        match check_layout::<E>(bytes, &layout, true) {
            Err(e) => Err(e),
            Ok(()) => {
                proof {
                    assert(bytes@.len() == bytes.len());
                    lemma_checked_conforms::<E>(bytes@, layout@, true);
                    assert(layout@.take(4) =~= VerifyingKeyView::fixed_layout());
                    let l = layout@;
                    assert(l[4].kind == Kind::G1);
                    assert(l[5].kind == Kind::G1 && l[5].count == 1);
                    assert(l[6].kind == Kind::G1 && l[6].count == 1);
                    assert(l[7].kind == Kind::G1 && l[7].count == size.a_len);
                    assert(l[8].kind == Kind::G1 && l[8].count == size.b_g1_len);
                    assert(l[9].kind == Kind::G2 && l[9].count == size.b_g2_len);
                    assert(l[10].kind == Kind::G1 && l[10].count == size.h_len);
                    assert(l[11].kind == Kind::G1 && l[11].count == size.l_len);
                }
                let offsets = offsets::<E>(&layout);
                let key = ProvingKey {
                    vk: VerifyingKey::carve(bytes, &layout, &offsets, 4),
                    beta_g1: g1_at::<E>(bytes, &layout, &offsets, 5),
                    delta_g1: g1_at::<E>(bytes, &layout, &offsets, 6),
                    a_query: g1_points_at::<E>(bytes, &layout, &offsets, 7),
                    b_g1_query: g1_points_at::<E>(bytes, &layout, &offsets, 8),
                    b_g2_query: g2_points_at::<E>(bytes, &layout, &offsets, 9),
                    h_query: g1_points_at::<E>(bytes, &layout, &offsets, 10),
                    l_query: g1_points_at::<E>(bytes, &layout, &offsets, 11),
                };
                Ok(key)
            },
        }
    }

    /// The lengths of the key's vectors.
    pub fn size(&self) -> (size: KeySize)
        ensures
            size == self@.size(),
            self@.sized(),
    {
        KeySize {
            vk_len: self.vk.gamma_abc_g1.len(),
            a_len: self.a_query.len(),
            b_g1_len: self.b_g1_query.len(),
            b_g2_len: self.b_g2_query.len(),
            h_len: self.h_query.len(),
            l_len: self.l_query.len(),
        }
    }
}

impl<E: Engine> Clone for ProvingKey<E> {
    fn clone(&self) -> (copy: Self)
        ensures
            copy@ == self@,
    {
        ProvingKey {
            vk: self.vk.clone(),
            beta_g1: self.beta_g1.clone(),
            delta_g1: self.delta_g1.clone(),
            a_query: clone_g1_points::<E>(&self.a_query),
            b_g1_query: clone_g1_points::<E>(&self.b_g1_query),
            b_g2_query: clone_g2_points::<E>(&self.b_g2_query),
            h_query: clone_g1_points::<E>(&self.h_query),
            l_query: clone_g1_points::<E>(&self.l_query),
        }
    }
}

} // verus!
