//! Group elements, held as the encoding that the engine's point codec
//! accepts.
use core::marker::PhantomData;
use vstd::prelude::*;
use vstd::slice::{slice_subrange, slice_to_vec};

use crate::engine::{is_g1, is_g2, Engine};
use crate::layout::{concat, items_at};

verus! {

/// A point of the first source group.
#[derive(Debug, PartialEq, Eq)]
pub struct G1Point<E: Engine> {
    bytes: Vec<u8>,
    engine: PhantomData<E>,
}

/// A point of the second source group.
#[derive(Debug, PartialEq, Eq)]
pub struct G2Point<E: Engine> {
    bytes: Vec<u8>,
    engine: PhantomData<E>,
}

impl<E: Engine> Clone for G1Point<E> {
    fn clone(&self) -> (copy: Self)
        ensures
            copy@ == self@,
    {
        proof {
            use_type_invariant(self);
        }
        G1Point { bytes: slice_to_vec(self.bytes.as_slice()), engine: PhantomData }
    }
}

impl<E: Engine> View for G1Point<E> {
    type V = Seq<u8>;

    /// The point's encoding.
    closed spec fn view(&self) -> Seq<u8> {
        self.bytes@
    }
}

impl<E: Engine> Clone for G2Point<E> {
    fn clone(&self) -> (copy: Self)
        ensures
            copy@ == self@,
    {
        proof {
            use_type_invariant(self);
        }
        G2Point { bytes: slice_to_vec(self.bytes.as_slice()), engine: PhantomData }
    }
}

impl<E: Engine> View for G2Point<E> {
    type V = Seq<u8>;

    /// The point's encoding.
    closed spec fn view(&self) -> Seq<u8> {
        self.bytes@
    }
}

impl<E: Engine> G1Point<E> {
    /// The bytes held are the encoding of a point of `G1`.
    #[verifier::type_invariant]
    closed spec fn well_formed(self) -> bool {
        is_g1::<E>(self.bytes@)
    }

    /// The point that `bytes` encode, if they encode one.
    pub fn from_bytes(bytes: &[u8]) -> (point: Option<Self>)
        ensures
            point.is_some() == is_g1::<E>(bytes@),
            point.is_some() ==> point.unwrap()@ == bytes@,
    {
        if bytes.len() == E::g1_len() && E::check_g1(bytes) {
            Some(G1Point { bytes: slice_to_vec(bytes), engine: PhantomData })
        } else {
            None
        }
    }

    /// The point whose encoding stands at `at` in `bytes`.
    pub(crate) fn at(bytes: &[u8], at: usize) -> (point: Self)
        requires
            at + E::g1_width() <= bytes.len(),
            is_g1::<E>(bytes@.subrange(at as int, at + E::g1_width())),
        ensures
            point@ == bytes@.subrange(at as int, at + E::g1_width()),
            is_g1::<E>(point@),
    {
        let end = at + E::g1_len();
        G1Point { bytes: slice_to_vec(slice_subrange(bytes, at, end)), engine: PhantomData }
    }

    /// The identity of the group.
    pub fn identity() -> (point: Self)
        ensures
            point@ == E::g1_identity(),
            is_g1::<E>(point@),
    {
        G1Point { bytes: E::identity_g1(), engine: PhantomData }
    }

    /// The point's encoding.
    pub fn as_bytes(&self) -> (bytes: &[u8])
        ensures
            bytes@ == self@,
            is_g1::<E>(self@),
    {
        proof {
            use_type_invariant(self);
        }
        self.bytes.as_slice()
    }

    /// Appends the point's encoding to `out`.
    pub fn write(&self, out: &mut Vec<u8>)
        ensures
            final(out)@ == old(out)@ + self@,
            is_g1::<E>(self@),
    {
        proof {
            use_type_invariant(self);
        }
        let mut copy = slice_to_vec(self.bytes.as_slice());
        out.append(&mut copy);
    }
}

impl<E: Engine> G2Point<E> {
    /// The bytes held are the encoding of a point of `G2`.
    #[verifier::type_invariant]
    closed spec fn well_formed(self) -> bool {
        is_g2::<E>(self.bytes@)
    }

    /// The point that `bytes` encode, if they encode one.
    pub fn from_bytes(bytes: &[u8]) -> (point: Option<Self>)
        ensures
            point.is_some() == is_g2::<E>(bytes@),
            point.is_some() ==> point.unwrap()@ == bytes@,
    {
        if bytes.len() == E::g2_len() && E::check_g2(bytes) {
            Some(G2Point { bytes: slice_to_vec(bytes), engine: PhantomData })
        } else {
            None
        }
    }

    /// The point whose encoding stands at `at` in `bytes`.
    pub(crate) fn at(bytes: &[u8], at: usize) -> (point: Self)
        requires
            at + E::g2_width() <= bytes.len(),
            is_g2::<E>(bytes@.subrange(at as int, at + E::g2_width())),
        ensures
            point@ == bytes@.subrange(at as int, at + E::g2_width()),
            is_g2::<E>(point@),
    {
        let end = at + E::g2_len();
        G2Point { bytes: slice_to_vec(slice_subrange(bytes, at, end)), engine: PhantomData }
    }

    /// The identity of the group.
    pub fn identity() -> (point: Self)
        ensures
            point@ == E::g2_identity(),
            is_g2::<E>(point@),
    {
        G2Point { bytes: E::identity_g2(), engine: PhantomData }
    }

    /// The point's encoding.
    pub fn as_bytes(&self) -> (bytes: &[u8])
        ensures
            bytes@ == self@,
            is_g2::<E>(self@),
    {
        proof {
            use_type_invariant(self);
        }
        self.bytes.as_slice()
    }

    /// Appends the point's encoding to `out`.
    pub fn write(&self, out: &mut Vec<u8>)
        ensures
            final(out)@ == old(out)@ + self@,
            is_g2::<E>(self@),
    {
        proof {
            use_type_invariant(self);
        }
        let mut copy = slice_to_vec(self.bytes.as_slice());
        out.append(&mut copy);
    }
}

/// The encodings of `points`.
pub open spec fn g1_views<E: Engine>(points: Seq<G1Point<E>>) -> Seq<Seq<u8>> {
    Seq::new(points.len(), |i: int| points[i]@)
}

/// Each item is the encoding of a point of the first source group.
pub open spec fn all_g1<E: Engine>(items: Seq<Seq<u8>>) -> bool {
    forall|i: int| 0 <= i < items.len() ==> is_g1::<E>(#[trigger] items[i])
}

/// Appends the encodings of `points`, one after the other, to `out`.
pub fn write_g1_points<E: Engine>(points: &Vec<G1Point<E>>, out: &mut Vec<u8>)
    ensures
        final(out)@ == old(out)@ + concat(g1_views(points@)),
        all_g1::<E>(g1_views(points@)),
{
    let ghost views = g1_views(points@);
    let mut i: usize = 0;
    assert(concat(views.take(0)) =~= Seq::<u8>::empty());
    assert(out@ =~= old(out)@ + concat(views.take(0)));
    while i < points.len()
        invariant
            i <= points@.len(),
            views == g1_views(points@),
            out@ == old(out)@ + concat(views.take(i as int)),
            forall|j: int| 0 <= j < i ==> is_g1::<E>(#[trigger] views[j]),
        decreases points@.len() - i,
    {
        points[i].write(out);
        proof {
            assert(views.take(i + 1).drop_last() =~= views.take(i as int));
            assert(views.take(i + 1).last() == points@[i as int]@);
            assert(out@ =~= old(out)@ + concat(views.take(i + 1)));
        }
        i = i + 1;
    }
    assert(views.take(points@.len() as int) =~= views);
}

/// The `count` points whose encodings stand one after the other at `at` in
/// `bytes`.
pub(crate) fn read_g1_points<E: Engine>(bytes: &[u8], at: usize, count: u64) -> (points: Vec<G1Point<E>>)
    requires
        at + count * E::g1_width() <= bytes.len(),
        all_g1::<E>(items_at(bytes@, at as int, E::g1_width() as int, count as nat)),
    ensures
        g1_views(points@) == items_at(bytes@, at as int, E::g1_width() as int, count as nat),
        all_g1::<E>(g1_views(points@)),
        points@.len() == count,
{
    let len = bytes.len();
    let w = E::g1_len();
    let ghost found = items_at(bytes@, at as int, w as int, count as nat);
    let mut points: Vec<G1Point<E>> = Vec::new();
    let mut i: u64 = 0;
    let mut pos: usize = at;
    while i < count
        invariant
            i <= count,
            w == E::g1_width(),
            len == bytes@.len(),
            at + count * w <= len,
            pos == at + i * w,
            found == items_at(bytes@, at as int, w as int, count as nat),
            all_g1::<E>(found),
            points@.len() == i,
            forall|j: int| 0 <= j < i ==> (#[trigger] points@[j])@ == found[j],
        decreases count - i,
    {
        proof {
            assert((i + 1) * w <= count * w && (i + 1) * w == i * w + w) by (nonlinear_arith)
                requires
                    i + 1 <= count,
                    w >= 0,
            ;
            assert(found[i as int] == bytes@.subrange(pos as int, pos + w));
        }
        let point = G1Point::<E>::at(bytes, pos);
        points.push(point);
        pos = pos + w;
        i = i + 1;
    }
    assert(g1_views(points@) =~= found);
    points
}

/// The encodings of `points`.
pub open spec fn g2_views<E: Engine>(points: Seq<G2Point<E>>) -> Seq<Seq<u8>> {
    Seq::new(points.len(), |i: int| points[i]@)
}

/// Each item is the encoding of a point of the second source group.
pub open spec fn all_g2<E: Engine>(items: Seq<Seq<u8>>) -> bool {
    forall|i: int| 0 <= i < items.len() ==> is_g2::<E>(#[trigger] items[i])
}

/// Appends the encodings of `points`, one after the other, to `out`.
pub fn write_g2_points<E: Engine>(points: &Vec<G2Point<E>>, out: &mut Vec<u8>)
    ensures
        final(out)@ == old(out)@ + concat(g2_views(points@)),
        all_g2::<E>(g2_views(points@)),
{
    let ghost views = g2_views(points@);
    let mut i: usize = 0;
    assert(concat(views.take(0)) =~= Seq::<u8>::empty());
    assert(out@ =~= old(out)@ + concat(views.take(0)));
    while i < points.len()
        invariant
            i <= points@.len(),
            views == g2_views(points@),
            out@ == old(out)@ + concat(views.take(i as int)),
            forall|j: int| 0 <= j < i ==> is_g2::<E>(#[trigger] views[j]),
        decreases points@.len() - i,
    {
        points[i].write(out);
        proof {
            assert(views.take(i + 1).drop_last() =~= views.take(i as int));
            assert(views.take(i + 1).last() == points@[i as int]@);
            assert(out@ =~= old(out)@ + concat(views.take(i + 1)));
        }
        i = i + 1;
    }
    assert(views.take(points@.len() as int) =~= views);
}

/// The `count` points whose encodings stand one after the other at `at` in
/// `bytes`.
pub(crate) fn read_g2_points<E: Engine>(bytes: &[u8], at: usize, count: u64) -> (points: Vec<G2Point<E>>)
    requires
        at + count * E::g2_width() <= bytes.len(),
        all_g2::<E>(items_at(bytes@, at as int, E::g2_width() as int, count as nat)),
    ensures
        g2_views(points@) == items_at(bytes@, at as int, E::g2_width() as int, count as nat),
        all_g2::<E>(g2_views(points@)),
        points@.len() == count,
{
    let len = bytes.len();
    let w = E::g2_len();
    let ghost found = items_at(bytes@, at as int, w as int, count as nat);
    let mut points: Vec<G2Point<E>> = Vec::new();
    let mut i: u64 = 0;
    let mut pos: usize = at;
    while i < count
        invariant
            i <= count,
            w == E::g2_width(),
            len == bytes@.len(),
            at + count * w <= len,
            pos == at + i * w,
            found == items_at(bytes@, at as int, w as int, count as nat),
            all_g2::<E>(found),
            points@.len() == i,
            forall|j: int| 0 <= j < i ==> (#[trigger] points@[j])@ == found[j],
        decreases count - i,
    {
        proof {
            assert((i + 1) * w <= count * w && (i + 1) * w == i * w + w) by (nonlinear_arith)
                requires
                    i + 1 <= count,
                    w >= 0,
            ;
            assert(found[i as int] == bytes@.subrange(pos as int, pos + w));
        }
        let point = G2Point::<E>::at(bytes, pos);
        points.push(point);
        pos = pos + w;
        i = i + 1;
    }
    assert(g2_views(points@) =~= found);
    points
}

/// A copy of `points`.
pub fn clone_g1_points<E: Engine>(points: &Vec<G1Point<E>>) -> (copy: Vec<G1Point<E>>)
    ensures
        g1_views(copy@) == g1_views(points@),
{
    let mut copy: Vec<G1Point<E>> = Vec::new();
    let mut i: usize = 0;
    while i < points.len()
        invariant
            i <= points@.len(),
            copy@.len() == i,
            forall|j: int| 0 <= j < i ==> (#[trigger] copy@[j])@ == points@[j]@,
        decreases points@.len() - i,
    {
        copy.push(points[i].clone());
        i = i + 1;
    }
    assert(g1_views(copy@) =~= g1_views(points@));
    copy
}

/// A copy of `points`.
pub fn clone_g2_points<E: Engine>(points: &Vec<G2Point<E>>) -> (copy: Vec<G2Point<E>>)
    ensures
        g2_views(copy@) == g2_views(points@),
{
    let mut copy: Vec<G2Point<E>> = Vec::new();
    let mut i: usize = 0;
    while i < points.len()
        invariant
            i <= points@.len(),
            copy@.len() == i,
            forall|j: int| 0 <= j < i ==> (#[trigger] copy@[j])@ == points@[j]@,
        decreases points@.len() - i,
    {
        copy.push(points[i].clone());
        i = i + 1;
    }
    assert(g2_views(copy@) =~= g2_views(points@));
    copy
}

} // verus!
