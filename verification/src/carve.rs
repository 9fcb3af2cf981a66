//! Taking the elements out of a byte string that has been checked against a
//! layout.
use vstd::prelude::*;

use crate::engine::{is_g1, is_g2, Engine};
use crate::layout::{
    first_rejected, item, items, kind_len, lemma_first_short_none, lemma_segment_accepted,
    lemma_span_step, lemma_span_step_single, lemma_start_first, lemma_start_within, layout_error,
    span, start, Kind, Segment,
};
use crate::length::{length_value, read_length};
use crate::point::{
    all_g1, all_g2, g1_views, g2_views, read_g1_points, read_g2_points, G1Point, G2Point,
};

verus! {

/// `bytes` hold every element of `layout` in full, and each is accepted.
pub open spec fn conforms<E: Engine>(bytes: Seq<u8>, layout: Seq<Segment>) -> bool {
    span::<E>(layout) <= bytes.len() && first_rejected::<E>(bytes, layout) is None
}

/// `offsets` holds the start of each segment of `layout`, and its end.
pub open spec fn starts_of<E: Engine>(layout: Seq<Segment>, offsets: Seq<usize>) -> bool {
    &&& offsets.len() == layout.len() + 1
    &&& forall|k: int| 0 <= k <= layout.len() ==> #[trigger] offsets[k] == start::<E>(layout, k)
}

/// An input in which the check of a layout finds no error conforms to it.
pub proof fn lemma_checked_conforms<E: Engine>(bytes: Seq<u8>, layout: Seq<Segment>, exact: bool)
    requires
        layout_error::<E>(bytes, layout, exact) is None,
    ensures
        conforms::<E>(bytes, layout),
        exact && layout.len() > 0 ==> span::<E>(layout) == bytes.len(),
{
    lemma_first_short_none::<E>(layout, bytes.len());
}

/// The start of each segment of `layout`, and its end.
pub(crate) fn offsets<E: Engine>(layout: &Vec<Segment>) -> (offsets: Vec<usize>)
    requires
        span::<E>(layout@) <= usize::MAX,
    ensures
        starts_of::<E>(layout@, offsets@),
{
    let mut offsets: Vec<usize> = Vec::new();
    let mut at: usize = 0;
    let mut k: usize = 0;
    offsets.push(0);
    proof {
        lemma_start_first::<E>(layout@);
    }
    while k < layout.len()
        invariant
            k <= layout@.len(),
            span::<E>(layout@) <= usize::MAX,
            at == start::<E>(layout@, k as int),
            offsets@.len() == k + 1,
            forall|j: int| 0 <= j <= k ==> #[trigger] offsets@[j] == start::<E>(layout@, j),
        decreases layout@.len() - k,
    {
        let segment = layout[k];
        let w = kind_len::<E>(segment.kind);
        proof {
            lemma_span_step::<E>(layout@, k as int);
            lemma_start_within::<E>(layout@, k + 1);
            assert(segment.count * w <= 0xffff_ffff_ffff_ffff * 0xffff_ffff_ffff_ffff)
                by (nonlinear_arith)
                requires
                    segment.count <= 0xffff_ffff_ffff_ffff,
                    w <= 0xffff_ffff_ffff_ffff,
            ;
        }
        let need: u128 = segment.count as u128 * w as u128;
        at = at + need as usize;
        offsets.push(at);
        k = k + 1;
    }
    offsets
}

/// The point of `G1` that is the one element of segment `k`.
pub(crate) fn g1_at<E: Engine>(bytes: &[u8], layout: &Vec<Segment>, offsets: &Vec<usize>, k: usize) -> (point:
    G1Point<E>)
    requires
        conforms::<E>(bytes@, layout@),
        starts_of::<E>(layout@, offsets@),
        k < layout@.len(),
        layout@[k as int].kind == Kind::G1,
        layout@[k as int].count == 1,
    ensures
        point@ == item::<E>(bytes@, layout@, k as int, 0),
        is_g1::<E>(point@),
{
    proof {
        lemma_segment_accepted::<E>(bytes@, layout@, k as int);
        lemma_span_step_single::<E>(layout@, k as int);
        lemma_start_within::<E>(layout@, k + 1);
        assert(items::<E>(bytes@, layout@, k as int)[0] == item::<E>(bytes@, layout@, k as int, 0));
    }
    G1Point::<E>::at(bytes, offsets[k])
}

/// The point of `G2` that is the one element of segment `k`.
pub(crate) fn g2_at<E: Engine>(bytes: &[u8], layout: &Vec<Segment>, offsets: &Vec<usize>, k: usize) -> (point:
    G2Point<E>)
    requires
        conforms::<E>(bytes@, layout@),
        starts_of::<E>(layout@, offsets@),
        k < layout@.len(),
        layout@[k as int].kind == Kind::G2,
        layout@[k as int].count == 1,
    ensures
        point@ == item::<E>(bytes@, layout@, k as int, 0),
        is_g2::<E>(point@),
{
    proof {
        lemma_segment_accepted::<E>(bytes@, layout@, k as int);
        lemma_span_step_single::<E>(layout@, k as int);
        lemma_start_within::<E>(layout@, k + 1);
        assert(items::<E>(bytes@, layout@, k as int)[0] == item::<E>(bytes@, layout@, k as int, 0));
    }
    G2Point::<E>::at(bytes, offsets[k])
}

/// The length that is the one element of segment `k`.
pub(crate) fn length_at<E: Engine>(bytes: &[u8], layout: &Vec<Segment>, offsets: &Vec<usize>, k: usize) -> (n:
    u64)
    requires
        span::<E>(layout@) <= bytes@.len(),
        starts_of::<E>(layout@, offsets@),
        k < layout@.len(),
        layout@[k as int].kind == Kind::Length,
        layout@[k as int].count == 1,
    ensures
        n == length_value(item::<E>(bytes@, layout@, k as int, 0)),
{
    proof {
        lemma_span_step_single::<E>(layout@, k as int);
        lemma_start_within::<E>(layout@, k + 1);
    }
    read_length(bytes, offsets[k])
}

/// The points of `G1` that are the elements of segment `k`.
pub(crate) fn g1_points_at<E: Engine>(
    bytes: &[u8],
    layout: &Vec<Segment>,
    offsets: &Vec<usize>,
    k: usize,
) -> (points: Vec<G1Point<E>>)
    requires
        conforms::<E>(bytes@, layout@),
        starts_of::<E>(layout@, offsets@),
        k < layout@.len(),
        layout@[k as int].kind == Kind::G1,
    ensures
        g1_views(points@) == items::<E>(bytes@, layout@, k as int),
        all_g1::<E>(g1_views(points@)),
        points@.len() == layout@[k as int].count,
{
    proof {
        lemma_segment_accepted::<E>(bytes@, layout@, k as int);
    }
    read_g1_points::<E>(bytes, offsets[k], layout[k].count)
}

/// The points of `G2` that are the elements of segment `k`.
pub(crate) fn g2_points_at<E: Engine>(
    bytes: &[u8],
    layout: &Vec<Segment>,
    offsets: &Vec<usize>,
    k: usize,
) -> (points: Vec<G2Point<E>>)
    requires
        conforms::<E>(bytes@, layout@),
        starts_of::<E>(layout@, offsets@),
        k < layout@.len(),
        layout@[k as int].kind == Kind::G2,
    ensures
        g2_views(points@) == items::<E>(bytes@, layout@, k as int),
        all_g2::<E>(g2_views(points@)),
        points@.len() == layout@[k as int].count,
{
    proof {
        lemma_segment_accepted::<E>(bytes@, layout@, k as int);
    }
    read_g2_points::<E>(bytes, offsets[k], layout[k].count)
}

} // verus!
