//! How the elements of a layout and the bytes that encode them determine
//! each other.
use vstd::prelude::*;

use crate::engine::Engine;
use crate::error::DecodeError;
use crate::layout::{
    accepts, concat, first_rejected, first_rejected_item, items, items_at, layout_error,
    lemma_concat_len, lemma_concat_of_items, lemma_first_rejected_item_prefix,
    lemma_first_rejected_prefix, lemma_first_rejected_step, lemma_first_short_none,
    lemma_items_of_concat, lemma_span_step, lemma_start_within, span, start, uniform, width, Kind,
    Segment,
};

verus! {

/// The elements of each section, one section after the other.
pub open spec fn join(sections: Seq<Seq<Seq<u8>>>) -> Seq<u8>
    decreases sections.len(),
{
    if sections.len() == 0 {
        Seq::empty()
    } else {
        join(sections.drop_last()) + concat(sections.last())
    }
}

/// There is one section for each segment of `layout`, with as many elements
/// as the segment counts, each of the width of its kind.
pub open spec fn fits<E: Engine>(layout: Seq<Segment>, sections: Seq<Seq<Seq<u8>>>) -> bool {
    &&& sections.len() == layout.len()
    &&& forall|k: int|
        0 <= k < layout.len() ==> (#[trigger] sections[k]).len() == layout[k].count && uniform(
            sections[k],
            width::<E>(layout[k].kind),
        )
}

/// The sections that stand in `bytes`, laid out as `layout` says.
pub open spec fn sections_of<E: Engine>(bytes: Seq<u8>, layout: Seq<Segment>) -> Seq<Seq<Seq<u8>>> {
    Seq::new(layout.len(), |k: int| items::<E>(bytes, layout, k))
}

/// Sections that fit a layout take its span when joined, and each is found
/// again in the bytes, whatever follows them.
pub proof fn lemma_sections_found<E: Engine>(
    layout: Seq<Segment>,
    sections: Seq<Seq<Seq<u8>>>,
    tail: Seq<u8>,
)
    requires
        fits::<E>(layout, sections),
    ensures
        join(sections).len() == span::<E>(layout),
        forall|k: int|
            0 <= k < layout.len() ==> #[trigger] items::<E>(join(sections) + tail, layout, k)
                == sections[k],
    decreases layout.len(),
{
    if layout.len() > 0 {
        let n = layout.len() - 1;
        let head = layout.drop_last();
        let before = sections.drop_last();
        let last = sections.last();
        let w = width::<E>(layout[n].kind);
        let bytes = join(sections) + tail;
        assert(last == sections[n]);
        assert forall|k: int| 0 <= k < head.len() implies (#[trigger] before[k]).len()
            == head[k].count && uniform(before[k], width::<E>(head[k].kind)) by {
            assert(before[k] == sections[k]);
        }
        lemma_sections_found::<E>(head, before, concat(last) + tail);
        lemma_concat_len(last, w);
        assert(bytes =~= join(before) + (concat(last) + tail));
        assert(bytes =~= join(before) + concat(last) + tail);
        assert forall|k: int| 0 <= k < layout.len() implies #[trigger] items::<E>(bytes, layout, k)
            == sections[k] by {
            if k < n {
                assert(layout.take(k) =~= head.take(k));
                assert(items::<E>(bytes, head, k) == before[k]);
                assert(before[k] == sections[k]);
            } else {
                assert(layout.take(n) =~= head);
                lemma_items_of_concat(join(before), last, tail, w);
            }
        }
    }
}

/// Where none of `n` elements is rejected, no rejected element is found.
pub proof fn lemma_no_item_rejected<E: Engine>(bytes: Seq<u8>, at: int, kind: Kind, n: nat)
    requires
        forall|i: int|
            0 <= i < n ==> accepts::<E>(kind, #[trigger] items_at(bytes, at, width::<E>(kind) as int, n)[i]),
    ensures
        first_rejected_item::<E>(bytes, at, kind, n) is None,
    decreases n,
{
    if n > 0 {
        let w = width::<E>(kind) as int;
        let m = (n - 1) as nat;
        assert forall|i: int| 0 <= i < m implies accepts::<E>(
            kind,
            #[trigger] items_at(bytes, at, w, m)[i],
        ) by {
            assert(items_at(bytes, at, w, m)[i] == items_at(bytes, at, w, n)[i]);
        }
        lemma_no_item_rejected::<E>(bytes, at, kind, m);
        assert(items_at(bytes, at, w, n)[n - 1] == bytes.subrange(at + (n - 1) * w, at + n * w));
    }
}

/// Where every element of the first `k` segments is accepted, no rejected
/// element is found in them.
pub proof fn lemma_none_rejected<E: Engine>(bytes: Seq<u8>, layout: Seq<Segment>, k: int)
    requires
        0 <= k <= layout.len(),
        forall|j: int, i: int|
            0 <= j < k && 0 <= i < layout[j].count ==> accepts::<E>(
                layout[j].kind,
                #[trigger] items::<E>(bytes, layout, j)[i],
            ),
    ensures
        first_rejected::<E>(bytes, layout.take(k)) is None,
    decreases k,
{
    if k > 0 {
        lemma_none_rejected::<E>(bytes, layout, k - 1);
        lemma_first_rejected_step::<E>(bytes, layout, k - 1);
        let j = k - 1;
        assert forall|i: int| 0 <= i < layout[j].count implies accepts::<E>(
            layout[j].kind,
            #[trigger] items_at(
                bytes,
                start::<E>(layout, j) as int,
                width::<E>(layout[j].kind) as int,
                layout[j].count as nat,
            )[i],
        ) by {
            assert(accepts::<E>(layout[j].kind, items::<E>(bytes, layout, j)[i]));
        }
        lemma_no_item_rejected::<E>(
            bytes,
            start::<E>(layout, j) as int,
            layout[j].kind,
            layout[j].count as nat,
        );
    } else {
        assert(layout.take(0).len() == 0);
    }
}

/// Where element `i` of segment `k` is rejected and every element before it
/// is accepted, it is the first rejected element.
pub proof fn lemma_first_rejected_is<E: Engine>(bytes: Seq<u8>, layout: Seq<Segment>, k: int, i: int)
    requires
        0 <= k < layout.len(),
        0 <= i < layout[k].count,
        forall|j: int, h: int|
            0 <= j < k && 0 <= h < layout[j].count ==> accepts::<E>(
                layout[j].kind,
                #[trigger] items::<E>(bytes, layout, j)[h],
            ),
        forall|h: int|
            0 <= h < i ==> accepts::<E>(layout[k].kind, #[trigger] items::<E>(bytes, layout, k)[h]),
        !accepts::<E>(layout[k].kind, items::<E>(bytes, layout, k)[i]),
    ensures
        first_rejected::<E>(bytes, layout) == Some((k, i)),
{
    let w = width::<E>(layout[k].kind) as int;
    let at = start::<E>(layout, k) as int;
    let n = layout[k].count as nat;
    lemma_none_rejected::<E>(bytes, layout, k);
    lemma_first_rejected_step::<E>(bytes, layout, k);
    assert forall|h: int| 0 <= h < i implies accepts::<E>(
        layout[k].kind,
        #[trigger] items_at(bytes, at, w, i as nat)[h],
    ) by {
        assert(items_at(bytes, at, w, i as nat)[h] == items::<E>(bytes, layout, k)[h]);
    }
    lemma_no_item_rejected::<E>(bytes, at, layout[k].kind, i as nat);
    assert(items::<E>(bytes, layout, k)[i] == bytes.subrange(at + i * w, at + (i + 1) * w));
    lemma_first_rejected_item_prefix::<E>(bytes, at, layout[k].kind, i, n);
    lemma_first_rejected_prefix::<E>(bytes, layout, k + 1);
}

/// The sections that stand in a byte string that holds all of a layout fit
/// the layout, and joined they are the part of the string that the layout
/// spans.
pub proof fn lemma_sections_joined<E: Engine>(bytes: Seq<u8>, layout: Seq<Segment>)
    requires
        span::<E>(layout) <= bytes.len(),
    ensures
        fits::<E>(layout, sections_of::<E>(bytes, layout)),
        join(sections_of::<E>(bytes, layout)) == bytes.subrange(0, span::<E>(layout) as int),
    decreases layout.len(),
{
    let sections = sections_of::<E>(bytes, layout);
    assert forall|k: int| 0 <= k < layout.len() implies (#[trigger] sections[k]).len()
        == layout[k].count && uniform(sections[k], width::<E>(layout[k].kind)) by {
        lemma_span_step::<E>(layout, k);
        lemma_start_within::<E>(layout, k + 1);
        let w = width::<E>(layout[k].kind) as int;
        let n = layout[k].count as int;
        assert forall|i: int| 0 <= i < n implies (#[trigger] sections[k][i]).len() == w by {
            assert(0 <= i * w && (i + 1) * w <= n * w && (i + 1) * w == i * w + w)
                by (nonlinear_arith)
                requires
                    0 <= i < n,
                    w >= 0,
            ;
        }
    }
    if layout.len() == 0 {
        assert(join(sections) =~= bytes.subrange(0, 0));
    } else {
        let n = layout.len() - 1;
        let head = layout.drop_last();
        assert(layout.take(n) =~= head);
        lemma_sections_joined::<E>(bytes, head);
        assert forall|k: int| 0 <= k < n implies sections_of::<E>(bytes, head)[k] == sections[k] by {
            assert(layout.take(k) =~= head.take(k));
        }
        assert(sections.drop_last() =~= sections_of::<E>(bytes, head));
        lemma_concat_of_items(
            bytes,
            span::<E>(head) as int,
            width::<E>(layout[n].kind),
            layout[n].count as nat,
        );
        assert(join(sections) =~= bytes.subrange(0, span::<E>(layout) as int));
    }
}

/// Each element of each section is accepted as an element of the kind of
/// its segment.
pub open spec fn all_accepted<E: Engine>(layout: Seq<Segment>, sections: Seq<Seq<Seq<u8>>>) -> bool {
    forall|k: int, i: int|
        0 <= k < layout.len() && 0 <= i < layout[k].count ==> accepts::<E>(
            layout[k].kind,
            #[trigger] sections[k][i],
        )
}

/// Sections that fit a layout and whose elements are all accepted make,
/// joined, an encoding of the layout in which no error is found, whatever
/// follows them where the input need not end with the last element.
pub proof fn lemma_joined_conforms<E: Engine>(
    layout: Seq<Segment>,
    sections: Seq<Seq<Seq<u8>>>,
    tail: Seq<u8>,
    exact: bool,
)
    requires
        fits::<E>(layout, sections),
        all_accepted::<E>(layout, sections),
        exact ==> tail.len() == 0,
    ensures
        layout_error::<E>(join(sections) + tail, layout, exact) is None,
        sections_of::<E>(join(sections) + tail, layout) == sections,
        join(sections).len() == span::<E>(layout),
{
    let bytes = join(sections) + tail;
    lemma_sections_found::<E>(layout, sections, tail);
    lemma_first_short_none::<E>(layout, bytes.len());
    assert forall|j: int, i: int| 0 <= j < layout.len() && 0 <= i < layout[j].count implies accepts::<
        E,
    >(layout[j].kind, #[trigger] items::<E>(bytes, layout, j)[i]) by {
        assert(items::<E>(bytes, layout, j) == sections[j]);
        assert(accepts::<E>(layout[j].kind, sections[j][i]));
    }
    lemma_none_rejected::<E>(bytes, layout, layout.len() as int);
    assert(layout.take(layout.len() as int) =~= layout);
    assert(sections_of::<E>(bytes, layout) =~= sections);
}

/// An input that conforms to a layout up to element `i` of segment `k`,
/// which is rejected, is malformed there.
pub proof fn lemma_malformed_at<E: Engine>(
    bytes: Seq<u8>,
    layout: Seq<Segment>,
    exact: bool,
    k: int,
    i: int,
)
    requires
        0 <= k < layout.len(),
        0 <= i < layout[k].count,
        span::<E>(layout) <= bytes.len(),
        exact ==> span::<E>(layout) == bytes.len(),
        forall|j: int, h: int|
            0 <= j < k && 0 <= h < layout[j].count ==> accepts::<E>(
                layout[j].kind,
                #[trigger] items::<E>(bytes, layout, j)[h],
            ),
        forall|h: int|
            0 <= h < i ==> accepts::<E>(layout[k].kind, #[trigger] items::<E>(bytes, layout, k)[h]),
        !accepts::<E>(layout[k].kind, items::<E>(bytes, layout, k)[i]),
    ensures
        layout_error::<E>(bytes, layout, exact) == Some(DecodeError::malformed(layout[k].field, i)),
{
    lemma_first_short_none::<E>(layout, bytes.len());
    lemma_first_rejected_is::<E>(bytes, layout, k, i);
}

} // verus!
