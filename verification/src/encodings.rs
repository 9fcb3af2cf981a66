//! The sections of each artifact: its elements in the order of its layout.
//! Joined, the sections of a valid artifact are its encoding.
use vstd::prelude::*;

use crate::carve::conforms;
use crate::engine::{is_g1, is_g2, Engine};
use crate::error::Field;
use crate::layout::{
    accepts, concat, item, items, lemma_segment_accepted, lemma_span_step_single,
    lemma_start_within, span, uniform, width, Kind, Segment,
};
use crate::length::{length_bytes, lemma_length_round_trip};
use crate::point::{all_g1, all_g2};
use crate::proving_key::ProvingKeyView;
use crate::sections::{all_accepted, fits, join, sections_of};
use crate::verifying_key::VerifyingKeyView;
use crate::zk_proof::ProofView;

verus! {

/// The section that holds the one element `item`.
pub open spec fn one(item: Seq<u8>) -> Seq<Seq<u8>> {
    seq![item]
}

/// Adding a section that fits a further segment keeps the sections fitting
/// and accepted, and adds its elements to the joined bytes.
pub proof fn lemma_push_section<E: Engine>(
    layout: Seq<Segment>,
    sections: Seq<Seq<Seq<u8>>>,
    segment: Segment,
    section: Seq<Seq<u8>>,
)
    requires
        fits::<E>(layout, sections),
        all_accepted::<E>(layout, sections),
        section.len() == segment.count,
        uniform(section, width::<E>(segment.kind)),
        forall|i: int| 0 <= i < section.len() ==> accepts::<E>(segment.kind, #[trigger] section[i]),
    ensures
        fits::<E>(layout.push(segment), sections.push(section)),
        all_accepted::<E>(layout.push(segment), sections.push(section)),
        join(sections.push(section)) == join(sections) + concat(section),
{
    let longer = layout.push(segment);
    let more = sections.push(section);
    assert(more.drop_last() =~= sections);
    assert forall|k: int| 0 <= k < longer.len() implies (#[trigger] more[k]).len()
        == longer[k].count && uniform(more[k], width::<E>(longer[k].kind)) by {
        if k < layout.len() {
            assert(more[k] == sections[k]);
        }
    }
    assert forall|k: int, i: int|
        0 <= k < longer.len() && 0 <= i < longer[k].count implies accepts::<E>(
        longer[k].kind,
        #[trigger] more[k][i],
    ) by {
        if k < layout.len() {
            assert(more[k][i] == sections[k][i]);
        }
    }
}

/// No sections fit the empty layout.
pub proof fn lemma_no_sections<E: Engine>()
    ensures
        fits::<E>(Seq::<Segment>::empty(), Seq::<Seq<Seq<u8>>>::empty()),
        all_accepted::<E>(Seq::<Segment>::empty(), Seq::<Seq<Seq<u8>>>::empty()),
        join(Seq::<Seq<Seq<u8>>>::empty()) == Seq::<u8>::empty(),
{
}

/// A section of one point of `G1` fits a segment of one element.
pub proof fn lemma_push_g1<E: Engine>(
    layout: Seq<Segment>,
    sections: Seq<Seq<Seq<u8>>>,
    field: Field,
    point: Seq<u8>,
)
    requires
        fits::<E>(layout, sections),
        all_accepted::<E>(layout, sections),
        is_g1::<E>(point),
    ensures
        fits::<E>(
            layout.push(Segment { field, kind: Kind::G1, count: 1 }),
            sections.push(one(point)),
        ),
        all_accepted::<E>(
            layout.push(Segment { field, kind: Kind::G1, count: 1 }),
            sections.push(one(point)),
        ),
        join(sections.push(one(point))) == join(sections) + point,
{
    lemma_push_section::<E>(layout, sections, Segment { field, kind: Kind::G1, count: 1 }, one(point));
    assert(concat(one(point)) =~= point) by {
        assert(one(point).drop_last() =~= Seq::<Seq<u8>>::empty());
        assert(concat(one(point).drop_last()) =~= Seq::<u8>::empty());
    }
}

/// A section of one point of `G2` fits a segment of one element.
pub proof fn lemma_push_g2<E: Engine>(
    layout: Seq<Segment>,
    sections: Seq<Seq<Seq<u8>>>,
    field: Field,
    point: Seq<u8>,
)
    requires
        fits::<E>(layout, sections),
        all_accepted::<E>(layout, sections),
        is_g2::<E>(point),
    ensures
        fits::<E>(
            layout.push(Segment { field, kind: Kind::G2, count: 1 }),
            sections.push(one(point)),
        ),
        all_accepted::<E>(
            layout.push(Segment { field, kind: Kind::G2, count: 1 }),
            sections.push(one(point)),
        ),
        join(sections.push(one(point))) == join(sections) + point,
{
    lemma_push_section::<E>(layout, sections, Segment { field, kind: Kind::G2, count: 1 }, one(point));
    assert(concat(one(point)) =~= point) by {
        assert(one(point).drop_last() =~= Seq::<Seq<u8>>::empty());
        assert(concat(one(point).drop_last()) =~= Seq::<u8>::empty());
    }
}

/// A section of points of `G1` fits a segment that counts them.
pub proof fn lemma_push_g1_points<E: Engine>(
    layout: Seq<Segment>,
    sections: Seq<Seq<Seq<u8>>>,
    field: Field,
    points: Seq<Seq<u8>>,
)
    requires
        fits::<E>(layout, sections),
        all_accepted::<E>(layout, sections),
        all_g1::<E>(points),
        points.len() <= u64::MAX,
    ensures
        fits::<E>(
            layout.push(Segment { field, kind: Kind::G1, count: points.len() as u64 }),
            sections.push(points),
        ),
        all_accepted::<E>(
            layout.push(Segment { field, kind: Kind::G1, count: points.len() as u64 }),
            sections.push(points),
        ),
        join(sections.push(points)) == join(sections) + concat(points),
{
    lemma_push_section::<E>(
        layout,
        sections,
        Segment { field, kind: Kind::G1, count: points.len() as u64 },
        points,
    );
}

/// A section of points of `G2` fits a segment that counts them.
pub proof fn lemma_push_g2_points<E: Engine>(
    layout: Seq<Segment>,
    sections: Seq<Seq<Seq<u8>>>,
    field: Field,
    points: Seq<Seq<u8>>,
)
    requires
        fits::<E>(layout, sections),
        all_accepted::<E>(layout, sections),
        all_g2::<E>(points),
        points.len() <= u64::MAX,
    ensures
        fits::<E>(
            layout.push(Segment { field, kind: Kind::G2, count: points.len() as u64 }),
            sections.push(points),
        ),
        all_accepted::<E>(
            layout.push(Segment { field, kind: Kind::G2, count: points.len() as u64 }),
            sections.push(points),
        ),
        join(sections.push(points)) == join(sections) + concat(points),
{
    lemma_push_section::<E>(
        layout,
        sections,
        Segment { field, kind: Kind::G2, count: points.len() as u64 },
        points,
    );
}

/// The elements of a proof, as sections.
pub open spec fn proof_sections(proof: ProofView) -> Seq<Seq<Seq<u8>>> {
    seq![one(proof.a), one(proof.b), one(proof.c)]
}

/// The sections of a valid proof fit its layout, their elements are
/// accepted, and joined they are its encoding.
pub proof fn lemma_proof_sections<E: Engine>(proof: ProofView)
    requires
        proof.valid::<E>(),
    ensures
        fits::<E>(ProofView::layout(), proof_sections(proof)),
        all_accepted::<E>(ProofView::layout(), proof_sections(proof)),
        join(proof_sections(proof)) == proof.bytes(),
{
    let l0 = Seq::<Segment>::empty();
    let s0 = Seq::<Seq<Seq<u8>>>::empty();
    lemma_no_sections::<E>();
    lemma_push_g1::<E>(l0, s0, Field::A, proof.a);
    let l1 = l0.push(Segment { field: Field::A, kind: Kind::G1, count: 1 });
    let s1 = s0.push(one(proof.a));
    lemma_push_g2::<E>(l1, s1, Field::B, proof.b);
    let l2 = l1.push(Segment { field: Field::B, kind: Kind::G2, count: 1 });
    let s2 = s1.push(one(proof.b));
    lemma_push_g1::<E>(l2, s2, Field::C, proof.c);
    let l3 = l2.push(Segment { field: Field::C, kind: Kind::G1, count: 1 });
    let s3 = s2.push(one(proof.c));
    assert(l3 =~= ProofView::layout());
    assert(s3 =~= proof_sections(proof));
    assert(join(s3) =~= proof.bytes());
}

/// A section of one length fits a segment of one element.
pub proof fn lemma_push_length<E: Engine>(
    layout: Seq<Segment>,
    sections: Seq<Seq<Seq<u8>>>,
    field: Field,
    n: u64,
)
    requires
        fits::<E>(layout, sections),
        all_accepted::<E>(layout, sections),
    ensures
        fits::<E>(
            layout.push(Segment { field, kind: Kind::Length, count: 1 }),
            sections.push(one(length_bytes(n))),
        ),
        all_accepted::<E>(
            layout.push(Segment { field, kind: Kind::Length, count: 1 }),
            sections.push(one(length_bytes(n))),
        ),
        join(sections.push(one(length_bytes(n)))) == join(sections) + length_bytes(n),
{
    lemma_length_round_trip();
    let section = one(length_bytes(n));
    lemma_push_section::<E>(
        layout,
        sections,
        Segment { field, kind: Kind::Length, count: 1 },
        section,
    );
    assert(concat(section) =~= length_bytes(n)) by {
        assert(section.drop_last() =~= Seq::<Seq<u8>>::empty());
        assert(concat(section.drop_last()) =~= Seq::<u8>::empty());
    }
}

/// The four fixed elements of a valid verifying key, as sections.
pub open spec fn fixed_sections(vk: VerifyingKeyView) -> Seq<Seq<Seq<u8>>> {
    seq![one(vk.alpha_g1), one(vk.beta_g2), one(vk.gamma_g2), one(vk.delta_g2)]
}

/// The four fixed elements of a valid verifying key fit the first four
/// segments of its layouts.
pub proof fn lemma_fixed_sections<E: Engine>(vk: VerifyingKeyView)
    requires
        vk.valid::<E>(),
    ensures
        fits::<E>(VerifyingKeyView::fixed_layout(), fixed_sections(vk)),
        all_accepted::<E>(VerifyingKeyView::fixed_layout(), fixed_sections(vk)),
        join(fixed_sections(vk)) == vk.fixed_bytes(),
{
    let l0 = Seq::<Segment>::empty();
    let s0 = Seq::<Seq<Seq<u8>>>::empty();
    lemma_no_sections::<E>();
    lemma_push_g1::<E>(l0, s0, Field::AlphaG1, vk.alpha_g1);
    let l1 = l0.push(Segment { field: Field::AlphaG1, kind: Kind::G1, count: 1 });
    let s1 = s0.push(one(vk.alpha_g1));
    lemma_push_g2::<E>(l1, s1, Field::BetaG2, vk.beta_g2);
    let l2 = l1.push(Segment { field: Field::BetaG2, kind: Kind::G2, count: 1 });
    let s2 = s1.push(one(vk.beta_g2));
    lemma_push_g2::<E>(l2, s2, Field::GammaG2, vk.gamma_g2);
    let l3 = l2.push(Segment { field: Field::GammaG2, kind: Kind::G2, count: 1 });
    let s3 = s2.push(one(vk.gamma_g2));
    lemma_push_g2::<E>(l3, s3, Field::DeltaG2, vk.delta_g2);
    let l4 = l3.push(Segment { field: Field::DeltaG2, kind: Kind::G2, count: 1 });
    let s4 = s3.push(one(vk.delta_g2));
    assert(l4 =~= VerifyingKeyView::fixed_layout());
    assert(s4 =~= fixed_sections(vk));
    assert(join(s4) =~= vk.fixed_bytes());
}

/// The key that is carved out of bytes whose sections are known.
pub proof fn lemma_carved_key<E: Engine>(
    bytes: Seq<u8>,
    layout: Seq<Segment>,
    k: int,
    vk: VerifyingKeyView,
)
    requires
        4 <= k < layout.len(),
        layout.take(4) == VerifyingKeyView::fixed_layout(),
        sections_of::<E>(bytes, layout).take(4) == fixed_sections(vk),
        sections_of::<E>(bytes, layout)[k] == vk.gamma_abc_g1,
    ensures
        VerifyingKeyView::carve::<E>(bytes, layout, k) == vk,
{
    let found = sections_of::<E>(bytes, layout);
    let fixed = VerifyingKeyView::fixed_layout();
    assert forall|j: int| 0 <= j < 4 implies layout[j].count == 1 by {
        assert(layout[j] == layout.take(4)[j]);
        assert(fixed[j].count == 1);
    }
    assert forall|j: int| 0 <= j < 4 implies #[trigger] item::<E>(bytes, layout, j, 0)
        == fixed_sections(vk)[j][0] by {
        lemma_one_item::<E>(bytes, layout, j);
        assert(found[j] == found.take(4)[j]);
    }
    assert(item::<E>(bytes, layout, 0, 0) == vk.alpha_g1);
    assert(item::<E>(bytes, layout, 1, 0) == vk.beta_g2);
    assert(item::<E>(bytes, layout, 2, 0) == vk.gamma_g2);
    assert(item::<E>(bytes, layout, 3, 0) == vk.delta_g2);
    assert(items::<E>(bytes, layout, k) == found[k]);
}

/// The sections of a valid proving key fit the layout of its size, and
/// joined they are its encoding.
pub open spec fn proving_key_sections(pk: ProvingKeyView) -> Seq<Seq<Seq<u8>>> {
    fixed_sections(pk.vk).push(pk.vk.gamma_abc_g1).push(one(pk.beta_g1)).push(one(pk.delta_g1)).push(
        pk.a_query,
    ).push(pk.b_g1_query).push(pk.b_g2_query).push(pk.h_query).push(pk.l_query)
}

/// The sections of a valid proving key fit the layout of its size, their
/// elements are accepted, and joined they are its encoding.
pub proof fn lemma_proving_key_sections<E: Engine>(pk: ProvingKeyView)
    requires
        pk.valid::<E>(),
    ensures
        fits::<E>(ProvingKeyView::layout(pk.size()), proving_key_sections(pk)),
        all_accepted::<E>(ProvingKeyView::layout(pk.size()), proving_key_sections(pk)),
        join(proving_key_sections(pk)) == pk.bytes(),
{
    let size = pk.size();
    let l4 = VerifyingKeyView::fixed_layout();
    let s4 = fixed_sections(pk.vk);
    lemma_fixed_sections::<E>(pk.vk);
    lemma_push_g1_points::<E>(l4, s4, Field::GammaAbcG1, pk.vk.gamma_abc_g1);
    let l5 = l4.push(Segment { field: Field::GammaAbcG1, kind: Kind::G1, count: size.vk_len as u64 });
    let s5 = s4.push(pk.vk.gamma_abc_g1);
    lemma_push_g1::<E>(l5, s5, Field::BetaG1, pk.beta_g1);
    let l6 = l5.push(Segment { field: Field::BetaG1, kind: Kind::G1, count: 1 });
    let s6 = s5.push(one(pk.beta_g1));
    lemma_push_g1::<E>(l6, s6, Field::DeltaG1, pk.delta_g1);
    let l7 = l6.push(Segment { field: Field::DeltaG1, kind: Kind::G1, count: 1 });
    let s7 = s6.push(one(pk.delta_g1));
    lemma_push_g1_points::<E>(l7, s7, Field::AQuery, pk.a_query);
    let l8 = l7.push(Segment { field: Field::AQuery, kind: Kind::G1, count: size.a_len as u64 });
    let s8 = s7.push(pk.a_query);
    lemma_push_g1_points::<E>(l8, s8, Field::BG1Query, pk.b_g1_query);
    let l9 = l8.push(Segment { field: Field::BG1Query, kind: Kind::G1, count: size.b_g1_len as u64 });
    let s9 = s8.push(pk.b_g1_query);
    lemma_push_g2_points::<E>(l9, s9, Field::BG2Query, pk.b_g2_query);
    let l10 = l9.push(
        Segment { field: Field::BG2Query, kind: Kind::G2, count: size.b_g2_len as u64 },
    );
    let s10 = s9.push(pk.b_g2_query);
    lemma_push_g1_points::<E>(l10, s10, Field::HQuery, pk.h_query);
    let l11 = l10.push(Segment { field: Field::HQuery, kind: Kind::G1, count: size.h_len as u64 });
    let s11 = s10.push(pk.h_query);
    lemma_push_g1_points::<E>(l11, s11, Field::LQuery, pk.l_query);
    let l12 = l11.push(Segment { field: Field::LQuery, kind: Kind::G1, count: size.l_len as u64 });
    let s12 = s11.push(pk.l_query);
    assert(l12 =~= ProvingKeyView::layout(size));
    assert(s12 =~= proving_key_sections(pk));
    assert(join(s12) =~= pk.bytes());
}

/// A section of one element is the elements of a segment that counts one.
pub proof fn lemma_one_item<E: Engine>(bytes: Seq<u8>, layout: Seq<Segment>, k: int)
    requires
        0 <= k < layout.len(),
        layout[k].count == 1,
    ensures
        one(item::<E>(bytes, layout, k, 0)) == items::<E>(bytes, layout, k),
        item::<E>(bytes, layout, k, 0) == items::<E>(bytes, layout, k)[0],
{
    assert(one(item::<E>(bytes, layout, k, 0)) =~= items::<E>(bytes, layout, k));
}

/// The points of `G1` that stand in a segment of an input that conforms to
/// its layout.
pub proof fn lemma_g1_segment<E: Engine>(bytes: Seq<u8>, layout: Seq<Segment>, k: int)
    requires
        conforms::<E>(bytes, layout),
        0 <= k < layout.len(),
        layout[k].kind == Kind::G1,
    ensures
        all_g1::<E>(items::<E>(bytes, layout, k)),
        items::<E>(bytes, layout, k).len() == layout[k].count,
        layout[k].count == 1 ==> is_g1::<E>(item::<E>(bytes, layout, k, 0)),
{
    lemma_segment_accepted::<E>(bytes, layout, k);
    if layout[k].count == 1 {
        assert(items::<E>(bytes, layout, k)[0] == item::<E>(bytes, layout, k, 0));
    }
}

/// The points of `G2` that stand in a segment of an input that conforms to
/// its layout.
pub proof fn lemma_g2_segment<E: Engine>(bytes: Seq<u8>, layout: Seq<Segment>, k: int)
    requires
        conforms::<E>(bytes, layout),
        0 <= k < layout.len(),
        layout[k].kind == Kind::G2,
    ensures
        all_g2::<E>(items::<E>(bytes, layout, k)),
        items::<E>(bytes, layout, k).len() == layout[k].count,
        layout[k].count == 1 ==> is_g2::<E>(item::<E>(bytes, layout, k, 0)),
{
    lemma_segment_accepted::<E>(bytes, layout, k);
    if layout[k].count == 1 {
        assert(items::<E>(bytes, layout, k)[0] == item::<E>(bytes, layout, k, 0));
    }
}

/// The one element of a segment of an input that holds all of its layout
/// has the width of its kind.
pub proof fn lemma_single_item_width<E: Engine>(bytes: Seq<u8>, layout: Seq<Segment>, k: int)
    requires
        span::<E>(layout) <= bytes.len(),
        0 <= k < layout.len(),
        layout[k].count == 1,
    ensures
        item::<E>(bytes, layout, k, 0).len() == width::<E>(layout[k].kind),
{
    lemma_span_step_single::<E>(layout, k);
    lemma_start_within::<E>(layout, k + 1);
}

} // verus!
