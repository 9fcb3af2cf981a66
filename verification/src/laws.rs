//! What holds of the codecs: an encoded artifact decodes to itself and to
//! nothing else, a wrong size record is found out, and a rejected element is
//! reported where it stands.
use vstd::prelude::*;
use vstd::std_specs::convert::FromSpec;

use crate::carve::lemma_checked_conforms;
use crate::encodings::{
    fixed_sections, lemma_carved_key, lemma_fixed_sections, lemma_g1_segment, lemma_g2_segment,
    lemma_one_item, lemma_proof_sections, lemma_proving_key_sections, lemma_push_g1_points,
    lemma_push_length, lemma_single_item_width, one, proof_sections, proving_key_sections,
};
use crate::engine::Engine;
use crate::error::{fails_with, DecodeError, ErrorKind, Field};
use crate::key_size::KeySize;
use crate::layout::{
    accepts, concat, item, items, layout_error, lemma_accepted, lemma_concat_len,
    lemma_first_short_none, lemma_span_step, lemma_span_step_single, lemma_start_first,
    lemma_start_last, lemma_start_within, span, start, truncation, uniform, width, Kind, Segment,
};
use crate::length::{length_bytes, lemma_length_round_trip};
use crate::prepared::{PreparedVerifyingKey, PreparedVerifyingKeyView};
use crate::proving_key::ProvingKeyView;
use crate::sections::{
    join, lemma_joined_conforms, lemma_malformed_at, lemma_sections_joined, sections_of,
};
use crate::verifying_key::{VerifyingKey, VerifyingKeyView};
use crate::zk_proof::ProofView;

verus! {

/// A valid proof, encoded, decodes to itself, whatever follows it.
pub proof fn law_proof_round_trip<E: Engine>(proof: ProofView, tail: Seq<u8>)
    requires
        proof.valid::<E>(),
    ensures
        ProofView::decode::<E>(proof.bytes() + tail) == Ok::<ProofView, DecodeError>(proof),
        proof.bytes().len() == span::<E>(ProofView::layout()),
{
    let layout = ProofView::layout();
    let sections = proof_sections(proof);
    lemma_proof_sections::<E>(proof);
    lemma_joined_conforms::<E>(layout, sections, tail, false);
    let bytes = proof.bytes() + tail;
    assert(sections_of::<E>(bytes, layout)[0] == sections[0]);
    assert(sections_of::<E>(bytes, layout)[1] == sections[1]);
    assert(sections_of::<E>(bytes, layout)[2] == sections[2]);
    lemma_one_item::<E>(bytes, layout, 0);
    lemma_one_item::<E>(bytes, layout, 1);
    lemma_one_item::<E>(bytes, layout, 2);
}

/// A valid verifying key, written in the compact encoding, is read back as
/// itself under the length of its vector, whatever follows it.
pub proof fn law_verifying_key_read_round_trip<E: Engine>(vk: VerifyingKeyView, tail: Seq<u8>)
    requires
        vk.valid::<E>(),
    ensures
        VerifyingKeyView::read::<E>(vk.compact_bytes() + tail, vk.gamma_abc_g1.len() as u64) == Ok::<
            VerifyingKeyView,
            DecodeError,
        >(vk),
        vk.compact_bytes().len() == span::<E>(
            VerifyingKeyView::compact_layout(vk.gamma_abc_g1.len() as u64),
        ),
{
    let len = vk.gamma_abc_g1.len() as u64;
    let l4 = VerifyingKeyView::fixed_layout();
    let s4 = fixed_sections(vk);
    lemma_fixed_sections::<E>(vk);
    lemma_push_g1_points::<E>(l4, s4, Field::GammaAbcG1, vk.gamma_abc_g1);
    let l5 = l4.push(Segment { field: Field::GammaAbcG1, kind: Kind::G1, count: len });
    let s5 = s4.push(vk.gamma_abc_g1);
    assert(l5 =~= VerifyingKeyView::compact_layout(len));
    lemma_joined_conforms::<E>(l5, s5, tail, false);
    let bytes = vk.compact_bytes() + tail;
    assert(l5.take(4) =~= l4);
    assert(s5.take(4) =~= s4);
    lemma_carved_key::<E>(bytes, l5, 4, vk);
}

/// A valid verifying key, encoded in the self-describing encoding, decodes
/// to itself, whatever follows it, and the decoder reads just the encoding.
pub proof fn law_verifying_key_round_trip<E: Engine>(vk: VerifyingKeyView, tail: Seq<u8>)
    requires
        vk.valid::<E>(),
    ensures
        VerifyingKeyView::decode::<E>(vk.bytes() + tail) == Ok::<VerifyingKeyView, DecodeError>(vk),
        VerifyingKeyView::decoded_len::<E>(vk.bytes() + tail) == vk.bytes().len(),
{
    let len = vk.gamma_abc_g1.len() as u64;
    let header = VerifyingKeyView::header_layout();
    let l4 = VerifyingKeyView::fixed_layout();
    let s4 = fixed_sections(vk);
    lemma_fixed_sections::<E>(vk);
    lemma_push_length::<E>(l4, s4, Field::GammaAbcLen, len);
    let l5 = l4.push(Segment { field: Field::GammaAbcLen, kind: Kind::Length, count: 1 });
    let s5 = s4.push(one(length_bytes(len)));
    assert(l5 =~= header);
    lemma_push_g1_points::<E>(l5, s5, Field::GammaAbcG1, vk.gamma_abc_g1);
    let l6 = l5.push(Segment { field: Field::GammaAbcG1, kind: Kind::G1, count: len });
    let s6 = s5.push(vk.gamma_abc_g1);
    assert(l6 =~= VerifyingKeyView::layout(len));
    assert(join(s6) =~= vk.bytes());
    lemma_joined_conforms::<E>(l6, s6, tail, false);
    let bytes = vk.bytes() + tail;
    assert(l6.take(5) =~= header);
    lemma_start_within::<E>(l6, 5);
    lemma_first_short_none::<E>(header, bytes.len());
    assert(header.take(4) =~= l6.take(4));
    assert(item::<E>(bytes, header, 4, 0) == item::<E>(bytes, l6, 4, 0));
    lemma_one_item::<E>(bytes, l6, 4);
    assert(sections_of::<E>(bytes, l6)[4] == s6[4]);
    lemma_length_round_trip();
    assert(VerifyingKeyView::declared_len::<E>(bytes) == len);
    assert(s6.take(4) =~= s4);
    assert(l6.take(4) =~= l4);
    lemma_carved_key::<E>(bytes, l6, 5, vk);
}

/// The encoding of a valid proving key is as long as the layout of its size
/// spans.
pub proof fn law_proving_key_encoded_len<E: Engine>(pk: ProvingKeyView)
    requires
        pk.valid::<E>(),
    ensures
        pk.bytes().len() == span::<E>(ProvingKeyView::layout(pk.size())),
{
    lemma_proving_key_sections::<E>(pk);
    lemma_joined_conforms::<E>(
        ProvingKeyView::layout(pk.size()),
        proving_key_sections(pk),
        Seq::empty(),
        true,
    );
}

/// A valid proving key, written, is read back as itself under its own size
/// record, whatever the lengths of its vectors.
pub proof fn law_proving_key_round_trip<E: Engine>(pk: ProvingKeyView)
    requires
        pk.valid::<E>(),
    ensures
        ProvingKeyView::read::<E>(pk.bytes(), pk.size()) == Ok::<ProvingKeyView, DecodeError>(pk),
{
    let layout = ProvingKeyView::layout(pk.size());
    let sections = proving_key_sections(pk);
    lemma_proving_key_sections::<E>(pk);
    lemma_joined_conforms::<E>(layout, sections, Seq::empty(), true);
    let bytes = pk.bytes();
    assert(join(sections) + Seq::<u8>::empty() =~= bytes);
    let found = sections_of::<E>(bytes, layout);
    assert(layout.take(4) =~= VerifyingKeyView::fixed_layout());
    assert(sections.take(4) =~= fixed_sections(pk.vk));
    lemma_carved_key::<E>(bytes, layout, 4, pk.vk);
    lemma_one_item::<E>(bytes, layout, 5);
    lemma_one_item::<E>(bytes, layout, 6);
    assert(found[5] == sections[5] && found[6] == sections[6]);
    assert(items::<E>(bytes, layout, 7) == found[7]);
    assert(items::<E>(bytes, layout, 8) == found[8]);
    assert(items::<E>(bytes, layout, 9) == found[9]);
    assert(items::<E>(bytes, layout, 10) == found[10]);
    assert(items::<E>(bytes, layout, 11) == found[11]);
    assert(ProvingKeyView::carve::<E>(bytes, pk.size()) == pk);
}

/// Reading the encoding of a valid proving key under a size record whose
/// layout spans another number of bytes fails: the lengths are mismatched
/// where the record accounts for fewer bytes than there are, and the input
/// is truncated where it accounts for more.
pub proof fn law_size_of_other_span<E: Engine>(pk: ProvingKeyView, size: KeySize)
    requires
        pk.valid::<E>(),
        span::<E>(ProvingKeyView::layout(size)) != span::<E>(ProvingKeyView::layout(pk.size())),
    ensures
        ProvingKeyView::read::<E>(pk.bytes(), size) is Err,
        span::<E>(ProvingKeyView::layout(size)) < span::<E>(ProvingKeyView::layout(pk.size()))
            ==> ProvingKeyView::read::<E>(pk.bytes(), size) == Err::<ProvingKeyView, DecodeError>(
            DecodeError::mismatch(Field::LQuery, size.l_len as int),
        ),
        span::<E>(ProvingKeyView::layout(size)) > span::<E>(ProvingKeyView::layout(pk.size()))
            ==> fails_with(ProvingKeyView::read::<E>(pk.bytes(), size), ErrorKind::TruncatedStream),
{
    law_proving_key_encoded_len::<E>(pk);
    let layout = ProvingKeyView::layout(size);
    lemma_first_short_none::<E>(layout, pk.bytes().len());
    assert(layout.last() == layout[11]);
}

/// Some length of `size` is smaller than that of `actual`.
pub open spec fn understates(size: KeySize, actual: KeySize) -> bool {
    ||| size.vk_len < actual.vk_len
    ||| size.a_len < actual.a_len
    ||| size.b_g1_len < actual.b_g1_len
    ||| size.b_g2_len < actual.b_g2_len
    ||| size.h_len < actual.h_len
    ||| size.l_len < actual.l_len
}

/// Some length of `size` is larger than that of `actual`.
pub open spec fn overstates(size: KeySize, actual: KeySize) -> bool {
    understates(actual, size)
}

/// Reading the encoding of a valid proving key under a size record that
/// understates a length never gives a key: it fails with a length mismatch
/// or a truncated stream. This is stated of the records whose layout spans
/// another number of bytes than the key's own; one that makes up for the
/// shorter vector with a longer one of the same width is not told apart by
/// the stream.
pub proof fn law_understated_size<E: Engine>(pk: ProvingKeyView, size: KeySize)
    requires
        pk.valid::<E>(),
        understates(size, pk.size()),
        span::<E>(ProvingKeyView::layout(size)) != span::<E>(ProvingKeyView::layout(pk.size())),
    ensures
        fails_with(ProvingKeyView::read::<E>(pk.bytes(), size), ErrorKind::LengthMismatch)
            || fails_with(ProvingKeyView::read::<E>(pk.bytes(), size), ErrorKind::TruncatedStream),
{
    law_size_of_other_span::<E>(pk, size);
}

/// Reading the encoding of a valid proving key under a size record that
/// overstates a length never gives a key. This is stated of the records
/// whose layout spans another number of bytes than the key's own.
pub proof fn law_overstated_size<E: Engine>(pk: ProvingKeyView, size: KeySize)
    requires
        pk.valid::<E>(),
        overstates(size, pk.size()),
        span::<E>(ProvingKeyView::layout(size)) != span::<E>(ProvingKeyView::layout(pk.size())),
    ensures
        ProvingKeyView::read::<E>(pk.bytes(), size) is Err,
{
    law_size_of_other_span::<E>(pk, size);
}

/// Number of bytes that the layout of a proving key of the given size
/// spans, segment by segment.
pub open spec fn proving_key_span<E: Engine>(size: KeySize) -> int {
    let g1 = E::g1_width();
    let g2 = E::g2_width();
    g1 + g2 + g2 + g2 + size.vk_len * g1 + g1 + g1 + size.a_len * g1 + size.b_g1_len * g1
        + size.b_g2_len * g2 + size.h_len * g1 + size.l_len * g1
}

/// The span of the layout of a proving key, written out.
pub proof fn lemma_proving_key_span<E: Engine>(size: KeySize)
    ensures
        span::<E>(ProvingKeyView::layout(size)) == proving_key_span::<E>(size),
{
    let l = ProvingKeyView::layout(size);
    lemma_start_first::<E>(l);
    lemma_span_step_single::<E>(l, 0);
    lemma_span_step_single::<E>(l, 1);
    lemma_span_step_single::<E>(l, 2);
    lemma_span_step_single::<E>(l, 3);
    lemma_span_step::<E>(l, 4);
    lemma_span_step_single::<E>(l, 5);
    lemma_span_step_single::<E>(l, 6);
    lemma_span_step::<E>(l, 7);
    lemma_span_step::<E>(l, 8);
    lemma_span_step::<E>(l, 9);
    lemma_span_step::<E>(l, 10);
    lemma_span_step::<E>(l, 11);
    lemma_start_last::<E>(l);
    assert(l[0].kind == Kind::G1 && l[1].kind == Kind::G2 && l[2].kind == Kind::G2);
    assert(l[3].kind == Kind::G2 && l[4].kind == Kind::G1 && l[5].kind == Kind::G1);
    assert(l[6].kind == Kind::G1 && l[7].kind == Kind::G1 && l[8].kind == Kind::G1);
    assert(l[9].kind == Kind::G2 && l[10].kind == Kind::G1 && l[11].kind == Kind::G1);
}

/// A longer vector takes more bytes.
proof fn lemma_more_takes_more(fewer: usize, more: usize, width: nat)
    requires
        width > 0,
    ensures
        fewer <= more ==> fewer * width <= more * width,
        fewer < more ==> fewer * width < more * width,
{
    assert(fewer <= more ==> fewer * width <= more * width) by (nonlinear_arith);
    assert(fewer < more ==> fewer * width < more * width) by (nonlinear_arith)
        requires
            width > 0,
    ;
}

/// A size record that is smaller in some length and larger in none spans
/// fewer bytes.
pub proof fn lemma_smaller_size_spans_less<E: Engine>(size: KeySize, actual: KeySize)
    requires
        understates(size, actual),
        !overstates(size, actual),
    ensures
        span::<E>(ProvingKeyView::layout(size)) < span::<E>(ProvingKeyView::layout(actual)),
{
    E::widths_are_positive();
    lemma_proving_key_span::<E>(size);
    lemma_proving_key_span::<E>(actual);
    lemma_more_takes_more(size.vk_len, actual.vk_len, E::g1_width());
    lemma_more_takes_more(size.a_len, actual.a_len, E::g1_width());
    lemma_more_takes_more(size.b_g1_len, actual.b_g1_len, E::g1_width());
    lemma_more_takes_more(size.b_g2_len, actual.b_g2_len, E::g2_width());
    lemma_more_takes_more(size.h_len, actual.h_len, E::g1_width());
    lemma_more_takes_more(size.l_len, actual.l_len, E::g1_width());
}

/// Reading the encoding of a valid proving key under a size record that is
/// smaller in some length and larger in none fails with a length mismatch:
/// data stands where the last vector was declared to end.
pub proof fn law_smaller_size_is_mismatched<E: Engine>(pk: ProvingKeyView, size: KeySize)
    requires
        pk.valid::<E>(),
        understates(size, pk.size()),
        !overstates(size, pk.size()),
    ensures
        ProvingKeyView::read::<E>(pk.bytes(), size) == Err::<ProvingKeyView, DecodeError>(
            DecodeError::mismatch(Field::LQuery, size.l_len as int),
        ),
{
    lemma_smaller_size_spans_less::<E>(size, pk.size());
    law_size_of_other_span::<E>(pk, size);
}

/// Reading the encoding of a valid proving key under a size record that is
/// larger in some length and smaller in none fails with a truncated stream.
pub proof fn law_larger_size_is_truncated<E: Engine>(pk: ProvingKeyView, size: KeySize)
    requires
        pk.valid::<E>(),
        overstates(size, pk.size()),
        !understates(size, pk.size()),
    ensures
        fails_with(ProvingKeyView::read::<E>(pk.bytes(), size), ErrorKind::TruncatedStream),
{
    lemma_smaller_size_spans_less::<E>(pk.size(), size);
    law_size_of_other_span::<E>(pk, size);
}

/// No segment starts before an earlier one.
pub proof fn lemma_starts_ordered<E: Engine>(layout: Seq<Segment>, j: int, k: int)
    requires
        0 <= j <= k <= layout.len(),
    ensures
        start::<E>(layout, j) <= start::<E>(layout, k),
{
    assert(layout.take(k).take(j) =~= layout.take(j));
    lemma_start_within::<E>(layout.take(k), j);
}

/// Where an input in which no error is found is changed in one byte of an
/// element, and the element is no longer accepted, the input is malformed at
/// that element.
pub proof fn law_corrupted_byte<E: Engine>(
    bytes: Seq<u8>,
    layout: Seq<Segment>,
    exact: bool,
    k: int,
    i: int,
    position: int,
    byte: u8,
)
    requires
        layout_error::<E>(bytes, layout, exact) is None,
        0 <= k < layout.len(),
        0 <= i < layout[k].count,
        start::<E>(layout, k) + i * width::<E>(layout[k].kind) <= position < start::<E>(layout, k)
            + (i + 1) * width::<E>(layout[k].kind),
        !accepts::<E>(layout[k].kind, item::<E>(bytes.update(position, byte), layout, k, i)),
    ensures
        layout_error::<E>(bytes.update(position, byte), layout, exact) == Some(
            DecodeError::malformed(layout[k].field, i),
        ),
{
    lemma_checked_conforms::<E>(bytes, layout, exact);
    lemma_span_step::<E>(layout, k);
    lemma_start_within::<E>(layout, k + 1);
    assert(0 <= i * width::<E>(layout[k].kind) && (i + 1) * width::<E>(layout[k].kind)
        <= layout[k].count * width::<E>(layout[k].kind)) by (nonlinear_arith)
        requires
            0 <= i < layout[k].count,
    ;
    assert(0 <= position < bytes.len());
    let changed = bytes.update(position, byte);
    assert forall|j: int, h: int|
        0 <= j < layout.len() && 0 <= h < layout[j].count && (j < k || (j == k && h < i))
        implies accepts::<E>(layout[j].kind, #[trigger] items::<E>(changed, layout, j)[h]) by {
        let w = width::<E>(layout[j].kind) as int;
        let n = layout[j].count as int;
        lemma_accepted::<E>(bytes, layout, j, h);
        lemma_span_step::<E>(layout, j);
        lemma_start_within::<E>(layout, j + 1);
        assert(0 <= h * w && (h + 1) * w <= n * w && (h + 1) * w == h * w + w)
            by (nonlinear_arith)
            requires
                0 <= h < n,
                w >= 0,
        ;
        if j < k {
            lemma_starts_ordered::<E>(layout, j + 1, k);
            assert(0 <= i * width::<E>(layout[k].kind)) by (nonlinear_arith)
                requires
                    0 <= i,
            ;
        } else {
            assert((h + 1) * w <= i * w) by (nonlinear_arith)
                requires
                    h + 1 <= i,
                    w >= 0,
            ;
        }
        assert(items::<E>(changed, layout, j)[h] =~= item::<E>(bytes, layout, j, h));
    }
    assert(items::<E>(changed, layout, k)[i] == item::<E>(changed, layout, k, i));
    lemma_malformed_at::<E>(changed, layout, exact, k, i);
}

/// Where the encoding of a valid proving key is changed in one byte of an
/// element, and the element is no longer accepted, reading it under the
/// key's size record fails with a malformed point at that element.
pub proof fn law_corrupted_proving_key<E: Engine>(
    pk: ProvingKeyView,
    k: int,
    i: int,
    position: int,
    byte: u8,
)
    requires
        pk.valid::<E>(),
        0 <= k < 12,
        0 <= i < ProvingKeyView::layout(pk.size())[k].count,
        start::<E>(ProvingKeyView::layout(pk.size()), k) + i * width::<E>(
            ProvingKeyView::layout(pk.size())[k].kind,
        ) <= position < start::<E>(ProvingKeyView::layout(pk.size()), k) + (i + 1) * width::<E>(
            ProvingKeyView::layout(pk.size())[k].kind,
        ),
        !accepts::<E>(
            ProvingKeyView::layout(pk.size())[k].kind,
            item::<E>(pk.bytes().update(position, byte), ProvingKeyView::layout(pk.size()), k, i),
        ),
    ensures
        ProvingKeyView::read::<E>(pk.bytes().update(position, byte), pk.size()) == Err::<
            ProvingKeyView,
            DecodeError,
        >(DecodeError::malformed(ProvingKeyView::layout(pk.size())[k].field, i)),
{
    law_proving_key_round_trip::<E>(pk);
    law_corrupted_byte::<E>(pk.bytes(), ProvingKeyView::layout(pk.size()), true, k, i, position, byte);
}

/// The encoding of a valid verifying key takes the four fixed elements, the
/// length, and one element of `G1` for each element of the vector.
pub proof fn law_verifying_key_encoded_len<E: Engine>(vk: VerifyingKeyView)
    requires
        vk.valid::<E>(),
    ensures
        vk.bytes().len() == E::g1_width() + 3 * E::g2_width() + 8 + vk.gamma_abc_g1.len()
            * E::g1_width(),
        vk.compact_bytes().len() == E::g1_width() + 3 * E::g2_width() + vk.gamma_abc_g1.len()
            * E::g1_width(),
{
    lemma_length_round_trip();
    assert(uniform(vk.gamma_abc_g1, E::g1_width()));
    lemma_concat_len(vk.gamma_abc_g1, E::g1_width());
}

/// A prepared key holds the key it was derived from, and preparing that key
/// again gives the same prepared key.
pub proof fn law_prepare_keeps_key<E: Engine>(vk: VerifyingKeyView)
    ensures
        match PreparedVerifyingKeyView::prepare::<E>(vk) {
            Some(prepared) => prepared.vk == vk && PreparedVerifyingKeyView::prepare::<E>(
                prepared.vk,
            ) == Some(prepared),
            None => true,
        },
{
}

/// The verifying key made from a prepared key is the key it was derived
/// from.
pub proof fn law_key_of_prepared<E: Engine>(prepared: PreparedVerifyingKey<E>)
    ensures
        <VerifyingKey<E> as FromSpec<PreparedVerifyingKey<E>>>::obeys_from_spec(),
        <VerifyingKey<E> as FromSpec<PreparedVerifyingKey<E>>>::from_spec(prepared)@
            == prepared@.vk,
{
}

/// A valid prepared key, encoded, decodes to itself, whatever follows it.
pub proof fn law_prepared_round_trip<E: Engine>(prepared: PreparedVerifyingKeyView, tail: Seq<u8>)
    requires
        prepared.valid::<E>(),
    ensures
        PreparedVerifyingKeyView::decode::<E>(prepared.bytes() + tail) == Ok::<
            PreparedVerifyingKeyView,
            DecodeError,
        >(prepared),
{
    let bytes = prepared.bytes() + tail;
    let after = prepared.derived_bytes() + tail;
    law_verifying_key_round_trip::<E>(prepared.vk, after);
    assert(bytes =~= prepared.vk.bytes() + after);
    let rest = bytes.skip(prepared.vk.bytes().len() as int);
    assert(rest =~= after);
    let e1 = prepared.alpha_g1_beta_g2.len() as int;
    let e2 = e1 + prepared.gamma_g2_neg_pc.len();
    let e3 = e2 + prepared.delta_g2_neg_pc.len();
    assert(rest.subrange(0, e1) =~= prepared.alpha_g1_beta_g2);
    assert(rest.subrange(e1, e2) =~= prepared.gamma_g2_neg_pc);
    assert(rest.subrange(e2, e3) =~= prepared.delta_g2_neg_pc);
}

/// A size record, encoded, decodes to itself, whatever follows it.
pub proof fn law_key_size_round_trip(size: KeySize, tail: Seq<u8>)
    ensures
        KeySize::decoded(size.bytes() + tail) == Ok::<KeySize, DecodeError>(size),
        size.bytes().len() == 48,
{
    lemma_length_round_trip();
    let bytes = size.bytes() + tail;
    assert(bytes.subrange(0, 8) =~= length_bytes(size.vk_len as u64));
    assert(bytes.subrange(8, 16) =~= length_bytes(size.a_len as u64));
    assert(bytes.subrange(16, 24) =~= length_bytes(size.b_g1_len as u64));
    assert(bytes.subrange(24, 32) =~= length_bytes(size.b_g2_len as u64));
    assert(bytes.subrange(32, 40) =~= length_bytes(size.h_len as u64));
    assert(bytes.subrange(40, 48) =~= length_bytes(size.l_len as u64));
    assert(KeySize::slot(bytes, 0) == size.vk_len);
    assert(KeySize::slot(bytes, 1) == size.a_len);
    assert(KeySize::slot(bytes, 2) == size.b_g1_len);
    assert(KeySize::slot(bytes, 3) == size.b_g2_len);
    assert(KeySize::slot(bytes, 4) == size.h_len);
    assert(KeySize::slot(bytes, 5) == size.l_len);
    reveal_with_fuel(KeySize::first_oversized, 7);
}

/// A size-guided read that succeeds gives a valid key of the given size
/// whose encoding is the input: nothing else is read as that key.
pub proof fn law_proving_key_read_is_exact<E: Engine>(bytes: Seq<u8>, size: KeySize)
    ensures
        match ProvingKeyView::read::<E>(bytes, size) {
            Ok(pk) => pk.valid::<E>() && pk.size() == size && pk.bytes() == bytes,
            Err(_) => true,
        },
{
    let layout = ProvingKeyView::layout(size);
    if layout_error::<E>(bytes, layout, true) is None {
        let pk = ProvingKeyView::carve::<E>(bytes, size);
        let found = sections_of::<E>(bytes, layout);
        lemma_checked_conforms::<E>(bytes, layout, true);
        lemma_sections_joined::<E>(bytes, layout);
        assert(bytes.subrange(0, bytes.len() as int) =~= bytes);
        lemma_g1_segment::<E>(bytes, layout, 0);
        lemma_g2_segment::<E>(bytes, layout, 1);
        lemma_g2_segment::<E>(bytes, layout, 2);
        lemma_g2_segment::<E>(bytes, layout, 3);
        lemma_g1_segment::<E>(bytes, layout, 4);
        lemma_g1_segment::<E>(bytes, layout, 5);
        lemma_g1_segment::<E>(bytes, layout, 6);
        lemma_g1_segment::<E>(bytes, layout, 7);
        lemma_g1_segment::<E>(bytes, layout, 8);
        lemma_g2_segment::<E>(bytes, layout, 9);
        lemma_g1_segment::<E>(bytes, layout, 10);
        lemma_g1_segment::<E>(bytes, layout, 11);
        assert(pk.valid::<E>());
        assert(pk.size() == size);
        lemma_one_item::<E>(bytes, layout, 0);
        lemma_one_item::<E>(bytes, layout, 1);
        lemma_one_item::<E>(bytes, layout, 2);
        lemma_one_item::<E>(bytes, layout, 3);
        lemma_one_item::<E>(bytes, layout, 5);
        lemma_one_item::<E>(bytes, layout, 6);
        assert(proving_key_sections(pk) =~= found);
        lemma_proving_key_sections::<E>(pk);
    }
}

/// A decoding that succeeds gives a valid proof whose encoding stands at
/// the start of the input.
pub proof fn law_proof_decode_is_exact<E: Engine>(bytes: Seq<u8>)
    ensures
        match ProofView::decode::<E>(bytes) {
            Ok(proof) => proof.valid::<E>() && proof.bytes().len() <= bytes.len() && proof.bytes()
                == bytes.subrange(0, proof.bytes().len() as int),
            Err(_) => true,
        },
{
    let layout = ProofView::layout();
    if layout_error::<E>(bytes, layout, false) is None {
        let proof = ProofView::carve::<E>(bytes);
        let found = sections_of::<E>(bytes, layout);
        lemma_checked_conforms::<E>(bytes, layout, false);
        lemma_sections_joined::<E>(bytes, layout);
        lemma_g1_segment::<E>(bytes, layout, 0);
        lemma_g2_segment::<E>(bytes, layout, 1);
        lemma_g1_segment::<E>(bytes, layout, 2);
        lemma_one_item::<E>(bytes, layout, 0);
        lemma_one_item::<E>(bytes, layout, 1);
        lemma_one_item::<E>(bytes, layout, 2);
        assert(proof_sections(proof) =~= found);
        lemma_proof_sections::<E>(proof);
    }
}

/// A size-guided read of a verifying key that succeeds gives a valid key
/// with a vector of the given length whose compact encoding stands at the
/// start of the input.
pub proof fn law_verifying_key_read_is_exact<E: Engine>(bytes: Seq<u8>, len: u64)
    ensures
        match VerifyingKeyView::read::<E>(bytes, len) {
            Ok(vk) => vk.valid::<E>() && vk.gamma_abc_g1.len() == len && vk.compact_bytes().len()
                <= bytes.len() && vk.compact_bytes() == bytes.subrange(
                0,
                vk.compact_bytes().len() as int,
            ),
            Err(_) => true,
        },
{
    let layout = VerifyingKeyView::compact_layout(len);
    if layout_error::<E>(bytes, layout, false) is None {
        let vk = VerifyingKeyView::carve::<E>(bytes, layout, 4);
        let found = sections_of::<E>(bytes, layout);
        lemma_checked_conforms::<E>(bytes, layout, false);
        lemma_sections_joined::<E>(bytes, layout);
        lemma_g1_segment::<E>(bytes, layout, 0);
        lemma_g2_segment::<E>(bytes, layout, 1);
        lemma_g2_segment::<E>(bytes, layout, 2);
        lemma_g2_segment::<E>(bytes, layout, 3);
        lemma_g1_segment::<E>(bytes, layout, 4);
        lemma_one_item::<E>(bytes, layout, 0);
        lemma_one_item::<E>(bytes, layout, 1);
        lemma_one_item::<E>(bytes, layout, 2);
        lemma_one_item::<E>(bytes, layout, 3);
        assert(fixed_sections(vk).push(vk.gamma_abc_g1) =~= found);
        lemma_fixed_sections::<E>(vk);
        assert(found.drop_last() =~= fixed_sections(vk));
        assert(join(found) =~= vk.compact_bytes());
    }
}

/// The encoding of a valid proving key, cut short, is read as a truncated
/// stream under the key's size record.
pub proof fn law_shortened_proving_key_is_truncated<E: Engine>(pk: ProvingKeyView, len: int)
    requires
        pk.valid::<E>(),
        0 <= len < pk.bytes().len(),
    ensures
        fails_with(
            ProvingKeyView::read::<E>(pk.bytes().take(len), pk.size()),
            ErrorKind::TruncatedStream,
        ),
{
    law_proving_key_encoded_len::<E>(pk);
    lemma_first_short_none::<E>(ProvingKeyView::layout(pk.size()), len as nat);
}

/// The encoding of a valid proving key, with anything after it, is read as a
/// length mismatch under the key's size record: data stands where the last
/// vector was declared to end.
pub proof fn law_lengthened_proving_key_is_mismatched<E: Engine>(pk: ProvingKeyView, tail: Seq<u8>)
    requires
        pk.valid::<E>(),
        tail.len() > 0,
    ensures
        ProvingKeyView::read::<E>(pk.bytes() + tail, pk.size()) == Err::<ProvingKeyView, DecodeError>(
            DecodeError::mismatch(Field::LQuery, pk.size().l_len as int),
        ),
{
    law_proving_key_encoded_len::<E>(pk);
    let layout = ProvingKeyView::layout(pk.size());
    lemma_first_short_none::<E>(layout, (pk.bytes() + tail).len());
    assert(layout.last() == layout[11]);
}

/// A decoding of a verifying key that succeeds gives a valid key whose
/// self-describing encoding stands at the start of the input.
pub proof fn law_verifying_key_decode_is_exact<E: Engine>(bytes: Seq<u8>)
    ensures
        match VerifyingKeyView::decode::<E>(bytes) {
            Ok(vk) => vk.valid::<E>() && vk.bytes().len() <= bytes.len() && vk.bytes()
                == bytes.subrange(0, vk.bytes().len() as int) && vk.bytes().len()
                == VerifyingKeyView::decoded_len::<E>(bytes),
            Err(_) => true,
        },
{
    let header = VerifyingKeyView::header_layout();
    let len = VerifyingKeyView::declared_len::<E>(bytes);
    let layout = VerifyingKeyView::layout(len);
    if truncation::<E>(header, bytes.len()) is None && layout_error::<E>(bytes, layout, false)
        is None {
        let vk = VerifyingKeyView::carve::<E>(bytes, layout, 5);
        let found = sections_of::<E>(bytes, layout);
        lemma_checked_conforms::<E>(bytes, layout, false);
        lemma_sections_joined::<E>(bytes, layout);
        lemma_g1_segment::<E>(bytes, layout, 0);
        lemma_g2_segment::<E>(bytes, layout, 1);
        lemma_g2_segment::<E>(bytes, layout, 2);
        lemma_g2_segment::<E>(bytes, layout, 3);
        lemma_g1_segment::<E>(bytes, layout, 5);
        lemma_one_item::<E>(bytes, layout, 0);
        lemma_one_item::<E>(bytes, layout, 1);
        lemma_one_item::<E>(bytes, layout, 2);
        lemma_one_item::<E>(bytes, layout, 3);
        lemma_one_item::<E>(bytes, layout, 4);
        assert(layout.take(4) =~= header.take(4));
        assert(item::<E>(bytes, layout, 4, 0) == item::<E>(bytes, header, 4, 0));
        lemma_single_item_width::<E>(bytes, layout, 4);
        lemma_length_round_trip();
        assert(item::<E>(bytes, layout, 4, 0) == length_bytes(len));
        assert(fixed_sections(vk).push(one(length_bytes(len))).push(vk.gamma_abc_g1) =~= found);
        lemma_fixed_sections::<E>(vk);
        assert(found.drop_last().drop_last() =~= fixed_sections(vk));
        assert(found.drop_last().last() == one(length_bytes(len)));
        assert(concat(one(length_bytes(len))) =~= length_bytes(len)) by {
            assert(one(length_bytes(len)).drop_last() =~= Seq::<Seq<u8>>::empty());
            assert(concat(one(length_bytes(len)).drop_last()) =~= Seq::<u8>::empty());
        }
        assert(found.last() == vk.gamma_abc_g1);
        assert(vk.gamma_abc_g1.len() as u64 == len);
        assert(join(found.drop_last()) =~= vk.fixed_bytes() + length_bytes(len));
        assert(join(found) =~= vk.bytes());
    }
}

} // verus!
