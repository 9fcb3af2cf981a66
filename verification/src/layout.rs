//! Layouts: the order, kind and number of the fixed-width elements that make
//! up an encoded artifact, and the check of a byte string against one.
use vstd::prelude::*;
use vstd::slice::slice_subrange;

use crate::engine::Engine;
use crate::error::{DecodeError, ErrorKind, Field};
use crate::length::LENGTH_WIDTH;

verus! {

/// What a run of elements holds.
#[derive(Clone, Copy, Debug, PartialEq, Eq, Structural)]
pub enum Kind {
    /// Points of the first source group.
    G1,
    /// Points of the second source group.
    G2,
    /// Lengths.
    Length,
}

/// A run of `count` elements of one kind, which together encode `field`.
#[derive(Clone, Copy, Debug, PartialEq, Eq, Structural)]
pub struct Segment {
    /// The field that the elements encode.
    pub field: Field,
    /// What each element is.
    pub kind: Kind,
    /// How many elements there are.
    pub count: u64,
}

/// Number of bytes of an element of `kind`.
pub open spec fn width<E: Engine>(kind: Kind) -> nat {
    match kind {
        Kind::G1 => E::g1_width(),
        Kind::G2 => E::g2_width(),
        Kind::Length => LENGTH_WIDTH as nat,
    }
}

/// Whether `item`, of the width of `kind`, is a valid element of that kind.
/// Every eight bytes are a length.
pub open spec fn accepts<E: Engine>(kind: Kind, item: Seq<u8>) -> bool {
    match kind {
        Kind::G1 => E::g1_accepts(item),
        Kind::G2 => E::g2_accepts(item),
        Kind::Length => true,
    }
}

/// Number of bytes of a segment.
pub open spec fn segment_span<E: Engine>(segment: Segment) -> nat {
    segment.count as nat * width::<E>(segment.kind)
}

/// Number of bytes that `layout` calls for.
pub open spec fn span<E: Engine>(layout: Seq<Segment>) -> nat
    decreases layout.len(),
{
    if layout.len() == 0 {
        0
    } else {
        span::<E>(layout.drop_last()) + segment_span::<E>(layout.last())
    }
}

/// Where segment `k` of `layout` starts.
pub open spec fn start<E: Engine>(layout: Seq<Segment>, k: int) -> nat {
    span::<E>(layout.take(k))
}

/// The `n` elements of `width` bytes each that stand at `at` in `bytes`.
pub open spec fn items_at(bytes: Seq<u8>, at: int, width: int, n: nat) -> Seq<Seq<u8>> {
    Seq::new(n, |i: int| bytes.subrange(at + i * width, at + (i + 1) * width))
}

/// Element `i` of segment `k`, where `bytes` are laid out as `layout` says.
pub open spec fn item<E: Engine>(bytes: Seq<u8>, layout: Seq<Segment>, k: int, i: int) -> Seq<u8> {
    let w = width::<E>(layout[k].kind) as int;
    bytes.subrange(start::<E>(layout, k) + i * w, start::<E>(layout, k) + (i + 1) * w)
}

/// The elements of segment `k`, where `bytes` are laid out as `layout` says.
pub open spec fn items<E: Engine>(bytes: Seq<u8>, layout: Seq<Segment>, k: int) -> Seq<Seq<u8>> {
    items_at(
        bytes,
        start::<E>(layout, k) as int,
        width::<E>(layout[k].kind) as int,
        layout[k].count as nat,
    )
}

/// The first element that `len` bytes do not hold in full: its segment and
/// its index there. `None` if `len` bytes hold all of `layout`.
pub open spec fn first_short<E: Engine>(layout: Seq<Segment>, len: nat) -> Option<(int, int)>
    decreases layout.len(),
{
    if layout.len() == 0 {
        None
    } else {
        let head = layout.drop_last();
        match first_short::<E>(head, len) {
            Some(place) => Some(place),
            None => if len < span::<E>(layout) {
                Some(
                    (
                        layout.len() - 1,
                        (len - span::<E>(head)) / (width::<E>(layout.last().kind) as int),
                    ),
                )
            } else {
                None
            },
        }
    }
}

/// Index of the first of the `n` elements of `kind` at `at` that is not
/// accepted.
pub open spec fn first_rejected_item<E: Engine>(
    bytes: Seq<u8>,
    at: int,
    kind: Kind,
    n: nat,
) -> Option<int>
    decreases n,
{
    if n == 0 {
        None
    } else {
        let w = width::<E>(kind) as int;
        match first_rejected_item::<E>(bytes, at, kind, (n - 1) as nat) {
            Some(i) => Some(i),
            None => if accepts::<E>(kind, bytes.subrange(at + (n - 1) * w, at + n * w)) {
                None
            } else {
                Some(n - 1)
            },
        }
    }
}

/// The first element that is not accepted, where `bytes` are laid out as
/// `layout` says: its segment and its index there.
pub open spec fn first_rejected<E: Engine>(bytes: Seq<u8>, layout: Seq<Segment>) -> Option<
    (int, int),
>
    decreases layout.len(),
{
    if layout.len() == 0 {
        None
    } else {
        let head = layout.drop_last();
        match first_rejected::<E>(bytes, head) {
            Some(place) => Some(place),
            None => match first_rejected_item::<E>(
                bytes,
                span::<E>(head) as int,
                layout.last().kind,
                layout.last().count as nat,
            ) {
                Some(i) => Some((layout.len() - 1, i)),
                None => None,
            },
        }
    }
}

/// Where an input of `len` bytes ends early: the first element of `layout`
/// that it does not hold in full.
pub open spec fn truncation<E: Engine>(layout: Seq<Segment>, len: nat) -> Option<DecodeError> {
    match first_short::<E>(layout, len) {
        Some((k, i)) => Some(DecodeError::truncated(layout[k].field, i)),
        None => None,
    }
}

/// Why `bytes` are not an encoding of `layout`, if they are not.
///
/// An input that ends early is truncated, at the first element it does not
/// hold in full. Failing that, where `exact` is set and bytes follow the last
/// element, the lengths are mismatched, and the last segment is named with
/// its declared count. Failing that, the first element that is not accepted
/// is malformed.
pub open spec fn layout_error<E: Engine>(bytes: Seq<u8>, layout: Seq<Segment>, exact: bool) -> Option<
    DecodeError,
> {
    match truncation::<E>(layout, bytes.len()) {
        Some(e) => Some(e),
        None => if exact && layout.len() > 0 && bytes.len() > span::<E>(layout) {
            Some(DecodeError::mismatch(layout.last().field, layout.last().count as int))
        } else {
            match first_rejected::<E>(bytes, layout) {
                Some((k, i)) => Some(DecodeError::malformed(layout[k].field, i)),
                None => None,
            }
        },
    }
}

/// `Err` of an error, `Ok` of none.
pub open spec fn as_result(error: Option<DecodeError>) -> Result<(), DecodeError> {
    match error {
        Some(e) => Err(e),
        None => Ok(()),
    }
}

/// A layout's span grows by the span of each segment.
pub proof fn lemma_span_step<E: Engine>(layout: Seq<Segment>, k: int)
    requires
        0 <= k < layout.len(),
    ensures
        start::<E>(layout, k + 1) == start::<E>(layout, k) + segment_span::<E>(layout[k]),
{
    assert(layout.take(k + 1).drop_last() =~= layout.take(k));
    assert(layout.take(k + 1).last() == layout[k]);
}

/// A segment of one element takes the width of its kind.
pub proof fn lemma_span_step_single<E: Engine>(layout: Seq<Segment>, k: int)
    requires
        0 <= k < layout.len(),
        layout[k].count == 1,
    ensures
        start::<E>(layout, k + 1) == start::<E>(layout, k) + width::<E>(layout[k].kind),
{
    lemma_span_step::<E>(layout, k);
    let c = layout[k].count as nat;
    let w = width::<E>(layout[k].kind);
    assert(c * w == w) by (nonlinear_arith)
        requires
            c == 1,
    ;
}

/// No segment starts after the end of the layout.
pub proof fn lemma_start_within<E: Engine>(layout: Seq<Segment>, k: int)
    requires
        0 <= k <= layout.len(),
    ensures
        start::<E>(layout, k) <= span::<E>(layout),
    decreases layout.len(),
{
    if k == layout.len() {
        assert(layout.take(k) =~= layout);
    } else {
        assert(layout.drop_last().take(k) =~= layout.take(k));
        lemma_start_within::<E>(layout.drop_last(), k);
    }
}

/// An input holds all of a layout exactly when it is as long as its span.
pub proof fn lemma_first_short_none<E: Engine>(layout: Seq<Segment>, len: nat)
    ensures
        first_short::<E>(layout, len) is None <==> span::<E>(layout) <= len,
    decreases layout.len(),
{
    if layout.len() > 0 {
        lemma_first_short_none::<E>(layout.drop_last(), len);
    }
}

/// The first element that an input does not hold stays the first when
/// segments are added to the layout.
pub proof fn lemma_first_short_prefix<E: Engine>(layout: Seq<Segment>, k: int, len: nat)
    requires
        0 <= k <= layout.len(),
        first_short::<E>(layout.take(k), len) is Some,
    ensures
        first_short::<E>(layout, len) == first_short::<E>(layout.take(k), len),
    decreases layout.len(),
{
    if k == layout.len() {
        assert(layout.take(k) =~= layout);
    } else {
        assert(layout.drop_last().take(k) =~= layout.take(k));
        lemma_first_short_prefix::<E>(layout.drop_last(), k, len);
    }
}

/// Where segment `k` is the first that the input does not hold in full, the
/// first element that it does not hold is the one in which it ends.
pub proof fn lemma_first_short_here<E: Engine>(layout: Seq<Segment>, k: int, len: nat)
    requires
        0 <= k < layout.len(),
        start::<E>(layout, k) <= len < start::<E>(layout, k + 1),
    ensures
        first_short::<E>(layout, len) == Some(
            (k, (len - start::<E>(layout, k)) / (width::<E>(layout[k].kind) as int)),
        ),
{
    let upto = layout.take(k + 1);
    assert(upto.drop_last() =~= layout.take(k));
    assert(upto.last() == layout[k]);
    lemma_first_short_none::<E>(layout.take(k), len);
    assert(layout.take(k + 1).take(k + 1) =~= layout.take(k + 1));
    lemma_first_short_prefix::<E>(layout, k + 1, len);
}

/// Among `n` elements, the first one rejected stays the first when more
/// elements follow.
pub proof fn lemma_first_rejected_item_prefix<E: Engine>(
    bytes: Seq<u8>,
    at: int,
    kind: Kind,
    i: int,
    n: nat,
)
    requires
        0 <= i < n,
        first_rejected_item::<E>(bytes, at, kind, i as nat) is None,
        !accepts::<E>(
            kind,
            bytes.subrange(at + i * width::<E>(kind), at + (i + 1) * width::<E>(kind)),
        ),
    ensures
        first_rejected_item::<E>(bytes, at, kind, n) == Some(i),
    decreases n,
{
    if n > i + 1 {
        lemma_first_rejected_item_prefix::<E>(bytes, at, kind, i, (n - 1) as nat);
    }
}

/// Where none of `n` elements is rejected, each of them is accepted.
pub proof fn lemma_items_accepted<E: Engine>(bytes: Seq<u8>, at: int, kind: Kind, n: nat, i: int)
    requires
        first_rejected_item::<E>(bytes, at, kind, n) is None,
        0 <= i < n,
    ensures
        accepts::<E>(
            kind,
            bytes.subrange(at + i * width::<E>(kind), at + (i + 1) * width::<E>(kind)),
        ),
    decreases n,
{
    if i < n - 1 {
        lemma_items_accepted::<E>(bytes, at, kind, (n - 1) as nat, i);
    }
}

/// The first rejected element of a layout stays the first when segments are
/// added to the layout.
pub proof fn lemma_first_rejected_prefix<E: Engine>(bytes: Seq<u8>, layout: Seq<Segment>, k: int)
    requires
        0 <= k <= layout.len(),
        first_rejected::<E>(bytes, layout.take(k)) is Some,
    ensures
        first_rejected::<E>(bytes, layout) == first_rejected::<E>(bytes, layout.take(k)),
    decreases layout.len(),
{
    if k == layout.len() {
        assert(layout.take(k) =~= layout);
    } else {
        assert(layout.drop_last().take(k) =~= layout.take(k));
        lemma_first_rejected_prefix::<E>(bytes, layout.drop_last(), k);
    }
}

/// How the first rejected element of the first `k + 1` segments follows from
/// that of the first `k` and that of segment `k`.
pub proof fn lemma_first_rejected_step<E: Engine>(bytes: Seq<u8>, layout: Seq<Segment>, k: int)
    requires
        0 <= k < layout.len(),
    ensures
        first_rejected::<E>(bytes, layout.take(k + 1)) == (match first_rejected::<E>(
            bytes,
            layout.take(k),
        ) {
            Some(place) => Some(place),
            None => match first_rejected_item::<E>(
                bytes,
                start::<E>(layout, k) as int,
                layout[k].kind,
                layout[k].count as nat,
            ) {
                Some(i) => Some((k, i)),
                None => None,
            },
        }),
{
    assert(layout.take(k + 1).drop_last() =~= layout.take(k));
    assert(layout.take(k + 1).last() == layout[k]);
}

/// Where no element of a layout is rejected, each of them is accepted.
pub proof fn lemma_accepted<E: Engine>(bytes: Seq<u8>, layout: Seq<Segment>, k: int, i: int)
    requires
        first_rejected::<E>(bytes, layout) is None,
        0 <= k < layout.len(),
        0 <= i < layout[k].count,
    ensures
        accepts::<E>(layout[k].kind, item::<E>(bytes, layout, k, i)),
    decreases layout.len(),
{
    if k == layout.len() - 1 {
        assert(layout.take(k) =~= layout.drop_last());
        lemma_items_accepted::<E>(
            bytes,
            span::<E>(layout.drop_last()) as int,
            layout[k].kind,
            layout[k].count as nat,
            i,
        );
    } else {
        assert(layout.drop_last().take(k) =~= layout.take(k));
        lemma_accepted::<E>(bytes, layout.drop_last(), k, i);
    }
}

/// Number of bytes of an element of `kind`.
pub fn kind_len<E: Engine>(kind: Kind) -> (n: usize)
    ensures
        n == width::<E>(kind),
        n > 0,
{
    proof {
        E::widths_are_positive();
    }
    match kind {
        Kind::G1 => E::g1_len(),
        Kind::G2 => E::g2_len(),
        Kind::Length => LENGTH_WIDTH,
    }
}

/// Whether the element of `kind` that stands at `at` is accepted.
fn check_item<E: Engine>(bytes: &[u8], at: usize, kind: Kind) -> (ok: bool)
    requires
        at + width::<E>(kind) <= bytes.len(),
    ensures
        ok == accepts::<E>(kind, bytes@.subrange(at as int, at + width::<E>(kind))),
{
    match kind {
        Kind::G1 => E::check_g1(slice_subrange(bytes, at, at + E::g1_len())),
        Kind::G2 => E::check_g2(slice_subrange(bytes, at, at + E::g2_len())),
        Kind::Length => true,
    }
}

/// Index of the first of the `count` elements of `kind` at `at` that is not
/// accepted.
fn check_items<E: Engine>(bytes: &[u8], at: usize, kind: Kind, count: u64) -> (rejected: Option<u64>)
    requires
        at + count * width::<E>(kind) <= bytes.len(),
    ensures
        match rejected {
            Some(i) => first_rejected_item::<E>(bytes@, at as int, kind, count as nat) == Some(
                i as int,
            ),
            None => first_rejected_item::<E>(bytes@, at as int, kind, count as nat) is None,
        },
{
    let w = kind_len::<E>(kind);
    let mut i: u64 = 0;
    let mut pos: usize = at;
    while i < count
        invariant
            i <= count,
            w == width::<E>(kind),
            w > 0,
            pos == at + i * w,
            at + count * w <= bytes.len(),
            first_rejected_item::<E>(bytes@, at as int, kind, i as nat) is None,
        decreases count - i,
    {
        proof {
            assert((i + 1) * w <= count * w) by (nonlinear_arith)
                requires
                    i + 1 <= count,
                    w > 0,
            ;
            assert((i + 1) * w == i * w + w) by (nonlinear_arith);
        }
        if !check_item::<E>(bytes, pos, kind) {
            proof {
                lemma_first_rejected_item_prefix::<E>(bytes@, at as int, kind, i as int, count as nat);
            }
            return Some(i);
        }
        pos = pos + w;
        i = i + 1;
    }
    None
}

/// Checks that an input of `len` bytes holds every element of `layout` in
/// full, and says how many bytes the layout spans.
pub fn check_holds<E: Engine>(len: usize, layout: &Vec<Segment>) -> (checked: Result<
    usize,
    DecodeError,
>)
    ensures
        match checked {
            Ok(total) => truncation::<E>(layout@, len as nat) is None && total == span::<E>(
                layout@,
            ),
            Err(e) => truncation::<E>(layout@, len as nat) == Some(e),
        },
{
    let mut pos: usize = 0;
    let mut k: usize = 0;
    proof {
        lemma_start_first::<E>(layout@);
    }
    while k < layout.len()
        invariant
            k <= layout@.len(),
            pos == start::<E>(layout@, k as int),
            pos <= len,
        decreases layout@.len() - k,
    {
        let segment = layout[k];
        let w = kind_len::<E>(segment.kind);
        let need: u128 = mul_wide(segment.count, w);
        proof {
            lemma_span_step::<E>(layout@, k as int);
        }
        if need > (len - pos) as u128 {
            let index = (len - pos) / w;
            proof {
                lemma_first_short_here::<E>(layout@, k as int, len as nat);
                assert(index < segment.count) by (nonlinear_arith)
                    requires
                        index == (len - pos) / (w as int),
                        w > 0,
                        len - pos < segment.count * w,
                        len - pos >= 0,
                ;
            }
            return Err(
                DecodeError {
                    kind: ErrorKind::TruncatedStream,
                    field: segment.field,
                    index: index as u64,
                },
            );
        }
        pos = pos + need as usize;
        k = k + 1;
    }
    proof {
        lemma_start_last::<E>(layout@);
        lemma_first_short_none::<E>(layout@, len as nat);
    }
    Ok(pos)
}

/// The first element that is not accepted, where `bytes` hold every element
/// of `layout` in full.
fn check_accepted<E: Engine>(bytes: &[u8], layout: &Vec<Segment>) -> (checked: Result<(), DecodeError>)
    requires
        span::<E>(layout@) <= bytes@.len(),
    ensures
        checked == (match first_rejected::<E>(bytes@, layout@) {
            Some((k, i)) => Err::<(), DecodeError>(DecodeError::malformed(layout@[k].field, i)),
            None => Ok(()),
        }),
{
    let len = bytes.len();
    let mut at: usize = 0;
    let mut k: usize = 0;
    proof {
        lemma_start_first::<E>(layout@);
    }
    while k < layout.len()
        invariant
            k <= layout@.len(),
            len == bytes@.len(),
            span::<E>(layout@) <= len,
            at == start::<E>(layout@, k as int),
            first_rejected::<E>(bytes@, layout@.take(k as int)) is None,
        decreases layout@.len() - k,
    {
        let segment = layout[k];
        let w = kind_len::<E>(segment.kind);
        proof {
            lemma_span_step::<E>(layout@, k as int);
            lemma_start_within::<E>(layout@, k + 1);
            lemma_first_rejected_step::<E>(bytes@, layout@, k as int);
        }
        match check_items::<E>(bytes, at, segment.kind, segment.count) {
            Some(i) => {
                proof {
                    lemma_first_rejected_prefix::<E>(bytes@, layout@, k + 1);
                }
                return Err(
                    DecodeError { kind: ErrorKind::MalformedPoint, field: segment.field, index: i },
                );
            },
            None => {},
        }
        let need: u128 = mul_wide(segment.count, w);
        at = at + need as usize;
        k = k + 1;
    }
    proof {
        assert(layout@.take(layout@.len() as int) =~= layout@);
    }
    Ok(())
}

/// Checks that `bytes` are an encoding of `layout`: that they hold every
/// element in full, that nothing follows the last element where `exact` is
/// set, and that every element is accepted.
pub fn check_layout<E: Engine>(bytes: &[u8], layout: &Vec<Segment>, exact: bool) -> (checked: Result<
    (),
    DecodeError,
>)
    ensures
        checked == as_result(layout_error::<E>(bytes@, layout@, exact)),
{
    let len = bytes.len();
    let total = match check_holds::<E>(len, layout) {
        Err(e) => {
            return Err(e);
        },
        Ok(total) => total,
    };
    proof {
        lemma_first_short_none::<E>(layout@, len as nat);
    }
    if exact && layout.len() > 0 && total < len {
        let last = layout[layout.len() - 1];
        return Err(
            DecodeError { kind: ErrorKind::LengthMismatch, field: last.field, index: last.count },
        );
    }
    check_accepted::<E>(bytes, layout)
}

/// The product of a count and a width.
fn mul_wide(count: u64, width: usize) -> (product: u128)
    ensures
        product == count * width,
{
    proof {
        assert(count * width <= 0xffff_ffff_ffff_ffff * 0xffff_ffff_ffff_ffff) by (nonlinear_arith)
            requires
                count <= 0xffff_ffff_ffff_ffff,
                width <= 0xffff_ffff_ffff_ffff,
        ;
    }
    count as u128 * width as u128
}

/// The first segment starts at 0.
pub proof fn lemma_start_first<E: Engine>(layout: Seq<Segment>)
    ensures
        start::<E>(layout, 0) == 0,
{
    assert(layout.take(0).len() == 0);
}

/// The layout ends where a segment after the last would start.
pub proof fn lemma_start_last<E: Engine>(layout: Seq<Segment>)
    ensures
        start::<E>(layout, layout.len() as int) == span::<E>(layout),
{
    assert(layout.take(layout.len() as int) =~= layout);
}

/// The items one after the other.
pub open spec fn concat(items: Seq<Seq<u8>>) -> Seq<u8>
    decreases items.len(),
{
    if items.len() == 0 {
        Seq::empty()
    } else {
        concat(items.drop_last()) + items.last()
    }
}

/// Each item is `width` bytes long.
pub open spec fn uniform(items: Seq<Seq<u8>>, width: nat) -> bool {
    forall|i: int| 0 <= i < items.len() ==> (#[trigger] items[i]).len() == width
}

/// Where the input holds all of a layout and none of its elements is
/// rejected, the elements of each segment have the width of their kind and
/// are accepted.
pub proof fn lemma_segment_accepted<E: Engine>(bytes: Seq<u8>, layout: Seq<Segment>, k: int)
    requires
        span::<E>(layout) <= bytes.len(),
        first_rejected::<E>(bytes, layout) is None,
        0 <= k < layout.len(),
    ensures
        start::<E>(layout, k) + segment_span::<E>(layout[k]) <= bytes.len(),
        items::<E>(bytes, layout, k).len() == layout[k].count,
        uniform(items::<E>(bytes, layout, k), width::<E>(layout[k].kind)),
        forall|i: int|
            0 <= i < layout[k].count ==> accepts::<E>(
                layout[k].kind,
                #[trigger] items::<E>(bytes, layout, k)[i],
            ),
{
    lemma_span_step::<E>(layout, k);
    lemma_start_within::<E>(layout, k + 1);
    let w = width::<E>(layout[k].kind) as int;
    let n = layout[k].count as int;
    let at = start::<E>(layout, k) as int;
    assert forall|i: int| 0 <= i < n implies (#[trigger] items::<E>(bytes, layout, k)[i]).len()
        == w && accepts::<E>(layout[k].kind, items::<E>(bytes, layout, k)[i]) by {
        lemma_accepted::<E>(bytes, layout, k, i);
        assert(0 <= i * w && (i + 1) * w <= n * w && (i + 1) * w == i * w + w)
            by (nonlinear_arith)
            requires
                0 <= i < n,
                w >= 0,
        ;
    }
}

/// The length of a concatenation of items of one width.
pub proof fn lemma_concat_len(items: Seq<Seq<u8>>, width: nat)
    requires
        uniform(items, width),
    ensures
        concat(items).len() == items.len() * width,
    decreases items.len(),
{
    if items.len() > 0 {
        lemma_concat_len(items.drop_last(), width);
        assert(items.len() * width == (items.len() - 1) * width + width) by (nonlinear_arith);
    } else {
        assert(items.len() * width == 0) by (nonlinear_arith)
            requires
                items.len() == 0,
        ;
    }
}

/// Items of one width are found again in their concatenation, whatever
/// stands before and after it.
pub proof fn lemma_items_of_concat(before: Seq<u8>, items: Seq<Seq<u8>>, after: Seq<u8>, width: nat)
    requires
        uniform(items, width),
    ensures
        items_at(before + concat(items) + after, before.len() as int, width as int, items.len())
            == items,
    decreases items.len(),
{
    let all = before + concat(items) + after;
    let found = items_at(all, before.len() as int, width as int, items.len());
    lemma_concat_len(items, width);
    assert forall|i: int| 0 <= i < items.len() implies found[i] == items[i] by {
        if i == items.len() - 1 {
            lemma_concat_len(items.drop_last(), width);
            assert((i + 1) * width == i * width + width) by (nonlinear_arith);
            assert(found[i] =~= items[i]);
        } else {
            let head = items.drop_last();
            lemma_items_of_concat(before, head, items.last() + after, width);
            let rest = before + concat(head) + (items.last() + after);
            assert(rest =~= all);
            assert(items_at(rest, before.len() as int, width as int, head.len())[i] == head[i]);
        }
    }
    assert(found =~= items);
}

/// The concatenation of the items that stand in a byte string is the part of
/// the string in which they stand.
pub proof fn lemma_concat_of_items(bytes: Seq<u8>, at: int, width: nat, n: nat)
    requires
        0 <= at,
        at + n * width <= bytes.len(),
    ensures
        concat(items_at(bytes, at, width as int, n)) == bytes.subrange(at, at + n * width),
    decreases n,
{
    let found = items_at(bytes, at, width as int, n);
    if n == 0 {
        assert(n * width == 0) by (nonlinear_arith)
            requires
                n == 0,
        ;
        assert(concat(found) =~= bytes.subrange(at, at + n * width));
    } else {
        let m = (n - 1) as nat;
        assert(n * width == m * width + width && m * width >= 0) by (nonlinear_arith)
            requires
                m == n - 1,
                n >= 1,
        ;
        lemma_concat_of_items(bytes, at, width, m);
        assert(found.drop_last() =~= items_at(bytes, at, width as int, m));
        assert(found.last() == bytes.subrange(at + m * width, at + (m + 1) * width));
        assert(concat(found) =~= bytes.subrange(at, at + n * width));
    }
}

} // verus!
