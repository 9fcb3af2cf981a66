//! The capability that a pairing-friendly curve offers to the codecs: the
//! fixed widths of its point encodings, which byte strings it accepts as
//! points, and the derived elements of a prepared verifying key.
use vstd::prelude::*;

verus! {

/// A pairing engine, seen through the byte encodings of its elements.
///
/// A point is identified with its encoding. The encoding of a `G1` point is
/// any string of `g1_width()` bytes that `g1_accepts`, and likewise for `G2`.
pub trait Engine: Sized {
    /// Number of bytes of an encoded `G1` point.
    spec fn g1_width() -> nat;

    /// Number of bytes of an encoded `G2` point.
    spec fn g2_width() -> nat;

    /// Whether the point codec decodes `bytes` to a `G1` point.
    spec fn g1_accepts(bytes: Seq<u8>) -> bool;

    /// Whether the point codec decodes `bytes` to a `G2` point.
    spec fn g2_accepts(bytes: Seq<u8>) -> bool;

    /// Encoding of the identity of `G1`.
    spec fn g1_identity() -> Seq<u8>;

    /// Encoding of the identity of `G2`.
    spec fn g2_identity() -> Seq<u8>;

    /// Encoding of the pairing of the `G1` point `p` with the `G2` point `q`,
    /// or `None` where the engine's final exponentiation fails.
    spec fn pairing(p: Seq<u8>, q: Seq<u8>) -> Option<Seq<u8>>;

    /// Encoding of the prepared form of the negation of the `G2` point `q`.
    spec fn negated_prepared(q: Seq<u8>) -> Seq<u8>;

    /// Both widths are positive.
    proof fn widths_are_positive()
        ensures
            Self::g1_width() > 0,
            Self::g2_width() > 0,
    ;

    /// Number of bytes of an encoded `G1` point.
    fn g1_len() -> (n: usize)
        ensures
            n == Self::g1_width(),
    ;

    /// Number of bytes of an encoded `G2` point.
    fn g2_len() -> (n: usize)
        ensures
            n == Self::g2_width(),
    ;

    /// Whether the point codec decodes `bytes` to a `G1` point.
    fn check_g1(bytes: &[u8]) -> (ok: bool)
        requires
            bytes@.len() == Self::g1_width(),
        ensures
            ok == Self::g1_accepts(bytes@),
    ;

    /// Whether the point codec decodes `bytes` to a `G2` point.
    fn check_g2(bytes: &[u8]) -> (ok: bool)
        requires
            bytes@.len() == Self::g2_width(),
        ensures
            ok == Self::g2_accepts(bytes@),
    ;

    /// The encoding of the identity of `G1`, which the point codec accepts.
    fn identity_g1() -> (bytes: Vec<u8>)
        ensures
            bytes@ == Self::g1_identity(),
            bytes@.len() == Self::g1_width(),
            Self::g1_accepts(bytes@),
    ;

    /// The encoding of the identity of `G2`, which the point codec accepts.
    fn identity_g2() -> (bytes: Vec<u8>)
        ensures
            bytes@ == Self::g2_identity(),
            bytes@.len() == Self::g2_width(),
            Self::g2_accepts(bytes@),
    ;

    /// The encoding of the pairing of the points that `p` and `q` encode,
    /// or `None` where the final exponentiation fails.
    fn pair(p: &[u8], q: &[u8]) -> (e: Option<Vec<u8>>)
        requires
            p@.len() == Self::g1_width(),
            Self::g1_accepts(p@),
            q@.len() == Self::g2_width(),
            Self::g2_accepts(q@),
        ensures
            bytes_of(e) == Self::pairing(p@, q@),
    ;

    /// The encoding of the prepared form of the negation of the point that
    /// `q` encodes.
    fn negate_and_prepare(q: &[u8]) -> (bytes: Vec<u8>)
        requires
            q@.len() == Self::g2_width(),
            Self::g2_accepts(q@),
        ensures
            bytes@ == Self::negated_prepared(q@),
    ;
}

/// `bytes` is the encoding of a `G1` point of `E`.
pub open spec fn is_g1<E: Engine>(bytes: Seq<u8>) -> bool {
    bytes.len() == E::g1_width() && E::g1_accepts(bytes)
}

/// `bytes` is the encoding of a `G2` point of `E`.
pub open spec fn is_g2<E: Engine>(bytes: Seq<u8>) -> bool {
    bytes.len() == E::g2_width() && E::g2_accepts(bytes)
}

/// The bytes that an optional buffer holds.
pub open spec fn bytes_of(buffer: Option<Vec<u8>>) -> Option<Seq<u8>> {
    match buffer {
        Some(v) => Some(v@),
        None => None,
    }
}

} // verus!
