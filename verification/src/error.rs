//! What a decoder reports when it rejects its input.
use vstd::prelude::*;

verus! {

/// Why a decoder rejected its input.
#[derive(Clone, Copy, Debug, PartialEq, Eq, Structural)]
pub enum ErrorKind {
    /// The bytes of one element are not an encoding that the engine accepts.
    MalformedPoint,
    /// The input ends before everything the format calls for has been read.
    TruncatedStream,
    /// A declared length disagrees with the data: the input holds more than
    /// the declared lengths account for, or a declared length cannot be
    /// represented.
    LengthMismatch,
}

/// The part of an artifact that a decoder was reading.
#[derive(Clone, Copy, Debug, PartialEq, Eq, Structural)]
pub enum Field {
    /// `a` of a proof.
    A,
    /// `b` of a proof.
    B,
    /// `c` of a proof.
    C,
    /// `alpha_g1` of a verifying key.
    AlphaG1,
    /// `beta_g2` of a verifying key.
    BetaG2,
    /// `gamma_g2` of a verifying key.
    GammaG2,
    /// `delta_g2` of a verifying key.
    DeltaG2,
    /// The length of `gamma_abc_g1` in the self-describing encoding.
    GammaAbcLen,
    /// `gamma_abc_g1` of a verifying key.
    GammaAbcG1,
    /// `alpha_g1_beta_g2` of a prepared verifying key.
    AlphaG1BetaG2,
    /// `gamma_g2_neg_pc` of a prepared verifying key.
    GammaG2NegPc,
    /// `delta_g2_neg_pc` of a prepared verifying key.
    DeltaG2NegPc,
    /// `beta_g1` of a proving key.
    BetaG1,
    /// `delta_g1` of a proving key.
    DeltaG1,
    /// `a_query` of a proving key.
    AQuery,
    /// `b_g1_query` of a proving key.
    BG1Query,
    /// `b_g2_query` of a proving key.
    BG2Query,
    /// `h_query` of a proving key.
    HQuery,
    /// `l_query` of a proving key.
    LQuery,
    /// `vk_len` of a size record.
    VkLen,
    /// `a_len` of a size record.
    ALen,
    /// `b_g1_len` of a size record.
    BG1Len,
    /// `b_g2_len` of a size record.
    BG2Len,
    /// `h_len` of a size record.
    HLen,
    /// `l_len` of a size record.
    LLen,
}

/// A rejected input: the reason, the field that was being read, and the
/// position within that field (0 for a field that holds a single element).
#[derive(Clone, Copy, Debug, PartialEq, Eq, Structural)]
pub struct DecodeError {
    /// Why the input was rejected.
    pub kind: ErrorKind,
    /// The field that was being read.
    pub field: Field,
    /// The element of the field that was being read.
    pub index: u64,
}

impl DecodeError {
    /// The element `index` of `field` is not a valid encoding.
    pub open spec fn malformed(field: Field, index: int) -> DecodeError {
        DecodeError { kind: ErrorKind::MalformedPoint, field, index: index as u64 }
    }

    /// The input ends before the element `index` of `field` is complete.
    pub open spec fn truncated(field: Field, index: int) -> DecodeError {
        DecodeError { kind: ErrorKind::TruncatedStream, field, index: index as u64 }
    }

    /// Data stands where `field`, which was declared to hold `index`
    /// elements, should have ended, or the length `field` does not fit.
    pub open spec fn mismatch(field: Field, index: int) -> DecodeError {
        DecodeError { kind: ErrorKind::LengthMismatch, field, index: index as u64 }
    }
}

/// `result` is an error of the given kind.
pub open spec fn fails_with<T>(result: Result<T, DecodeError>, kind: ErrorKind) -> bool {
    match result {
        Err(e) => e.kind == kind,
        Ok(_) => false,
    }
}

} // verus!
