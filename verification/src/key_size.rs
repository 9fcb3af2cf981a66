//! The size record of a proving key: the lengths of its vectors, which its
//! compact encoding leaves out.
use vstd::prelude::*;

use crate::error::{DecodeError, ErrorKind, Field};
use crate::length::{length_bytes, length_value, read_length, write_length};

verus! {

/// The lengths of the vectors of a proving key.
#[derive(Clone, Copy, Debug, PartialEq, Eq, Structural)]
pub struct KeySize {
    /// Length of the verifying key's vector.
    pub vk_len: usize,
    /// Length of `a_query`.
    pub a_len: usize,
    /// Length of `b_g1_query`.
    pub b_g1_len: usize,
    /// Length of `b_g2_query`.
    pub b_g2_len: usize,
    /// Length of `h_query`.
    pub h_len: usize,
    /// Length of `l_query`.
    pub l_len: usize,
}

/// Bytes of an encoded size record: six lengths.
pub const KEY_SIZE_WIDTH: usize = 48;

impl KeySize {
    /// The encoding: the six lengths in the order of the fields.
    pub open spec fn bytes(self) -> Seq<u8> {
        length_bytes(self.vk_len as u64) + length_bytes(self.a_len as u64) + length_bytes(
            self.b_g1_len as u64,
        ) + length_bytes(self.b_g2_len as u64) + length_bytes(self.h_len as u64) + length_bytes(
            self.l_len as u64,
        )
    }

    /// The field that the length at position `k` belongs to.
    pub open spec fn field(k: int) -> Field {
        if k == 0 {
            Field::VkLen
        } else if k == 1 {
            Field::ALen
        } else if k == 2 {
            Field::BG1Len
        } else if k == 3 {
            Field::BG2Len
        } else if k == 4 {
            Field::HLen
        } else {
            Field::LLen
        }
    }

    /// The length that stands at position `k` in `bytes`.
    pub open spec fn slot(bytes: Seq<u8>, k: int) -> u64 {
        length_value(bytes.subrange(8 * k, 8 * k + 8))
    }

    /// Position of the first of the first `n` lengths in `bytes` that is too
    /// large for this machine.
    pub open spec fn first_oversized(bytes: Seq<u8>, n: nat) -> Option<int>
        decreases n,
    {
        if n == 0 {
            None
        } else {
            match Self::first_oversized(bytes, (n - 1) as nat) {
                Some(k) => Some(k),
                None => if Self::slot(bytes, n - 1) > usize::MAX {
                    Some(n - 1)
                } else {
                    None
                },
            }
        }
    }

    /// What decoding `bytes` gives: the record that stands at their start. An
    /// input of fewer than 48 bytes is truncated, at the length in which it
    /// ends. Failing that, the first length that is too large for this
    /// machine is mismatched.
    pub open spec fn decoded(bytes: Seq<u8>) -> Result<KeySize, DecodeError> {
        if bytes.len() < KEY_SIZE_WIDTH {
            Err(DecodeError::truncated(Self::field(bytes.len() as int / 8), 0))
        } else {
            match Self::first_oversized(bytes, 6) {
                Some(k) => Err(DecodeError::mismatch(Self::field(k), 0)),
                None => Ok(
                    KeySize {
                        vk_len: Self::slot(bytes, 0) as usize,
                        a_len: Self::slot(bytes, 1) as usize,
                        b_g1_len: Self::slot(bytes, 2) as usize,
                        b_g2_len: Self::slot(bytes, 3) as usize,
                        h_len: Self::slot(bytes, 4) as usize,
                        l_len: Self::slot(bytes, 5) as usize,
                    },
                ),
            }
        }
    }

    /// Appends the encoding of the record to `out`.
    pub fn write(&self, out: &mut Vec<u8>)
        ensures
            final(out)@ == old(out)@ + self.bytes(),
    {
        write_length(self.vk_len as u64, out);
        write_length(self.a_len as u64, out);
        write_length(self.b_g1_len as u64, out);
        write_length(self.b_g2_len as u64, out);
        write_length(self.h_len as u64, out);
        write_length(self.l_len as u64, out);
        assert(out@ =~= old(out)@ + self.bytes());
    }

    /// The encoding of the record.
    pub fn encode(&self) -> (bytes: Vec<u8>)
        ensures
            bytes@ == self.bytes(),
    {
        let mut out = Vec::new();
        self.write(&mut out);
        assert(out@ =~= self.bytes());
        out
    }

    /// Decodes the record that stands at the start of `bytes`.
    pub fn decode(bytes: &[u8]) -> (decoded: Result<KeySize, DecodeError>)
        ensures
            decoded == Self::decoded(bytes@),
    {
        let len = bytes.len();
        if len < KEY_SIZE_WIDTH {
            return Err(
                DecodeError {
                    kind: ErrorKind::TruncatedStream,
                    field: field_at(len / 8),
                    index: 0,
                },
            );
        }
        let mut lengths: Vec<usize> = Vec::new();
        let mut k: usize = 0;
        while k < 6
            invariant
                k <= 6,
                len == bytes@.len(),
                len >= KEY_SIZE_WIDTH,
                lengths@.len() == k,
                Self::first_oversized(bytes@, k as nat) is None,
                forall|j: int| 0 <= j < k ==> #[trigger] lengths@[j] == Self::slot(bytes@, j),
            decreases 6 - k,
        {
            let n = read_length(bytes, 8 * k);
            if n > usize::MAX as u64 {
                proof {
                    lemma_first_oversized_prefix(bytes@, k as int, 6);
                }
                return Err(
                    DecodeError { kind: ErrorKind::LengthMismatch, field: field_at(k), index: 0 },
                );
            }
            lengths.push(n as usize);
            k = k + 1;
        }
        Ok(
            KeySize {
                vk_len: lengths[0],
                a_len: lengths[1],
                b_g1_len: lengths[2],
                b_g2_len: lengths[3],
                h_len: lengths[4],
                l_len: lengths[5],
            },
        )
    }
}

/// The field that the length at position `k` belongs to.
fn field_at(k: usize) -> (field: Field)
    ensures
        field == KeySize::field(k as int),
{
    if k == 0 {
        Field::VkLen
    } else if k == 1 {
        Field::ALen
    } else if k == 2 {
        Field::BG1Len
    } else if k == 3 {
        Field::BG2Len
    } else if k == 4 {
        Field::HLen
    } else {
        Field::LLen
    }
}

/// The first oversized length stays the first when more lengths follow.
pub proof fn lemma_first_oversized_prefix(bytes: Seq<u8>, k: int, n: nat)
    requires
        0 <= k < n,
        KeySize::first_oversized(bytes, k as nat) is None,
        KeySize::slot(bytes, k) > usize::MAX,
    ensures
        KeySize::first_oversized(bytes, n) == Some(k),
    decreases n,
{
    if n > k + 1 {
        lemma_first_oversized_prefix(bytes, k, (n - 1) as nat);
    }
}

} // verus!
