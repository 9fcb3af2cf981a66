//! Byte layouts of the artifacts of a Groth16-style proof system: proofs,
//! verifying keys, prepared verifying keys and proving keys, with the size
//! record that guides the reconstruction of a key from a stream that carries
//! no lengths.
//!
//! A group element is held as the encoding that the pairing engine's point
//! codec accepts. Every artifact has a view made of those encodings, and the
//! contracts of the codecs are stated over the views.
pub mod bls12_381;
pub mod carve;
pub mod encodings;
pub mod engine;
pub mod error;
pub mod key_size;
pub mod laws;
pub mod layout;
pub mod length;
pub mod point;
pub mod prepared;
pub mod proving_key;
pub mod sections;
pub mod verifying_key;
pub mod zk_proof;

pub use crate::bls12_381::Bls12_381;
pub use crate::engine::Engine;
pub use crate::error::{DecodeError, ErrorKind, Field};
pub use crate::key_size::KeySize;
pub use crate::point::{G1Point, G2Point};
pub use crate::prepared::PreparedVerifyingKey;
pub use crate::proving_key::ProvingKey;
pub use crate::verifying_key::VerifyingKey;
pub use crate::zk_proof::Proof;
