//! Fixed-size keys, hashes and integers that the message and storage types
//! carry. Each holds its raw bytes (or limbs) as plain values.
use vstd::prelude::*;

use crate::hex_text::{hex_encode, hex_lower, lemma_hex_lower_decodes};

verus! {

/// An sr25519 public key: 32 raw bytes.
#[derive(Clone, Copy, Debug, PartialEq, Eq, Hash, PartialOrd, Ord)]
pub struct Public(pub [u8; 32]);

impl Public {
    /// The key as lowercase hex text, the form in which debug output shows a
    /// worker's key.
    pub fn to_hex(&self) -> (text: String)
        ensures
            text@ == hex_lower(self.0@),
            text@.len() == 64,
    {
        let text = hex_encode(self.0.as_slice());
        proof {
            lemma_hex_lower_decodes(self.0@);
        }
        text
    }
}

/// An sr25519 signature: 64 raw bytes.
#[derive(Clone, Copy, Debug, PartialEq, Eq, Hash)]
pub struct Signature(pub [u8; 64]);

/// A 256-bit hash: 32 raw bytes.
#[derive(Clone, Copy, Debug, Default, PartialEq, Eq, Hash, PartialOrd, Ord)]
pub struct H256(pub [u8; 32]);

/// A 256-bit unsigned integer as four little-endian 64-bit limbs.
#[derive(Clone, Copy, Debug, Default, PartialEq, Eq, Hash)]
pub struct U256(pub [u64; 4]);

/// The public key that identifies a worker.
pub type WorkerPublicKey = Public;

/// The public key of a contract.
pub type ContractPublicKey = Public;

/// The public key of a cluster.
pub type ClusterPublicKey = Public;

/// The public key of the master key.
pub type MasterPublicKey = Public;

/// The public key used for ECDH key agreement.
pub type EcdhPublicKey = Public;

/// A signature made with an sr25519 key.
pub type Sr25519Signature = Signature;

} // verus!
