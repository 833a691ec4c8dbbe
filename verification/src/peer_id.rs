//! PeerId derivation from Ed25519 public keys: a PeerId is the raw 32-byte
//! public key.

use vstd::prelude::*;

use crate::keypair::{ed25519_public_key, Keypair, PublicKey};
use crate::types::PeerId;

verus! {

/// Extension trait for deriving a PeerId from identity types.
pub trait PeerIdExt {
    /// The bytes of the PeerId this value derives.
    spec fn spec_peer_id_bytes(&self) -> Seq<u8>;

    /// Derive a PeerId from this value.
    fn to_peer_id(&self) -> (p: PeerId)
        ensures
            p.0@ == self.spec_peer_id_bytes();
}

impl PeerIdExt for PublicKey {
    /// The public key's own bytes.
    open spec fn spec_peer_id_bytes(&self) -> Seq<u8> {
        self.spec_bytes()
    }

    fn to_peer_id(&self) -> (p: PeerId) {
        PeerId::from_bytes(*self.as_bytes())
    }
}

impl PeerIdExt for Keypair {
    /// The bytes of the keypair's public key.
    open spec fn spec_peer_id_bytes(&self) -> Seq<u8> {
        ed25519_public_key(self.spec_seed())
    }

    fn to_peer_id(&self) -> (p: PeerId) {
        self.public_key().to_peer_id()
    }
}

/// Derive a PeerId directly from raw public key bytes.
pub fn peer_id_from_public_key_bytes(public_key: &[u8; 32]) -> (p: PeerId)
    ensures
        p.0 == *public_key,
{
    PeerId::from_bytes(*public_key)
}

} // verus!
