//! Ed25519 keypairs, public keys and signatures.
//!
//! A keypair is held as its 32-byte secret seed; the public key and the
//! signatures are computed from it by `ed25519-dalek`.

use vstd::prelude::*;
use vstd::string::*;

use crate::error::OmniMeshError;
use crate::random::os_random_32;
use crate::text::{byte_list_string, byte_list_text, decimal, decimal_string, hex_encode, hex_lower};
use ed25519_dalek::{Signer, Verifier};

verus! {

/// The Ed25519 public key of the signing key with secret `seed`.
pub uninterp spec fn ed25519_public_key(seed: Seq<u8>) -> Seq<u8>;

/// The Ed25519 signature of `message` under the signing key with secret `seed`
/// (Ed25519 signatures are deterministic).
pub uninterp spec fn ed25519_signature(seed: Seq<u8>, message: Seq<u8>) -> Seq<u8>;

/// Whether `signature` is a valid Ed25519 signature of `message` under the
/// public key `public` (a key that does not decode to a curve point
/// validates nothing).
pub uninterp spec fn ed25519_verify(public: Seq<u8>, message: Seq<u8>, signature: Seq<u8>) -> bool;

/// The X25519 secret that goes with the Ed25519 signing key with secret
/// `seed`: the scalar half of SHA-512 of the seed (`to_scalar_bytes`).
pub uninterp spec fn ed25519_x25519_secret(seed: Seq<u8>) -> Seq<u8>;

/// The X25519 public key that goes with the Ed25519 public key `public`
/// (its Montgomery form), or `None` when `public` is no curve point. It is
/// the X25519 public key of `ed25519_x25519_secret` of the signing key.
pub uninterp spec fn ed25519_to_x25519(public: Seq<u8>) -> Option<Seq<u8>>;

/// `SigningKey::from_bytes(seed).to_scalar_bytes()`.
#[verifier::external_body]
fn x25519_secret_of(seed: &[u8; 32]) -> (k: [u8; 32])
    ensures
        k@ == ed25519_x25519_secret(seed@),
{
    ed25519_dalek::SigningKey::from_bytes(seed).to_scalar_bytes()
}

/// `VerifyingKey::from_bytes(public)` followed by `to_montgomery().to_bytes()`;
/// `None` when the key does not decode.
#[verifier::external_body]
pub(crate) fn x25519_public_of(public: &[u8; 32]) -> (k: Option<[u8; 32]>)
    ensures
        match k {
            Some(x) => ed25519_to_x25519(public@) == Some(x@),
            None => ed25519_to_x25519(public@) is None,
        },
{
    ed25519_dalek::VerifyingKey::from_bytes(public).ok().map(|vk| vk.to_montgomery().to_bytes())
}

/// `SigningKey::from_bytes(seed).verifying_key().to_bytes()`.
#[verifier::external_body]
fn public_key_of(seed: &[u8; 32]) -> (pk: [u8; 32])
    ensures
        pk@ == ed25519_public_key(seed@),
{
    ed25519_dalek::SigningKey::from_bytes(seed).verifying_key().to_bytes()
}

/// `SigningKey::from_bytes(seed).sign(message).to_bytes()`.
#[verifier::external_body]
fn sign_with(seed: &[u8; 32], message: &[u8]) -> (sig: [u8; 64])
    ensures
        sig@ == ed25519_signature(seed@, message@),
{
    ed25519_dalek::SigningKey::from_bytes(seed).sign(message).to_bytes()
}

/// Whether 32 bytes decode, as a compressed Edwards point, to a point of
/// the curve (what `ed25519_dalek::VerifyingKey::from_bytes` accepts).
pub uninterp spec fn ed25519_point_decodes(bytes: Seq<u8>) -> bool;

#[verifier::external_type_specification]
#[verifier::external_body]
pub struct ExSignatureError(ed25519_dalek::SignatureError);

/// No signature of any message verifies under `public`.
pub open spec fn validates_nothing(public: Seq<u8>) -> bool {
    forall|message: Seq<u8>, signature: Seq<u8>| !#[trigger] ed25519_verify(public, message, signature)
}

/// `public` is the public key of no seed.
pub open spec fn of_no_seed(public: Seq<u8>) -> bool {
    forall|seed: Seq<u8>| seed.len() == 32 ==> public != #[trigger] ed25519_public_key(seed)
}

/// `VerifyingKey::from_bytes(public)`, keeping only the error: it fails
/// exactly when the bytes are no curve point. Such bytes validate no
/// signature, and are no seed's public key (a public key is the compressed
/// form of a curve point, which decodes).
#[verifier::external_body]
fn check_public_key(public: &[u8; 32]) -> (res: Result<(), ed25519_dalek::SignatureError>)
    ensures
        (res is Ok) == ed25519_point_decodes(public@),
        res is Err ==> validates_nothing(public@) && of_no_seed(public@),
{
    ed25519_dalek::VerifyingKey::from_bytes(public)?;
    Ok(())
}

/// `VerifyingKey::from_bytes(public)` followed by `verify(message, signature)`:
/// `Ok` when the key decodes and the signature verifies. A key that does not
/// decode validates nothing, and a signature made with a seed verifies under
/// that seed's public key.
#[verifier::external_body]
fn verify_with(public: &[u8; 32], message: &[u8], signature: &[u8; 64]) -> (res: Result<(), ed25519_dalek::SignatureError>)
    ensures
        (res is Ok) == ed25519_verify(public@, message@, signature@),
        !ed25519_point_decodes(public@) ==> res is Err,
        (exists|seed: Seq<u8>| seed.len() == 32 && public@ == #[trigger] ed25519_public_key(seed) && signature@ == ed25519_signature(seed, message@)) ==> res is Ok,
{
    let vk = ed25519_dalek::VerifyingKey::from_bytes(public)?;
    vk.verify(message, &ed25519_dalek::Signature::from_bytes(signature))
}

/// The message an `ed25519_dalek::SignatureError` displays (`ToString::to_string`).
#[verifier::external_body]
fn signature_error_text(e: &ed25519_dalek::SignatureError) -> String {
    e.to_string()
}

/// `prefix` followed by `detail`.
fn prefixed_text(prefix: &str, detail: String) -> (s: String)
    ensures
        s@ == prefix@ + detail@,
{
    let mut s = prefix.to_owned();
    s.append(detail.as_str());
    s
}

/// An Ed25519 signing keypair, held as its secret seed.
#[derive(Clone)]
pub struct Keypair {
    seed: [u8; 32],
}

/// The public half of an Ed25519 keypair.
#[derive(Debug, Clone, PartialEq, Eq)]
pub struct PublicKey {
    /// Raw 32-byte Ed25519 public key.
    bytes: [u8; 32],
}

/// A cryptographic signature.
#[derive(Debug, Clone, PartialEq, Eq)]
pub struct Signature {
    /// Raw 64-byte Ed25519 signature.
    bytes: [u8; 64],
}

impl Keypair {
    /// The secret seed of this keypair.
    pub closed spec fn spec_seed(&self) -> Seq<u8> {
        self.seed@
    }

    /// The invariant of a keypair: its seed has 32 bytes.
    pub proof fn lemma_seed_len(&self)
        ensures
            self.spec_seed().len() == 32,
    {
    }

    /// Generate a new random Ed25519 keypair from the OS CSPRNG.
    pub fn generate() -> (kp: Self)
        ensures
            kp.spec_seed().len() == 32,
    {
        Keypair { seed: os_random_32() }
    }

    /// Reconstruct a keypair from a 32-byte secret seed.
    pub fn from_seed(seed: &[u8; 32]) -> (kp: Self)
        ensures
            kp.spec_seed() == seed@,
    {
        Keypair { seed: *seed }
    }

    /// Get the secret seed (32 bytes). Handle with care!
    pub fn seed(&self) -> (s: [u8; 32])
        ensures
            s@ == self.spec_seed(),
    {
        self.seed
    }

    /// The static private key this keypair uses in Noise handshakes: the
    /// X25519 secret that goes with the signing key, so that the peer sees
    /// the Montgomery form of this keypair's public key.
    pub fn noise_private_key(&self) -> (k: [u8; 32])
        ensures
            k@ == ed25519_x25519_secret(self.spec_seed()),
    {
        x25519_secret_of(&self.seed)
    }

    /// Get the public key.
    pub fn public_key(&self) -> (pk: PublicKey)
        ensures
            pk.spec_bytes() == ed25519_public_key(self.spec_seed()),
    {
        PublicKey { bytes: public_key_of(&self.seed) }
    }

    /// Sign a message.
    pub fn sign(&self, message: &[u8]) -> (sig: Signature)
        ensures
            sig.spec_bytes() == ed25519_signature(self.spec_seed(), message@),
    {
        Signature { bytes: sign_with(&self.seed, message) }
    }

    /// Verify a signature against this keypair's public key. A signature
    /// this keypair made of the same message verifies.
    pub fn verify(&self, message: &[u8], signature: &Signature) -> (res: Result<(), OmniMeshError>)
        ensures
            res is Ok <==> ed25519_verify(ed25519_public_key(self.spec_seed()), message@, signature.spec_bytes()),
            res matches Err(e) ==> e is Identity,
            signature.spec_bytes() == ed25519_signature(self.spec_seed(), message@) ==> res is Ok,
    {
        let pk = self.public_key();
        proof {
            let s = self.spec_seed();
            assert(s.len() == 32 && ed25519_public_key(s) == pk.spec_bytes());
        }
        pk.verify(message, signature)
    }

    /// The debug rendering: the public key's bytes, and the secret hidden.
    pub fn debug_string(&self) -> (s: String)
        ensures
            s@ == "Keypair { public_key: PublicKey { bytes: "@ + byte_list_text(ed25519_public_key(self.spec_seed()))
                + " }, secret: \"[REDACTED]\" }"@,
    {
        let pk = public_key_of(&self.seed);
        let mut s = "Keypair { public_key: PublicKey { bytes: ".to_owned();
        let list = byte_list_string(pk.as_slice());
        s.append(list.as_str());
        s.append(" }, secret: \"[REDACTED]\" }");
        s
    }
}

impl PublicKey {
    /// The key's bytes.
    pub closed spec fn spec_bytes(&self) -> Seq<u8> {
        self.bytes@
    }

    /// Create a PublicKey from raw 32-byte Ed25519 public key bytes.
    pub fn from_bytes(bytes: [u8; 32]) -> (pk: Self)
        ensures
            pk.spec_bytes() == bytes@,
    {
        PublicKey { bytes }
    }

    /// Get the raw bytes.
    pub fn as_bytes(&self) -> (b: &[u8; 32])
        ensures
            b@ == self.spec_bytes(),
    {
        &self.bytes
    }

    /// Verify a signature against this public key; an identity error naming
    /// the invalid key when it is not a curve point, otherwise naming the
    /// failed verification when the signature does not verify.
    pub fn verify(&self, message: &[u8], signature: &Signature) -> (res: Result<(), OmniMeshError>)
        ensures
            res is Ok <==> ed25519_verify(self.spec_bytes(), message@, signature.spec_bytes()),
            res matches Err(e) ==> (e matches OmniMeshError::Identity(m) && if ed25519_point_decodes(self.spec_bytes()) {
                m@.len() >= 31 && m@.subrange(0, 31) == "signature verification failed: "@
            } else {
                m@.len() >= 20 && m@.subrange(0, 20) == "invalid public key: "@
            }),
            (exists|seed: Seq<u8>| seed.len() == 32 && self.spec_bytes() == #[trigger] ed25519_public_key(seed)
                && signature.spec_bytes() == ed25519_signature(seed, message@)) ==> res is Ok,
    {
        proof {
            reveal_strlit("signature verification failed: ");
            reveal_strlit("invalid public key: ");
        }
        if let Err(e) = check_public_key(&self.bytes) {
            let m = prefixed_text("invalid public key: ", signature_error_text(&e));
            assert(m@.subrange(0, 20) =~= "invalid public key: "@);
            return Err(OmniMeshError::Identity(m));
        }
        match verify_with(&self.bytes, message, &signature.bytes) {
            Ok(()) => Ok(()),
            Err(e) => {
                let m = prefixed_text("signature verification failed: ", signature_error_text(&e));
                assert(m@.subrange(0, 31) =~= "signature verification failed: "@);
                Err(OmniMeshError::Identity(m))
            },
        }
    }

    /// Encode as hex string.
    pub fn to_hex(&self) -> (s: String)
        ensures
            s@ == hex_lower(self.spec_bytes()),
    {
        hex_encode(self.bytes.as_slice())
    }
}

impl Signature {
    /// The signature's bytes.
    pub closed spec fn spec_bytes(&self) -> Seq<u8> {
        self.bytes@
    }

    /// Create from raw 64-byte signature.
    pub fn from_bytes(bytes: [u8; 64]) -> (sig: Self)
        ensures
            sig.spec_bytes() == bytes@,
    {
        Signature { bytes }
    }

    /// Get the raw bytes.
    pub fn as_bytes(&self) -> (b: &[u8; 64])
        ensures
            b@ == self.spec_bytes(),
    {
        &self.bytes
    }

    /// Read a signature from its serialized bytes: exactly 64 of them,
    /// otherwise the decoding error names the length found.
    pub fn from_slice(bytes: &[u8]) -> (res: Result<Self, String>)
        ensures
            match res {
                Ok(sig) => bytes@.len() == 64 && sig.spec_bytes() == bytes@,
                Err(msg) => bytes@.len() != 64 && msg@ == "expected 64 bytes for Signature, got "@ + decimal(bytes@.len() as nat),
            },
    {
        if bytes.len() != 64 {
            let mut msg = "expected 64 bytes for Signature, got ".to_owned();
            let n = decimal_string(bytes.len() as u64);
            msg.append(n.as_str());
            proof { reveal_strlit("expected 64 bytes for Signature, got "); }
            return Err(msg);
        }
        let mut arr = [0u8; 64];
        let mut i: usize = 0;
        while i < 64
            invariant
                i <= 64,
                bytes@.len() == 64,
                arr@.len() == 64,
                forall|j: int| 0 <= j < i ==> arr@[j] == bytes@[j],
            decreases 64 - i,
        {
            arr[i] = bytes[i];
            i = i + 1;
        }
        assert(arr@ =~= bytes@);
        Ok(Signature { bytes: arr })
    }
}

/// Two keypairs made from one seed are the same key: equal public keys and
/// equal signatures of every message.
pub proof fn law_keypair_from_seed_deterministic(a: Keypair, b: Keypair, message: Seq<u8>)
    requires
        a.spec_seed() == b.spec_seed(),
    ensures
        ed25519_public_key(a.spec_seed()) == ed25519_public_key(b.spec_seed()),
        ed25519_signature(a.spec_seed(), message) == ed25519_signature(b.spec_seed(), message),
{
}

} // verus!
