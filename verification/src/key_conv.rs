//! Conversions between OmniMesh identities and their `libp2p` equivalents.
//!
//! An OmniMesh PeerId is a 32-byte Ed25519 public key; its libp2p PeerId is
//! the identity multihash of the protobuf-encoded key.

use vstd::prelude::*;

use crate::error::OmniMeshError;
use crate::keypair::{ed25519_point_decodes, ed25519_public_key, Keypair};
use crate::text::decimal_string;
use crate::types::PeerId;
use libp2p::identity::ed25519::PublicKey as Ed25519Key;
use libp2p::identity::DecodingError;
use libp2p::identity::Keypair as P2pKeypair;

verus! {

#[verifier::external_type_specification]
#[verifier::external_body]
pub struct ExLibp2pKeypair(P2pKeypair);

#[verifier::external_type_specification]
#[verifier::external_body]
pub struct ExLibp2pDecodingError(DecodingError);

/// What `libp2p::identity::PublicKey::try_decode_protobuf` makes of `bytes`:
/// `None` when they are no protobuf-encoded public key, `Some(None)` for a
/// key of another type than Ed25519, `Some(Some(k))` for the Ed25519 key `k`.
pub uninterp spec fn protobuf_ed25519_key(bytes: Seq<u8>) -> Option<Option<[u8; 32]>>;

/// A libp2p identity keypair, with the 64 bytes (secret key, then public
/// key) it was made from.
pub struct Libp2pIdentity {
    keypair: P2pKeypair,
    bytes: Ghost<Seq<u8>>,
}

impl Libp2pIdentity {
    /// The secret key followed by the public key this identity was made from.
    pub closed spec fn spec_bytes(&self) -> Seq<u8> {
        self.bytes@
    }

    /// The libp2p keypair, to hand to libp2p.
    pub fn into_keypair(self) -> P2pKeypair {
        self.keypair
    }
}

/// `libp2p::identity::ed25519::Keypair::try_from_bytes` on the secret key
/// followed by the public key, made a `libp2p::identity::Keypair` and kept
/// with the bytes it was made from. It succeeds exactly when the public half
/// is the one derived from the secret half
/// (`ed25519_dalek::SigningKey::from_keypair_bytes` compares the two
/// compressed keys).
#[verifier::external_body]
fn ed25519_keypair_try_from_bytes(raw: [u8; 64]) -> (res: Result<Libp2pIdentity, DecodingError>)
    ensures
        (res is Ok) == (raw@.subrange(32, 64) == ed25519_public_key(raw@.subrange(0, 32))),
        res matches Ok(k) ==> k.bytes@ == raw@,
{
    let mut bytes = raw;
    let keypair = P2pKeypair::from(libp2p::identity::ed25519::Keypair::try_from_bytes(&mut bytes)?);
    Ok(Libp2pIdentity { keypair, bytes: Ghost(raw@) })
}

/// The multihash of the libp2p PeerId of the Ed25519 public key `raw`:
/// `libp2p::identity::ed25519::PublicKey::try_from_bytes`, then
/// `libp2p::PeerId::from_public_key`, read back through `as_ref` as its code
/// and digest. The parse succeeds exactly when the bytes are a curve point.
/// The PeerId of a key whose protobuf encoding is at most 42 bytes (an
/// Ed25519 key's is 36) is the identity multihash (code 0) of that encoding,
/// and decoding the encoding gives the Ed25519 key `raw` back.
#[verifier::external_body]
fn libp2p_multihash_of_ed25519(raw: &[u8; 32]) -> (res: Result<(u64, Vec<u8>), DecodingError>)
    ensures
        (res is Ok) == ed25519_point_decodes(raw@),
        res matches Ok((code, digest)) ==> code == 0 && protobuf_ed25519_key(digest@) == Some(Some(*raw)),
{
    let key = Ed25519Key::try_from_bytes(raw)?;
    let p = libp2p::PeerId::from_public_key(&libp2p::identity::PublicKey::from(key));
    let mh: &libp2p::multihash::Multihash<64> = p.as_ref();
    Ok((mh.code(), mh.digest().to_vec()))
}

/// `libp2p::identity::PublicKey::try_decode_protobuf`, with the decoded key
/// told apart by its type: the Ed25519 key's bytes, or `None` for another
/// key type.
#[verifier::external_body]
fn decode_protobuf_public_key(bytes: &[u8]) -> (res: Result<Option<[u8; 32]>, DecodingError>)
    ensures
        (res is Ok) == (protobuf_ed25519_key(bytes@) is Some),
        res matches Ok(k) ==> protobuf_ed25519_key(bytes@) == Some(k),
{
    let key = libp2p::identity::PublicKey::try_decode_protobuf(bytes)?;
    match key.try_into_ed25519() {
        Ok(ed) => Ok(Some(ed.to_bytes())),
        Err(_) => Ok(None),
    }
}

/// The display text of a libp2p decoding error. Nothing is stated of it.
#[verifier::external_body]
fn decoding_error_text(e: &DecodingError) -> (s: String) {
    e.to_string()
}

/// A libp2p PeerId, held as its multihash: the multihash code and digest.
#[derive(Debug, Clone)]
pub struct Libp2pPeerId {
    /// The multihash code (0 for an identity multihash).
    pub code: u64,
    /// The multihash digest.
    pub digest: Vec<u8>,
}

/// The 64-byte libp2p form of a keypair: the secret seed, then the public key.
fn keypair_bytes(seed: &[u8; 32], public: &[u8; 32]) -> (raw: [u8; 64])
    ensures
        raw@ == seed@ + public@,
{
    let mut raw = [0u8; 64];
    let mut i: usize = 0;
    while i < 32
        invariant
            i <= 32,
            raw@.len() == 64,
            forall|j: int| 0 <= j < i ==> raw@[j] == seed@[j],
        decreases 32 - i,
    {
        raw[i] = seed[i];
        i = i + 1;
    }
    let mut k: usize = 0;
    while k < 32
        invariant
            k <= 32,
            raw@.len() == 64,
            forall|j: int| 0 <= j < 32 ==> raw@[j] == seed@[j],
            forall|j: int| 0 <= j < k ==> raw@[32 + j] == public@[j],
        decreases 32 - k,
    {
        raw[32 + k] = public[k];
        k = k + 1;
    }
    assert(raw@ =~= seed@ + public@);
    raw
}

/// The bytes a keypair is handed to libp2p as: its secret seed, then its
/// Ed25519 public key.
pub fn libp2p_keypair_bytes(keypair: &Keypair) -> (raw: [u8; 64])
    ensures
        raw@ == keypair.spec_seed() + ed25519_public_key(keypair.spec_seed()),
{
    let seed = keypair.seed();
    let public = keypair.public_key();
    keypair_bytes(&seed, public.as_bytes())
}

/// Convert an OmniMesh keypair to a libp2p keypair, made from
/// [`libp2p_keypair_bytes`]: this keypair's seed and public key. The public
/// half handed over is the one derived from the seed, so the conversion
/// never fails.
pub fn to_libp2p_keypair(keypair: &Keypair) -> (res: Result<Libp2pIdentity, OmniMeshError>)
    ensures
        res matches Ok(k) && k.spec_bytes() == keypair.spec_seed() + ed25519_public_key(keypair.spec_seed()),
{
    let raw = libp2p_keypair_bytes(keypair);
    proof {
        keypair.lemma_seed_len();
        assert(raw@.subrange(0, 32) =~= keypair.spec_seed());
        assert(raw@.subrange(32, 64) =~= ed25519_public_key(keypair.spec_seed()));
    }
    match ed25519_keypair_try_from_bytes(raw) {
        Ok(k) => Ok(k),
        Err(e) => {
            let mut msg = "failed to decode libp2p ed25519 keypair: ".to_owned();
            let detail = decoding_error_text(&e);
            msg.append(detail.as_str());
            Err(OmniMeshError::Identity(msg))
        },
    }
}

/// Convert an OmniMesh PeerId to a libp2p PeerId: it succeeds exactly when
/// the PeerId's bytes are an Ed25519 public key (a curve point), and fails
/// with an identity error otherwise. The libp2p PeerId is the identity
/// multihash of the key's protobuf encoding, which decodes to the key.
pub fn to_libp2p_peer_id(peer_id: &PeerId) -> (res: Result<Libp2pPeerId, OmniMeshError>)
    ensures
        (res is Ok) == ed25519_point_decodes(peer_id.0@),
        match res {
            Ok(m) => m.code == 0 && protobuf_ed25519_key(m.digest@) == Some(Some(peer_id.0)),
            Err(e) => e is Identity,
        },
{
    match libp2p_multihash_of_ed25519(peer_id.as_bytes()) {
        Ok((code, digest)) => Ok(Libp2pPeerId { code, digest }),
        Err(e) => {
            let mut msg = "invalid ed25519 public key bytes: ".to_owned();
            let detail = decoding_error_text(&e);
            msg.append(detail.as_str());
            Err(OmniMeshError::Identity(msg))
        },
    }
}

/// The OmniMesh PeerId a libp2p multihash carries: only an identity
/// multihash (code 0) carries a key; its digest must be a protobuf-encoded
/// public key, and that key an Ed25519 key, whose bytes are the PeerId.
/// Each other case is an identity error.
pub open spec fn spec_peer_id_from_multihash(code: u64, digest: Seq<u8>) -> Option<[u8; 32]> {
    if code != 0 {
        None
    } else {
        match protobuf_ed25519_key(digest) {
            Some(Some(k)) => Some(k),
            _ => None,
        }
    }
}

/// Read the OmniMesh PeerId out of a libp2p multihash given by its code
/// and digest.
pub fn peer_id_from_multihash(code: u64, digest: &[u8]) -> (res: Result<PeerId, OmniMeshError>)
    ensures
        match res {
            Ok(p) => spec_peer_id_from_multihash(code, digest@) == Some(p.0),
            Err(e) => spec_peer_id_from_multihash(code, digest@) is None && e is Identity,
        },
{
    if code != 0 {
        let mut msg = "cannot extract public key from non-identity libp2p PeerId (code: ".to_owned();
        let n = decimal_string(code);
        msg.append(n.as_str());
        msg.append(")");
        return Err(OmniMeshError::Identity(msg));
    }
    match decode_protobuf_public_key(digest) {
        Ok(Some(k)) => Ok(PeerId::from_bytes(k)),
        Ok(None) => Err(OmniMeshError::Identity("libp2p public key is not Ed25519".to_owned())),
        Err(e) => {
            let mut msg = "failed to decode libp2p public key protobuf: ".to_owned();
            let detail = decoding_error_text(&e);
            msg.append(detail.as_str());
            Err(OmniMeshError::Identity(msg))
        },
    }
}

/// Convert a libp2p PeerId to an OmniMesh PeerId: the Ed25519 key its
/// multihash carries (see `peer_id_from_multihash`); any failure is an
/// identity error.
pub fn from_libp2p_peer_id(peer_id: &Libp2pPeerId) -> (res: Result<PeerId, OmniMeshError>)
    ensures
        match res {
            Ok(p) => spec_peer_id_from_multihash(peer_id.code, peer_id.digest@) == Some(p.0),
            Err(e) => spec_peer_id_from_multihash(peer_id.code, peer_id.digest@) is None && e is Identity,
        },
{
    peer_id_from_multihash(peer_id.code, peer_id.digest.as_slice())
}

/// What libp2p's `Multiaddr` parser makes of a text: `None` when it is no
/// multiaddr, `Some(None)` when its last component is not a `/p2p` one, and
/// `Some(Some((code, digest)))` when it ends in `/p2p` with the PeerId of
/// that multihash.
pub uninterp spec fn multiaddr_last_peer(text: Seq<char>) -> Option<Option<(u64, Seq<u8>)>>;

/// `str::parse::<libp2p::Multiaddr>`, then the last component of the
/// address, told apart by whether it is `/p2p` (its PeerId read back through
/// `as_ref` as the multihash code and digest).
#[verifier::external_body]
fn parse_multiaddr_last_peer(text: &str) -> (res: Option<Option<(u64, Vec<u8>)>>)
    ensures
        match res {
            None => multiaddr_last_peer(text@) is None,
            Some(None) => multiaddr_last_peer(text@) == Some(None::<(u64, Seq<u8>)>),
            Some(Some((code, digest))) => multiaddr_last_peer(text@) == Some(Some((code, digest@))),
        },
{
    match text.parse::<libp2p::Multiaddr>() {
        Err(_) => None,
        Ok(addr) => match addr.iter().last() {
            Some(libp2p::multiaddr::Protocol::P2p(p)) => {
                let mh: &libp2p::multihash::Multihash<64> = p.as_ref();
                Some(Some((mh.code(), mh.digest().to_vec())))
            },
            _ => Some(None),
        },
    }
}

/// What a configured bootstrap node's text gives.
#[derive(Debug)]
pub enum BootstrapNode {
    /// A multiaddr ending in `/p2p/<peer>`: the node to seed, with its
    /// libp2p PeerId.
    Seed(Libp2pPeerId),
    /// A multiaddr that lacks a trailing peer ID (`/p2p/...`).
    MissingPeerId,
    /// Text that is no multiaddr.
    Unparsable,
}

/// The bootstrap node a parsed multiaddr gives: seeded when the address
/// ends in a peer ID, refused otherwise, by the reason.
pub fn bootstrap_node_of(parsed: Option<Option<(u64, Vec<u8>)>>) -> (b: BootstrapNode)
    ensures
        match parsed {
            None => b is Unparsable,
            Some(None) => b is MissingPeerId,
            Some(Some((code, digest))) => b matches BootstrapNode::Seed(p) && p.code == code && p.digest@ == digest@,
        },
{
    match parsed {
        None => BootstrapNode::Unparsable,
        Some(None) => BootstrapNode::MissingPeerId,
        Some(Some((code, digest))) => BootstrapNode::Seed(Libp2pPeerId { code, digest }),
    }
}

/// Read a configured bootstrap node: a multiaddr that ends in the node's
/// peer ID is seeded with that PeerId; one without a trailing peer ID, or
/// text that is no multiaddr, is refused.
pub fn bootstrap_node(text: &str) -> (b: BootstrapNode)
    ensures
        match multiaddr_last_peer(text@) {
            None => b is Unparsable,
            Some(None) => b is MissingPeerId,
            Some(Some((code, digest))) => b matches BootstrapNode::Seed(p) && p.code == code && p.digest@ == digest,
        },
{
    bootstrap_node_of(parse_multiaddr_last_peer(text))
}

/// Only an identity multihash carries a PeerId: a multihash of any other
/// code never reads back to one, and an identity multihash reads back to
/// exactly the Ed25519 key its digest decodes to (and to nothing when the
/// digest is no Ed25519 key).
pub proof fn law_multihash_reads_back_key(code: u64, digest: Seq<u8>, key: [u8; 32])
    ensures
        code != 0 ==> spec_peer_id_from_multihash(code, digest) is None,
        protobuf_ed25519_key(digest) == Some(Some(key)) ==> spec_peer_id_from_multihash(0, digest) == Some(key),
        spec_peer_id_from_multihash(code, digest) == Some(key) ==> code == 0 && protobuf_ed25519_key(digest) == Some(Some(key)),
        protobuf_ed25519_key(digest) is None ==> spec_peer_id_from_multihash(code, digest) is None,
        protobuf_ed25519_key(digest) == Some(None::<[u8; 32]>) ==> spec_peer_id_from_multihash(code, digest) is None,
{
}

/// Converting a PeerId to libp2p and back gives the same PeerId: the
/// multihash `to_libp2p_peer_id` makes reads back to the key it was made of.
pub proof fn law_libp2p_peer_id_roundtrip(p: PeerId, m: Libp2pPeerId)
    requires
        m.code == 0,
        protobuf_ed25519_key(m.digest@) == Some(Some(p.0)),
    ensures
        spec_peer_id_from_multihash(m.code, m.digest@) == Some(p.0),
{
}

} // verus!
