//! Common types: protocol versions, peer identifiers, node information and
//! connection states.

use vstd::prelude::*;
use vstd::slice::slice_subrange;
use vstd::string::*;
use vstd::utf8::*;
use base64::Engine;

use crate::error::OmniMeshError;
use crate::text::{decimal, decimal_string, digit_char, hex_decode, hex_encode, hex_lower, hex_value, is_hex_digit};

verus! {

/// Protocol version for wire compatibility.
#[derive(Debug, Clone, Copy, PartialEq, Eq, Hash, Structural)]
pub struct ProtocolVersion {
    /// Major version — breaking changes.
    pub major: u16,
    /// Minor version — backward-compatible additions.
    pub minor: u16,
    /// Patch version — backward-compatible fixes.
    pub patch: u16,
}

/// Versions are compatible exactly when their major versions agree.
pub open spec fn spec_compatible(a: ProtocolVersion, b: ProtocolVersion) -> bool {
    a.major == b.major
}

/// The `major.minor.patch` rendering of a version.
pub open spec fn spec_version_text(v: ProtocolVersion) -> Seq<char> {
    decimal(v.major as nat) + "."@ + decimal(v.minor as nat) + "."@ + decimal(v.patch as nat)
}

impl ProtocolVersion {
    /// The current protocol version.
    pub open spec fn current_spec() -> Self {
        ProtocolVersion { major: 0, minor: 1, patch: 0 }
    }

    /// Current protocol version (0.1.0).
    pub fn current() -> (v: Self)
        ensures
            v == Self::current_spec(),
    {
        ProtocolVersion { major: 0, minor: 1, patch: 0 }
    }

    /// Check if this version is compatible with another: same major version.
    pub fn is_compatible_with(&self, other: &Self) -> (r: bool)
        ensures
            r == spec_compatible(*self, *other),
    {
        self.major == other.major
    }

    /// Renders the version as `major.minor.patch`.
    pub fn to_string(&self) -> (s: String)
        ensures
            s@ == spec_version_text(*self),
    {
        let mut s = decimal_string(self.major as u64);
        s.append(".");
        let minor = decimal_string(self.minor as u64);
        s.append(minor.as_str());
        s.append(".");
        let patch = decimal_string(self.patch as u64);
        s.append(patch.as_str());
        s
    }
}

/// Compatibility depends on the major version alone: versions with the same
/// major version are compatible whatever their minor and patch versions,
/// and versions with different major versions are not.
pub proof fn law_compatibility_is_by_major(major: u16, minor_a: u16, patch_a: u16, minor_b: u16, patch_b: u16, other_major: u16)
    ensures
        spec_compatible(
            ProtocolVersion { major, minor: minor_a, patch: patch_a },
            ProtocolVersion { major, minor: minor_b, patch: patch_b },
        ),
        other_major != major ==> !spec_compatible(
            ProtocolVersion { major, minor: minor_a, patch: patch_a },
            ProtocolVersion { major: other_major, minor: minor_b, patch: patch_b },
        ),
{
}

/// Compatibility is an equivalence: every version is compatible with
/// itself, compatibility is symmetric, and it is transitive.
pub proof fn law_compatibility_is_equivalence(a: ProtocolVersion, b: ProtocolVersion, c: ProtocolVersion)
    ensures
        spec_compatible(a, a),
        spec_compatible(a, b) ==> spec_compatible(b, a),
        spec_compatible(a, b) && spec_compatible(b, c) ==> spec_compatible(a, c),
{
}

/// Unique identifier for a peer in the mesh network: the 32 bytes of the
/// peer's Ed25519 public key.
#[derive(Debug, Clone, Copy, PartialEq, Eq, Hash)]
pub struct PeerId(pub [u8; 32]);

/// The character of a 6-bit value in the URL-safe base64 alphabet
/// (`A`-`Z`, `a`-`z`, `0`-`9`, `-`, `_`).
pub open spec fn base64_url_char(v: int) -> char {
    if v < 26 {
        (65 + v) as char
    } else if v < 52 {
        (97 + v - 26) as char
    } else if v < 62 {
        (48 + v - 52) as char
    } else if v == 62 {
        '-'
    } else {
        '_'
    }
}

/// The URL-safe base64 encoding without padding of `bytes`: each group of
/// three bytes gives four characters, a final group of two gives three, a
/// final single byte gives two.
pub open spec fn base64_url_unpadded(bytes: Seq<u8>) -> Seq<char>
    decreases bytes.len(),
{
    if bytes.len() == 0 {
        Seq::empty()
    } else if bytes.len() == 1 {
        seq![base64_url_char((bytes[0] as int) / 4), base64_url_char(((bytes[0] as int) % 4) * 16)]
    } else if bytes.len() == 2 {
        seq![
            base64_url_char((bytes[0] as int) / 4),
            base64_url_char(((bytes[0] as int) % 4) * 16 + (bytes[1] as int) / 16),
            base64_url_char(((bytes[1] as int) % 16) * 4),
        ]
    } else {
        seq![
            base64_url_char((bytes[0] as int) / 4),
            base64_url_char(((bytes[0] as int) % 4) * 16 + (bytes[1] as int) / 16),
            base64_url_char(((bytes[1] as int) % 16) * 4 + (bytes[2] as int) / 64),
            base64_url_char((bytes[2] as int) % 64),
        ] + base64_url_unpadded(bytes.subrange(3, bytes.len() as int))
    }
}

#[verifier::external_type_specification]
#[verifier::external_body]
pub struct ExFromHexError(hex::FromHexError);

/// `hex::decode` of the bytes of `text`: the decoded bytes, or an error on
/// odd length or on a byte that is not a hex digit of either case.
#[verifier::external_body]
fn hex_decode_str(text: &str) -> (res: Result<Vec<u8>, hex::FromHexError>)
    ensures
        res matches Ok(v) ==> hex_decode(text.spec_bytes()) == Some(v@),
        res is Err ==> hex_decode(text.spec_bytes()) is None,
{
    hex::decode(text)
}

/// The message `hex::FromHexError` displays (`ToString::to_string`).
#[verifier::external_body]
fn hex_error_text(e: &hex::FromHexError) -> String {
    e.to_string()
}

/// `base64::engine::general_purpose::URL_SAFE_NO_PAD.encode`: the URL-safe
/// alphabet, no padding.
#[verifier::external_body]
fn base64_url_encode(bytes: &[u8]) -> (s: String)
    ensures
        s@ == base64_url_unpadded(bytes@),
{
    base64::engine::general_purpose::URL_SAFE_NO_PAD.encode(bytes)
}

/// What `PeerId::from_hex` accepts: hex text of exactly 32 bytes.
pub open spec fn spec_peer_id_from_hex(text: Seq<u8>) -> Option<Seq<u8>> {
    match hex_decode(text) {
        Some(b) => if b.len() == 32 { Some(b) } else { None },
        None => None,
    }
}

impl PeerId {
    /// The bytes of this identifier.
    pub open spec fn spec_bytes(&self) -> Seq<u8> {
        self.0@
    }

    /// Create a PeerId from raw bytes.
    pub fn from_bytes(bytes: [u8; 32]) -> (p: Self)
        ensures
            p.0 == bytes,
    {
        PeerId(bytes)
    }

    /// Get the raw bytes of this PeerId.
    pub fn as_bytes(&self) -> (b: &[u8; 32])
        ensures
            *b == self.0,
    {
        &self.0
    }

    /// Whether two PeerIds are the same, byte for byte.
    pub fn same_as(&self, other: &Self) -> (r: bool)
        ensures
            r == (*self == *other),
    {
        let mut i: usize = 0;
        let mut eq = true;
        while i < 32
            invariant
                i <= 32,
                self.0@.len() == 32,
                other.0@.len() == 32,
                eq == (forall|j: int| 0 <= j < i ==> self.0@[j] == other.0@[j]),
            decreases 32 - i,
        {
            if self.0[i] != other.0[i] {
                eq = false;
            }
            i = i + 1;
        }
        proof {
            broadcast use vstd::array::group_array_axioms;
            if eq {
                assert(self.0@ =~= other.0@);
                assert(self.0 == other.0);
            }
        }
        eq
    }

    /// Encode as a lowercase hex string.
    pub fn to_hex(&self) -> (s: String)
        ensures
            s@ == hex_lower(self.0@),
    {
        hex_encode(self.0.as_slice())
    }

    /// The display rendering: the hex encoding.
    pub fn to_string(&self) -> (s: String)
        ensures
            s@ == hex_lower(self.0@),
    {
        self.to_hex()
    }

    /// Decode from a hex string: exactly 32 bytes of hex digits of either
    /// case, otherwise an identity error.
    pub fn from_hex(s: &str) -> (res: Result<Self, OmniMeshError>)
        ensures
            match res {
                Ok(p) => spec_peer_id_from_hex(s.spec_bytes()) == Some(p.0@),
                Err(e) => spec_peer_id_from_hex(s.spec_bytes()) is None && e is Identity,
            },
    {
        let bytes = match hex_decode_str(s) {
            Ok(b) => b,
            Err(e) => {
                let mut msg = "invalid hex PeerId: ".to_owned();
                let detail = hex_error_text(&e);
                msg.append(detail.as_str());
                return Err(OmniMeshError::Identity(msg));
            },
        };
        if bytes.len() != 32 {
            let mut msg = "PeerId must be 32 bytes, got ".to_owned();
            let n = decimal_string(bytes.len() as u64);
            msg.append(n.as_str());
            return Err(OmniMeshError::Identity(msg));
        }
        let mut arr = [0u8; 32];
        let mut i: usize = 0;
        while i < 32
            invariant
                i <= 32,
                bytes@.len() == 32,
                arr@.len() == 32,
                forall|j: int| 0 <= j < i ==> arr@[j] == bytes@[j],
            decreases 32 - i,
        {
            arr[i] = bytes[i];
            i = i + 1;
        }
        assert(arr@ =~= bytes@);
        Ok(PeerId(arr))
    }

    /// Encode as a base64 string (URL-safe, no padding).
    pub fn to_base64(&self) -> (s: String)
        ensures
            s@ == base64_url_unpadded(self.0@),
    {
        base64_url_encode(self.0.as_slice())
    }

    /// Short display form (first 8 hex characters).
    pub fn short(&self) -> (s: String)
        ensures
            s@ == hex_lower(self.0@).subrange(0, 8),
    {
        let head = slice_subrange(self.0.as_slice(), 0, 4);
        let s = hex_encode(head);
        assert(s@ =~= hex_lower(self.0@).subrange(0, 8));
        s
    }

    /// The debug rendering: `PeerId(` followed by the short form and `…)`.
    pub fn debug_string(&self) -> (s: String)
        ensures
            s@ == "PeerId("@ + hex_lower(self.0@).subrange(0, 8) + "…)"@,
    {
        let mut s = "PeerId(".to_owned();
        let short = self.short();
        s.append(short.as_str());
        s.append("…)");
        s
    }
}

/// Hex digits are ASCII characters whose byte is a hex digit of that value.
proof fn lemma_digit_char_byte(d: nat)
    requires
        d < 16,
    ensures
        '\0' <= digit_char(d) <= '\u{7f}',
        is_hex_digit(digit_char(d) as u8),
        hex_value(digit_char(d) as u8) == d,
{
}

/// Lowercase hex text is ASCII, so its UTF-8 bytes are its characters.
proof fn lemma_hex_lower_bytes(bytes: Seq<u8>)
    ensures
        is_ascii_chars(hex_lower(bytes)),
        encode_utf8(hex_lower(bytes)).len() == 2 * bytes.len(),
        forall|i: int| 0 <= i < 2 * bytes.len() ==> encode_utf8(hex_lower(bytes))[i] == #[trigger] hex_lower(bytes)[i] as u8,
{
    let h = hex_lower(bytes);
    assert forall|i: int| 0 <= i < h.len() implies '\0' <= #[trigger] h[i] <= '\u{7f}' by {
        if i % 2 == 0 {
            lemma_digit_char_byte((bytes[i / 2] / 16) as nat);
        } else {
            lemma_digit_char_byte((bytes[i / 2] % 16) as nat);
        }
    }
    is_ascii_chars_encode_utf8(h);
}

/// Hex decoding inverts hex encoding: the bytes of the text that `to_hex`
/// produces decode to the bytes that were encoded.
pub proof fn law_hex_roundtrip(bytes: Seq<u8>)
    ensures
        hex_decode(encode_utf8(hex_lower(bytes))) == Some(bytes),
{
    let h = hex_lower(bytes);
    let t = encode_utf8(h);
    lemma_hex_lower_bytes(bytes);
    assert forall|i: int| 0 <= i < t.len() implies is_hex_digit(#[trigger] t[i]) && hex_value(t[i]) == (if i % 2 == 0 { bytes[i / 2] / 16 } else { bytes[i / 2] % 16 }) by {
        assert(t[i] == h[i] as u8);
        if i % 2 == 0 {
            lemma_digit_char_byte((bytes[i / 2] / 16) as nat);
        } else {
            lemma_digit_char_byte((bytes[i / 2] % 16) as nat);
        }
    }
    let decoded = Seq::new((t.len() / 2) as nat, |i: int| (hex_value(t[2 * i]) * 16 + hex_value(t[2 * i + 1])) as u8);
    assert forall|i: int| 0 <= i < bytes.len() implies #[trigger] decoded[i] == bytes[i] by {
        assert(t[2 * i] == h[2 * i] as u8);
        assert(t[2 * i + 1] == h[2 * i + 1] as u8);
        assert((2 * i) / 2 == i);
        assert((2 * i + 1) / 2 == i);
        assert(hex_value(t[2 * i]) == bytes[i] / 16);
        assert(hex_value(t[2 * i + 1]) == bytes[i] % 16);
    }
    assert(decoded =~= bytes);
}

/// A peer identifier's hex text is accepted back by `from_hex` and gives
/// the same identifier.
pub proof fn law_peer_id_hex_roundtrip(p: PeerId)
    ensures
        spec_peer_id_from_hex(encode_utf8(hex_lower(p.0@))) == Some(p.0@),
{
    law_hex_roundtrip(p.0@);
}

/// Information about a node in the mesh.
#[derive(Debug, Clone)]
pub struct NodeInfo {
    /// Unique peer identifier.
    pub peer_id: PeerId,
    /// Human-readable node name.
    pub name: String,
    /// Protocol version this node speaks.
    pub version: ProtocolVersion,
    /// Addresses this node is reachable at.
    pub addresses: Vec<String>,
    /// Unix timestamp of when this info was last updated.
    pub last_seen: u64,
    /// Whether this node acts as a relay.
    pub is_relay: bool,
}

/// Connection state of a peer.
#[derive(Debug, Clone, Copy, PartialEq, Eq, Structural)]
pub enum ConnectionState {
    /// Not connected.
    Disconnected,
    /// Connection attempt in progress.
    Connecting,
    /// Fully connected and authenticated.
    Connected,
    /// Connection is being gracefully closed.
    Disconnecting,
}

/// The display text of a connection state.
pub open spec fn spec_state_text(s: ConnectionState) -> Seq<char> {
    match s {
        ConnectionState::Disconnected => "disconnected"@,
        ConnectionState::Connecting => "connecting"@,
        ConnectionState::Connected => "connected"@,
        ConnectionState::Disconnecting => "disconnecting"@,
    }
}

impl ConnectionState {
    /// Renders the state in lowercase words.
    pub fn to_string(&self) -> (s: String)
        ensures
            s@ == spec_state_text(*self),
    {
        match self {
            ConnectionState::Disconnected => "disconnected".to_owned(),
            ConnectionState::Connecting => "connecting".to_owned(),
            ConnectionState::Connected => "connected".to_owned(),
            ConnectionState::Disconnecting => "disconnecting".to_owned(),
        }
    }
}

} // verus!
