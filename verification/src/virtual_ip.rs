//! Virtual IPv6 address derivation from PeerId.
//!
//! Each PeerId maps to a deterministic IPv6 address in the OmniMesh ULA
//! range `fd4f:4d00::/32` (`4f:4d` is "OM" in ASCII). Addresses are held as
//! their sixteen octets.

use vstd::prelude::*;

use crate::types::PeerId;

verus! {

/// The OmniMesh ULA prefix octets: `fd4f:4d00::/32`.
pub const ULA_PREFIX: [u8; 4] = [0xfd, 0x4f, 0x4d, 0x00];

/// The octets of the virtual address of a peer: the ULA prefix followed by
/// the first 12 bytes of the PeerId.
pub open spec fn spec_virtual_octets(peer: Seq<u8>) -> Seq<u8> {
    seq![0xfdu8, 0x4fu8, 0x4du8, 0x00u8] + peer.subrange(0, 12)
}

/// Whether an address lies in the OmniMesh range.
pub open spec fn spec_in_omnimesh_range(octets: Seq<u8>) -> bool {
    octets.len() == 16 && octets[0] == 0xfd && octets[1] == 0x4f && octets[2] == 0x4d && octets[3] == 0x00
}

/// A virtual IPv6 address derived from a PeerId.
#[derive(Debug, Clone, Copy, PartialEq, Eq, Hash)]
pub struct VirtualIp {
    addr: [u8; 16],
}

impl VirtualIp {
    /// The address's octets.
    pub closed spec fn spec_octets(&self) -> Seq<u8> {
        self.addr@
    }

    /// Derive a virtual IPv6 address from a PeerId: bytes 0-3 are the ULA
    /// prefix, bytes 4-15 the first 12 bytes of the PeerId.
    pub fn from_peer_id(peer_id: &PeerId) -> (vip: Self)
        ensures
            vip.spec_octets() == spec_virtual_octets(peer_id.0@),
    {
        let mut octets = [0u8; 16];
        octets[0] = ULA_PREFIX[0];
        octets[1] = ULA_PREFIX[1];
        octets[2] = ULA_PREFIX[2];
        octets[3] = ULA_PREFIX[3];
        let bytes = peer_id.as_bytes();
        let mut i: usize = 0;
        while i < 12
            invariant
                i <= 12,
                octets@.len() == 16,
                bytes@.len() == 32,
                octets@[0] == 0xfd && octets@[1] == 0x4f && octets@[2] == 0x4d && octets@[3] == 0x00,
                forall|j: int| 0 <= j < i ==> octets@[4 + j] == bytes@[j],
            decreases 12 - i,
        {
            octets[4 + i] = bytes[i];
            i = i + 1;
        }
        assert(octets@ =~= spec_virtual_octets(peer_id.0@));
        VirtualIp { addr: octets }
    }

    /// Get the underlying IPv6 address as octets.
    pub fn addr(&self) -> (octets: [u8; 16])
        ensures
            octets@ == self.spec_octets(),
    {
        self.addr
    }

    /// Check if an IPv6 address belongs to the OmniMesh ULA range.
    pub fn is_omnimesh_address(addr: &[u8; 16]) -> (r: bool)
        ensures
            r == spec_in_omnimesh_range(addr@),
    {
        addr[0] == ULA_PREFIX[0] && addr[1] == ULA_PREFIX[1] && addr[2] == ULA_PREFIX[2] && addr[3] == ULA_PREFIX[3]
    }
}

/// Every virtual address lies in the OmniMesh range.
pub proof fn law_virtual_ip_in_range(peer: PeerId)
    ensures
        spec_in_omnimesh_range(spec_virtual_octets(peer.0@)),
{
}

/// A virtual address is 16 bytes: `fd 4f 4d 00`, then the PeerId's first
/// 12 bytes in order; an address is in the OmniMesh range exactly when it
/// is 16 bytes starting with `fd 4f 4d 00`.
pub proof fn law_virtual_ip_layout(peer: PeerId, octets: Seq<u8>, i: int)
    ensures
        spec_virtual_octets(peer.0@).len() == 16,
        spec_virtual_octets(peer.0@)[0] == 0xfd,
        spec_virtual_octets(peer.0@)[1] == 0x4f,
        spec_virtual_octets(peer.0@)[2] == 0x4d,
        spec_virtual_octets(peer.0@)[3] == 0x00,
        0 <= i < 12 ==> spec_virtual_octets(peer.0@)[4 + i] == peer.0@[i],
        spec_in_omnimesh_range(octets) <==> (octets.len() == 16 && octets[0] == 0xfd && octets[1] == 0x4f
            && octets[2] == 0x4d && octets[3] == 0x00),
{
}

/// Peers whose identifiers differ in their first 12 bytes get different
/// virtual addresses; peers that share them share the address.
pub proof fn law_virtual_ip_identifies_prefix(a: PeerId, b: PeerId)
    ensures
        (spec_virtual_octets(a.0@) == spec_virtual_octets(b.0@)) <==> (a.0@.subrange(0, 12) == b.0@.subrange(0, 12)),
{
    if spec_virtual_octets(a.0@) == spec_virtual_octets(b.0@) {
        assert(a.0@.subrange(0, 12) =~= spec_virtual_octets(a.0@).subrange(4, 16));
        assert(b.0@.subrange(0, 12) =~= spec_virtual_octets(b.0@).subrange(4, 16));
    }
}

} // verus!
