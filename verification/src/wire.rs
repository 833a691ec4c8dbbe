//! The wire frame that carries every message between sessions, and the
//! decisions taken on a received frame.

use vstd::prelude::*;

use crate::error::OmniMeshError;

verus! {

/// Magic bytes at the start of every frame: `OMSH`.
pub const MAGIC: [u8; 4] = [0x4f, 0x4d, 0x53, 0x48];

/// The wire version every frame carries: 0.1.0.
pub const WIRE_VERSION: [u8; 3] = [0, 1, 0];

/// Frame type of application data.
pub const PACKET_DATA: u8 = 0x02;

/// Frame type of a routing (link-state) update.
pub const PACKET_CONTROL: u8 = 0x03;

/// Frame type of a ping.
pub const PACKET_PING: u8 = 0x06;

/// Frame type of a pong.
pub const PACKET_PONG: u8 = 0x07;

/// Wire protocol frame structure.
#[derive(Debug, Clone)]
pub struct WirePacket {
    /// Always `OMSH`.
    pub magic: [u8; 4],
    /// The wire version.
    pub version: [u8; 3],
    /// What the payload is.
    pub packet_type: u8,
    /// The (encrypted) payload.
    pub payload: Vec<u8>,
}

/// Inner payload container dispatching bytes to services.
#[derive(Debug, Clone)]
pub struct ServicePayload {
    /// The service the payload is for.
    pub service_id: String,
    /// The service's bytes.
    pub payload: Vec<u8>,
}

/// What a received frame asks for.
#[derive(Debug, Clone, Copy, PartialEq, Eq, Structural)]
pub enum FrameKind {
    /// Decrypt, then hand the service payload to its service.
    Data,
    /// Decrypt, then apply the link-state update.
    Control,
    /// Decrypt, then answer with a pong carrying the same plaintext.
    Ping,
    /// Decrypt, then record the round-trip time.
    Pong,
    /// Ignore the frame.
    Ignored,
}

/// The kind of a frame of the given type.
pub open spec fn spec_kind(packet_type: u8) -> FrameKind {
    if packet_type == PACKET_DATA {
        FrameKind::Data
    } else if packet_type == PACKET_CONTROL {
        FrameKind::Control
    } else if packet_type == PACKET_PING {
        FrameKind::Ping
    } else if packet_type == PACKET_PONG {
        FrameKind::Pong
    } else {
        FrameKind::Ignored
    }
}

/// Whether a frame starts with the magic bytes.
pub open spec fn spec_magic_ok(magic: Seq<u8>) -> bool {
    magic == MAGIC@
}

/// Each of the four frame types names its own kind: type 2 is data, 3 a
/// routing (link-state) update, 6 a ping and 7 a pong; a frame of any other
/// type is ignored, and no two known types share a kind.
pub proof fn law_frame_types(packet_type: u8)
    ensures
        spec_kind(2) == FrameKind::Data,
        spec_kind(3) == FrameKind::Control,
        spec_kind(6) == FrameKind::Ping,
        spec_kind(7) == FrameKind::Pong,
        (spec_kind(packet_type) == FrameKind::Ignored)
            <==> (packet_type != 2 && packet_type != 3 && packet_type != 6 && packet_type != 7),
        spec_kind(packet_type) == FrameKind::Control <==> packet_type == 3,
        spec_kind(packet_type) == FrameKind::Data <==> packet_type == 2,
        spec_kind(packet_type) == FrameKind::Ping <==> packet_type == 6,
        spec_kind(packet_type) == FrameKind::Pong <==> packet_type == 7,
{
}

/// A frame with the `OMSH` magic is accepted, whatever its type, and one
/// with any other magic is refused.
pub proof fn law_magic(magic: [u8; 4])
    ensures
        spec_magic_ok(magic@) <==> (magic[0] == 0x4f && magic[1] == 0x4d && magic[2] == 0x53 && magic[3] == 0x48),
{
    if magic[0] == 0x4f && magic[1] == 0x4d && magic[2] == 0x53 && magic[3] == 0x48 {
        assert(magic@ =~= MAGIC@);
    }
    if spec_magic_ok(magic@) {
        assert(magic@[0] == MAGIC@[0] && magic@[1] == MAGIC@[1] && magic@[2] == MAGIC@[2] && magic@[3] == MAGIC@[3]);
    }
}

/// A frame of the current wire version.
pub fn frame(packet_type: u8, payload: Vec<u8>) -> (p: WirePacket)
    ensures
        p.magic == MAGIC,
        p.version == WIRE_VERSION,
        p.packet_type == packet_type,
        p.payload@ == payload@,
{
    WirePacket { magic: MAGIC, version: WIRE_VERSION, packet_type, payload }
}

/// Decide what a received frame asks for: an invalid-packet error when its
/// magic is wrong, otherwise the kind its type names.
pub fn classify(packet: &WirePacket) -> (res: Result<FrameKind, OmniMeshError>)
    ensures
        match res {
            Ok(k) => spec_magic_ok(packet.magic@) && k == spec_kind(packet.packet_type),
            Err(e) => !spec_magic_ok(packet.magic@) && e is InvalidPacket,
        },
{
    let m = &packet.magic;
    if !(m[0] == MAGIC[0] && m[1] == MAGIC[1] && m[2] == MAGIC[2] && m[3] == MAGIC[3]) {
        proof {
            assert(!spec_magic_ok(packet.magic@)) by {
                if spec_magic_ok(packet.magic@) {
                    assert(packet.magic@[0] == MAGIC@[0]);
                }
            }
        }
        return Err(OmniMeshError::InvalidPacket("invalid packet magic".to_owned()));
    }
    assert(packet.magic@ =~= MAGIC@);
    let kind = if packet.packet_type == PACKET_DATA {
        FrameKind::Data
    } else if packet.packet_type == PACKET_CONTROL {
        FrameKind::Control
    } else if packet.packet_type == PACKET_PING {
        FrameKind::Ping
    } else if packet.packet_type == PACKET_PONG {
        FrameKind::Pong
    } else {
        FrameKind::Ignored
    };
    Ok(kind)
}

/// The round-trip time a pong reports: the elapsed milliseconds since the
/// ping was sent, or nothing when the clock reads earlier than the send time.
pub fn round_trip_ms(sent_ms: u64, now_ms: u64) -> (rtt: Option<u64>)
    ensures
        rtt == (if now_ms >= sent_ms { Some((now_ms - sent_ms) as u64) } else { None }),
{
    if now_ms >= sent_ms {
        Some(now_ms - sent_ms)
    } else {
        None
    }
}

/// The number that four big-endian bytes spell.
pub open spec fn spec_be32(b: Seq<u8>) -> int {
    b[0] * 0x100_0000 + b[1] * 0x1_0000 + b[2] * 0x100 + b[3]
}

/// A length prefix is big-endian: the first byte is the most significant
/// (each step of it is 2^24), the last the least significant, and every
/// prefix announces a length below 2^32.
pub proof fn law_prefix_is_big_endian(b: Seq<u8>)
    requires
        b.len() == 4,
    ensures
        0 <= spec_be32(b) < 0x1_0000_0000,
        spec_be32(b) / 0x100_0000 == b[0],
        spec_be32(b) % 0x100 == b[3],
        (spec_be32(b) / 0x100) % 0x100 == b[2],
        (spec_be32(b) / 0x1_0000) % 0x100 == b[1],
{
    let (b0, b1, b2, b3) = (b[0] as int, b[1] as int, b[2] as int, b[3] as int);
    assert(0 <= b0 < 256 && 0 <= b1 < 256 && 0 <= b2 < 256 && 0 <= b3 < 256);
    let v = b0 * 0x100_0000 + b1 * 0x1_0000 + b2 * 0x100 + b3;
    assert(spec_be32(b) == v);
    assert(0 <= v < 0x1_0000_0000 && v / 0x100_0000 == b0 && v % 0x100 == b3
        && (v / 0x100) % 0x100 == b2 && (v / 0x1_0000) % 0x100 == b1) by (nonlinear_arith)
        requires
            0 <= b0 < 256, 0 <= b1 < 256, 0 <= b2 < 256, 0 <= b3 < 256,
            v == b0 * 0x100_0000 + b1 * 0x1_0000 + b2 * 0x100 + b3,
    ;
}

/// The 4-byte big-endian length prefix of a stream frame carrying `len`
/// bytes (the length taken modulo 2^32, as a `u32` conversion does).
pub fn length_prefix(len: usize) -> (prefix: [u8; 4])
    ensures
        spec_be32(prefix@) == (len as int) % 0x1_0000_0000,
{
    let n: u32 = len as u32;
    let b0: u8 = (n >> 24u32) as u8;
    let b1: u8 = ((n >> 16u32) & 0xffu32) as u8;
    let b2: u8 = ((n >> 8u32) & 0xffu32) as u8;
    let b3: u8 = (n & 0xffu32) as u8;
    assert(b0 * 0x100_0000 + b1 * 0x1_0000 + b2 * 0x100 + b3 == n) by (bit_vector)
        requires
            b0 == (n >> 24u32) as u8,
            b1 == ((n >> 16u32) & 0xffu32) as u8,
            b2 == ((n >> 8u32) & 0xffu32) as u8,
            b3 == (n & 0xffu32) as u8,
    ;
    assert(n == (len as int) % 0x1_0000_0000) by (bit_vector)
        requires
            n == len as u32,
    ;
    [b0, b1, b2, b3]
}

/// The length a 4-byte big-endian prefix announces.
pub fn prefix_length(prefix: [u8; 4]) -> (len: u32)
    ensures
        len == spec_be32(prefix@),
{
    let b0 = prefix[0] as u32;
    let b1 = prefix[1] as u32;
    let b2 = prefix[2] as u32;
    let b3 = prefix[3] as u32;
    let r = (b0 << 24u32) | (b1 << 16u32) | (b2 << 8u32) | b3;
    assert(r == b0 * 0x100_0000 + b1 * 0x1_0000 + b2 * 0x100 + b3) by (bit_vector)
        requires
            b0 < 256,
            b1 < 256,
            b2 < 256,
            b3 < 256,
            r == (b0 << 24u32) | (b1 << 16u32) | (b2 << 8u32) | b3,
    ;
    r
}

} // verus!
