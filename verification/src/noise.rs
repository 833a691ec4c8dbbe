//! Noise_XX handshake and transport, run by the `snow` crate.
//!
//! The XX pattern provides mutual authentication and forward secrecy in
//! three messages: `e`, then `e, ee, s, es`, then `s, se`.

use vstd::prelude::*;

use crate::aead::{chacha20poly1305_open, chacha20poly1305_seal, fits_cipher};
use crate::error::OmniMeshError;
use crate::random::random_32;
use vstd::arithmetic::power2::pow2;

verus! {

/// Noise protocol pattern used by OmniMesh.
pub const NOISE_PATTERN: &'static str = "Noise_XX_25519_ChaChaPoly_BLAKE2s";

/// Maximum handshake message size.
pub const MAX_HANDSHAKE_MSG: usize = 65535;

/// Size of the authentication tag a transport message carries.
pub const NOISE_TAG_LEN: usize = 16;

/// Role in the Noise handshake.
#[derive(Debug, Clone, Copy, PartialEq, Eq, Structural)]
pub enum Role {
    /// The side that initiates the connection.
    Initiator,
    /// The side that accepts the connection.
    Responder,
}

#[verifier::external_type_specification]
#[verifier::external_body]
pub struct ExHandshakeState(snow::HandshakeState);

#[verifier::external_type_specification]
#[verifier::external_body]
pub struct ExTransportState(snow::TransportState);

#[verifier::external_type_specification]
#[verifier::external_body]
pub struct ExSnowError(snow::Error);

/// The number of messages of the XX pattern.
pub const XX_MESSAGES: u8 = 3;

/// Whether it is `role`'s turn to write when `position` handshake messages
/// have been processed: the initiator writes the first and the third, the
/// responder the second.
pub open spec fn turn_to_write(role: Role, position: u8) -> bool {
    position < XX_MESSAGES && ((role == Role::Initiator) == (position % 2 == 0))
}

/// Whether it is `role`'s turn to read after `position` messages.
pub open spec fn turn_to_read(role: Role, position: u8) -> bool {
    position < XX_MESSAGES && ((role == Role::Initiator) != (position % 2 == 0))
}

/// The bytes a handshake message carries besides its payload, by its
/// position: `e` (32); `e, ee, s, es` with the static key and the payload
/// encrypted (32 + 48 + 16); `s, se` (48 + 16).
pub open spec fn message_overhead(position: u8) -> nat {
    if position == 0 { 32 } else if position == 1 { 96 } else { 64 }
}

/// Whether a payload fits the handshake message at `position`: the message
/// must not exceed the largest Noise message, counting a tag for the
/// payload even before a key is set.
pub open spec fn payload_fits(position: u8, payload_len: nat) -> bool {
    payload_len + message_overhead(position) + (if position == 0 { NOISE_TAG_LEN as nat } else { 0 }) <= MAX_HANDSHAKE_MSG
}

/// `snow::Builder::new(NOISE_PATTERN).local_private_key(key)` followed by
/// `build_initiator()` or `build_responder()` as `role` says, made a
/// handshake of that role, before its first message, that authenticates
/// with `private_key`. With this fixed pattern, snow's default resolver and
/// a 32-byte key the build succeeds.
#[verifier::external_body]
fn build_handshake(role: Role, private_key: &[u8; 32]) -> (res: Result<NoiseHandshake, snow::Error>)
    ensures
        res is Ok,
        res matches Ok(h) ==> h.role == role && h.position == 0 && h.static_key@ == private_key@
            && h.payloads_written@ == Seq::<Seq<u8>>::empty() && h.messages_read@ == Seq::<Seq<u8>>::empty(),
{
    let params: snow::params::NoiseParams = NOISE_PATTERN.parse()?;
    let builder = snow::Builder::new(params).local_private_key(private_key);
    let state = match role {
        Role::Initiator => builder.build_initiator()?,
        Role::Responder => builder.build_responder()?,
    };
    Ok(NoiseHandshake {
        state,
        role,
        position: 0,
        static_key: Ghost(private_key@),
        payloads_written: Ghost(Seq::empty()),
        messages_read: Ghost(Seq::empty()),
    })
}

/// The 12-byte ChaCha20-Poly1305 nonce of Noise transport message number
/// `n`: four zero bytes, then `n` in little-endian order.
pub open spec fn noise_nonce(n: u64) -> Seq<u8> {
    seq![0u8, 0u8, 0u8, 0u8] + Seq::new(8, |i: int| ((n as nat / pow2((8 * i) as nat)) % 256) as u8)
}

/// The turns of the XX pattern: the initiator writes the first and third
/// messages and reads the second, the responder the other way round;
/// exactly one side writes each message and nobody writes or reads after
/// the third. The first message carries 32 bytes besides its payload, the
/// second 96 and the third 64.
pub proof fn law_xx_turns(role: Role, position: u8)
    ensures
        turn_to_write(Role::Initiator, 0) && turn_to_read(Role::Responder, 0),
        turn_to_write(Role::Responder, 1) && turn_to_read(Role::Initiator, 1),
        turn_to_write(Role::Initiator, 2) && turn_to_read(Role::Responder, 2),
        !turn_to_write(Role::Responder, 0) && !turn_to_write(Role::Initiator, 1) && !turn_to_write(Role::Responder, 2),
        position >= 3 ==> !turn_to_write(role, position) && !turn_to_read(role, position),
        !(turn_to_write(role, position) && turn_to_read(role, position)),
        message_overhead(0) == 32 && message_overhead(1) == 96 && message_overhead(2) == 64,
{
}

/// `HandshakeState::write_message` into a buffer of the largest message
/// size, cut to the length written. The handshake's `position` field tracks
/// snow's pattern position (the constructors set it to 0 and each success
/// of this wrapper or of [`handshake_read`] is followed by adding one), and
/// its `role` is the role snow was built for. Snow writes exactly when it is
/// this side's turn and the message fits; the message is the pattern's keys
/// followed by the payload (encrypted once a key is set). A failure leaves
/// snow's state as it was. The payload handed to snow is appended to the
/// handshake's record of payloads written when snow takes it.
#[verifier::external_body]
fn handshake_write(hs: &mut NoiseHandshake, payload: &[u8]) -> (res: Result<Vec<u8>, snow::Error>)
    ensures
        final(hs).role == old(hs).role,
        final(hs).position == old(hs).position,
        final(hs).static_key == old(hs).static_key,
        final(hs).messages_read == old(hs).messages_read,
        final(hs).payloads_written@ == (if res is Ok { old(hs).payloads_written@.push(payload@) } else { old(hs).payloads_written@ }),
        (res is Ok) == (turn_to_write(old(hs).role, old(hs).position) && payload_fits(old(hs).position, payload@.len())),
        res matches Ok(m) ==> m@.len() == payload@.len() + message_overhead(old(hs).position),
{
    let mut buf = vec![0u8; MAX_HANDSHAKE_MSG];
    let len = hs.state.write_message(payload, &mut buf)?;
    hs.payloads_written = Ghost(hs.payloads_written@.push(payload@));
    buf.truncate(len);
    Ok(buf)
}

/// `HandshakeState::read_message` into a buffer of the largest message
/// size, cut to the payload length (the `position` field tracks snow's
/// position, as for [`handshake_write`]). Snow refuses a message longer
/// than the largest Noise message, a message when it is not this side's
/// turn to read, and a message shorter than the keys and tag of its
/// position; a message it accepts is the pattern's keys followed by the
/// payload. The message handed to snow is appended to the handshake's
/// record of messages read, whatever snow makes of it.
#[verifier::external_body]
fn handshake_read(hs: &mut NoiseHandshake, message: &[u8]) -> (res: Result<Vec<u8>, snow::Error>)
    ensures
        final(hs).role == old(hs).role,
        final(hs).position == old(hs).position,
        final(hs).static_key == old(hs).static_key,
        final(hs).payloads_written == old(hs).payloads_written,
        final(hs).messages_read@ == old(hs).messages_read@.push(message@),
        message@.len() > MAX_HANDSHAKE_MSG ==> res is Err,
        !turn_to_read(old(hs).role, old(hs).position) ==> res is Err,
        message@.len() < message_overhead(old(hs).position) ==> res is Err,
        res matches Ok(p) ==> p@.len() + message_overhead(old(hs).position) == message@.len(),
{
    hs.messages_read = Ghost(hs.messages_read@.push(message@));
    let mut buf = vec![0u8; MAX_HANDSHAKE_MSG];
    let len = hs.state.read_message(message, &mut buf)?;
    buf.truncate(len);
    Ok(buf)
}

/// `HandshakeState::is_handshake_finished`: all three messages processed.
#[verifier::external_body]
fn handshake_finished(hs: &NoiseHandshake) -> (r: bool)
    ensures
        r == (hs.position == XX_MESSAGES),
{
    hs.state.is_handshake_finished()
}

/// `HandshakeState::get_remote_static`, copied into 32 bytes (the size of an
/// X25519 public key). Once the handshake is finished, the peer's static key
/// has been read, so it is present.
#[verifier::external_body]
fn handshake_remote_static(hs: &NoiseHandshake) -> (k: Option<[u8; 32]>)
    ensures
        hs.position == XX_MESSAGES ==> k is Some,
{
    hs.state.get_remote_static().map(|rs| {
        let mut key = [0u8; 32];
        key.copy_from_slice(rs);
        key
    })
}

/// `HandshakeState::dangerously_get_raw_split` (the two cipher keys the
/// finished handshake splits into: the first for the initiator's messages,
/// the second for the responder's), then `into_transport_mode`, which
/// succeeds exactly when the handshake is finished. The transport keeps the
/// two keys as it sends and receives with them (the initiator sends with the
/// first and receives with the second, the responder the other way round),
/// and both of its nonces start at 0. Which keys the handshake agreed on is
/// left open: it rests on the ephemeral keys snow drew.
#[verifier::external_body]
fn handshake_into_transport(hs: NoiseHandshake, remote_static: Option<[u8; 32]>) -> (res: Result<NoiseTransport, snow::Error>)
    ensures
        (res is Ok) == (hs.position == XX_MESSAGES),
        res matches Ok(t) ==> t.role == hs.role && t.remote_static == remote_static && t.send_nonce == 0 && t.recv_nonce == 0
            && t.initiator_key@.len() == 32 && t.responder_key@.len() == 32,
{
    let role = hs.role;
    let mut state = hs.state;
    let (first, second) = state.dangerously_get_raw_split();
    let state = state.into_transport_mode()?;
    Ok(NoiseTransport {
        state,
        role,
        remote_static,
        send_nonce: 0,
        recv_nonce: 0,
        initiator_key: Ghost(first@),
        responder_key: Ghost(second@),
    })
}

/// `TransportState::write_message` into a buffer of the plaintext length
/// plus the tag, cut to the length written. The transport's `send_nonce`
/// field tracks snow's sending nonce (0 after the handshake; each success is
/// followed by adding one). Snow encrypts exactly when the plaintext and tag
/// fit the largest message and the nonce is not the reserved `u64::MAX`;
/// what is written is ChaCha20-Poly1305 of the plaintext under the sending
/// key and the nonce's 12-byte form, without associated data: the
/// ciphertext followed by the tag.
#[verifier::external_body]
fn transport_write(t: &mut NoiseTransport, plaintext: &[u8]) -> (res: Result<Vec<u8>, snow::Error>)
    ensures
        final(t).role == old(t).role,
        final(t).remote_static == old(t).remote_static,
        final(t).send_nonce == old(t).send_nonce,
        final(t).recv_nonce == old(t).recv_nonce,
        final(t).initiator_key == old(t).initiator_key,
        final(t).responder_key == old(t).responder_key,
        (res is Ok) == (plaintext@.len() + NOISE_TAG_LEN <= MAX_HANDSHAKE_MSG && old(t).send_nonce < u64::MAX),
        res matches Ok(c) ==> c@.len() == plaintext@.len() + NOISE_TAG_LEN
            && c@ == chacha20poly1305_seal(old(t).spec_send_key(), noise_nonce(old(t).send_nonce), plaintext@),
{
    let mut buf = vec![0u8; plaintext.len() + NOISE_TAG_LEN];
    let len = t.state.write_message(plaintext, &mut buf)?;
    buf.truncate(len);
    Ok(buf)
}

/// `TransportState::read_message` into a buffer of the ciphertext length,
/// cut to the plaintext length (`recv_nonce` tracks snow's receiving nonce
/// as `send_nonce` does the sending one). Snow refuses a ciphertext longer
/// than the largest message, one shorter than the tag, and the reserved
/// nonce; otherwise it decrypts with ChaCha20-Poly1305 under the receiving
/// key and the nonce's 12-byte form, without associated data, and succeeds
/// exactly when the tag authenticates. A plaintext is the ciphertext less
/// its tag, and the ciphertext that sealing made of a plaintext under the
/// same key and nonce decrypts to that plaintext.
#[verifier::external_body]
fn transport_read(t: &mut NoiseTransport, ciphertext: &[u8]) -> (res: Result<Vec<u8>, snow::Error>)
    ensures
        final(t).role == old(t).role,
        final(t).remote_static == old(t).remote_static,
        final(t).send_nonce == old(t).send_nonce,
        final(t).recv_nonce == old(t).recv_nonce,
        final(t).initiator_key == old(t).initiator_key,
        final(t).responder_key == old(t).responder_key,
        (res is Ok) == (NOISE_TAG_LEN <= ciphertext@.len() <= MAX_HANDSHAKE_MSG && old(t).recv_nonce < u64::MAX
            && chacha20poly1305_open(old(t).spec_recv_key(), noise_nonce(old(t).recv_nonce), ciphertext@) is Some),
        res matches Ok(p) ==> p@.len() + NOISE_TAG_LEN == ciphertext@.len()
            && chacha20poly1305_open(old(t).spec_recv_key(), noise_nonce(old(t).recv_nonce), ciphertext@) == Some(p@),
        ciphertext@.len() <= MAX_HANDSHAKE_MSG && old(t).recv_nonce < u64::MAX
            && (exists|p: Seq<u8>| fits_cipher(p.len())
                && #[trigger] chacha20poly1305_seal(old(t).spec_recv_key(), noise_nonce(old(t).recv_nonce), p) == ciphertext@)
            ==> res is Ok,
        res matches Ok(q) ==> (forall|p: Seq<u8>| fits_cipher(p.len())
            && #[trigger] chacha20poly1305_seal(old(t).spec_recv_key(), noise_nonce(old(t).recv_nonce), p) == ciphertext@
            ==> q@ == p),
{
    let mut buf = vec![0u8; ciphertext.len()];
    let len = t.state.read_message(ciphertext, &mut buf)?;
    buf.truncate(len);
    Ok(buf)
}

/// The message `snow::Error` displays (`ToString::to_string`).
#[verifier::external_body]
fn snow_error_text(e: &snow::Error) -> String {
    e.to_string()
}

fn handshake_error(what: &str, e: &snow::Error) -> (err: OmniMeshError)
    ensures
        err is Handshake,
{
    let mut msg = what.to_owned();
    let detail = snow_error_text(e);
    vstd::string::StringExecFns::append(&mut msg, detail.as_str());
    OmniMeshError::Handshake(msg)
}

fn crypto_error(what: &str, e: &snow::Error) -> (err: OmniMeshError)
    ensures
        err matches OmniMeshError::Crypto(m) && m@.len() >= what@.len() && m@.subrange(0, what@.len() as int) == what@,
{
    let mut msg = what.to_owned();
    let detail = snow_error_text(e);
    vstd::string::StringExecFns::append(&mut msg, detail.as_str());
    OmniMeshError::Crypto(msg)
}

/// A Noise_XX handshake in progress.
pub struct NoiseHandshake {
    state: snow::HandshakeState,
    role: Role,
    /// The handshake messages processed so far (snow's pattern position).
    position: u8,
    /// The static private key the handshake authenticates with.
    static_key: Ghost<Seq<u8>>,
    /// The payloads of the messages written so far, in order.
    payloads_written: Ghost<Seq<Seq<u8>>>,
    /// The messages handed in to be read so far, in order.
    messages_read: Ghost<Seq<Seq<u8>>>,
}

/// A completed Noise transport (encrypted channel).
pub struct NoiseTransport {
    state: snow::TransportState,
    /// The role this side played in the handshake.
    role: Role,
    remote_static: Option<[u8; 32]>,
    /// The nonce of the next message sent.
    send_nonce: u64,
    /// The nonce of the next message received.
    recv_nonce: u64,
    /// The key of the initiator's messages.
    initiator_key: Ghost<Seq<u8>>,
    /// The key of the responder's messages.
    responder_key: Ghost<Seq<u8>>,
}

impl NoiseHandshake {
    /// The role this side plays.
    pub closed spec fn spec_role(&self) -> Role {
        self.role
    }

    /// The handshake messages processed so far.
    pub closed spec fn spec_position(&self) -> u8 {
        self.position
    }

    /// The static private key this side authenticates with.
    pub closed spec fn spec_static_key(&self) -> Seq<u8> {
        self.static_key@
    }

    /// The payloads this side has written, in order.
    pub closed spec fn spec_payloads_written(&self) -> Seq<Seq<u8>> {
        self.payloads_written@
    }

    /// The messages this side has been handed to read, in order.
    pub closed spec fn spec_messages_read(&self) -> Seq<Seq<u8>> {
        self.messages_read@
    }

    /// Create a new handshake with a freshly generated static key.
    pub fn new(role: Role) -> (res: Result<Self, OmniMeshError>)
        ensures
            res matches Ok(h) && h.spec_role() == role && h.spec_position() == 0 && h.spec_static_key().len() == 32
                && h.spec_payloads_written().len() == 0 && h.spec_messages_read().len() == 0,
    {
        let private_key = random_32();
        Self::with_keypair(role, &private_key)
    }

    /// Create a handshake that authenticates with the given static private key.
    pub fn with_keypair(role: Role, private_key: &[u8; 32]) -> (res: Result<Self, OmniMeshError>)
        ensures
            res matches Ok(h) && h.spec_role() == role && h.spec_position() == 0 && h.spec_static_key() == private_key@
                && h.spec_payloads_written().len() == 0 && h.spec_messages_read().len() == 0,
    {
        match build_handshake(role, private_key) {
            Ok(h) => Ok(h),
            Err(e) => Err(handshake_error("init failed: ", &e)),
        }
    }

    /// Write the next handshake message; returns the bytes to send. It
    /// succeeds exactly when it is this side's turn to write and the payload
    /// fits; the message is the pattern's keys and the payload, and the
    /// payload is recorded as written.
    pub fn write_message(&mut self, payload: &[u8]) -> (res: Result<Vec<u8>, OmniMeshError>)
        ensures
            final(self).spec_role() == old(self).spec_role(),
            final(self).spec_static_key() == old(self).spec_static_key(),
            final(self).spec_messages_read() == old(self).spec_messages_read(),
            final(self).spec_payloads_written() == (if res is Ok {
                old(self).spec_payloads_written().push(payload@)
            } else {
                old(self).spec_payloads_written()
            }),
            (res is Ok) == (turn_to_write(old(self).spec_role(), old(self).spec_position())
                && payload_fits(old(self).spec_position(), payload@.len())),
            match res {
                Ok(m) => m@.len() == payload@.len() + message_overhead(old(self).spec_position())
                    && m@.len() <= MAX_HANDSHAKE_MSG
                    && final(self).spec_position() == old(self).spec_position() + 1,
                Err(e) => e is Handshake && final(self).spec_position() == old(self).spec_position(),
            },
    {
        match handshake_write(self, payload) {
            Ok(m) => {
                self.position = self.position + 1;
                Ok(m)
            },
            Err(e) => Err(handshake_error("write failed: ", &e)),
        }
    }

    /// Read a handshake message from the remote peer; returns the payload it
    /// carried. Refused when it is not this side's turn to read, when the
    /// message is longer than the largest message or shorter than the keys
    /// and tag of its place, and when it does not authenticate. The message
    /// is handed to snow, and recorded as read, in every case.
    pub fn read_message(&mut self, message: &[u8]) -> (res: Result<Vec<u8>, OmniMeshError>)
        ensures
            final(self).spec_role() == old(self).spec_role(),
            final(self).spec_static_key() == old(self).spec_static_key(),
            final(self).spec_payloads_written() == old(self).spec_payloads_written(),
            final(self).spec_messages_read() == old(self).spec_messages_read().push(message@),
            !turn_to_read(old(self).spec_role(), old(self).spec_position()) ==> res is Err,
            message@.len() > MAX_HANDSHAKE_MSG ==> res is Err,
            message@.len() < message_overhead(old(self).spec_position()) ==> res is Err,
            match res {
                Ok(p) => p@.len() + message_overhead(old(self).spec_position()) == message@.len()
                    && final(self).spec_position() == old(self).spec_position() + 1,
                Err(e) => e is Handshake && final(self).spec_position() == old(self).spec_position(),
            },
    {
        match handshake_read(self, message) {
            Ok(p) => {
                self.position = self.position + 1;
                Ok(p)
            },
            Err(e) => Err(handshake_error("read failed: ", &e)),
        }
    }

    /// Check if the handshake is complete: all three messages processed.
    pub fn is_finished(&self) -> (r: bool)
        ensures
            r == (self.spec_position() == XX_MESSAGES),
    {
        handshake_finished(self)
    }

    /// Get the role of this side.
    pub fn role(&self) -> (r: Role)
        ensures
            r == self.spec_role(),
    {
        self.role
    }

    /// Convert the completed handshake into a transport; a handshake error
    /// when it is not complete. The transport knows the peer's static key,
    /// keeps this side's role and starts both nonces at 0.
    pub fn into_transport(self) -> (res: Result<NoiseTransport, OmniMeshError>)
        ensures
            (res is Ok) == (self.spec_position() == XX_MESSAGES),
            match res {
                Ok(t) => t.spec_remote_static() is Some && t.spec_send_nonce() == 0 && t.spec_recv_nonce() == 0
                    && t.spec_role() == self.spec_role() && t.spec_send_key().len() == 32 && t.spec_recv_key().len() == 32,
                Err(e) => e is Handshake,
            },
    {
        if !handshake_finished(&self) {
            return Err(OmniMeshError::Handshake("handshake not yet complete".to_owned()));
        }
        let remote_static = handshake_remote_static(&self);
        match handshake_into_transport(self, remote_static) {
            Ok(t) => Ok(t),
            Err(e) => Err(handshake_error("transport mode failed: ", &e)),
        }
    }
}

impl NoiseTransport {
    /// The remote peer's static public key, as learnt in the handshake.
    pub closed spec fn spec_remote_static(&self) -> Option<[u8; 32]> {
        self.remote_static
    }

    /// The nonce of the next message sent.
    pub closed spec fn spec_send_nonce(&self) -> u64 {
        self.send_nonce
    }

    /// The nonce of the next message received.
    pub closed spec fn spec_recv_nonce(&self) -> u64 {
        self.recv_nonce
    }

    /// The role this side played in the handshake.
    pub closed spec fn spec_role(&self) -> Role {
        self.role
    }

    /// The key of the initiator's messages, as the handshake split it.
    pub closed spec fn spec_initiator_key(&self) -> Seq<u8> {
        self.initiator_key@
    }

    /// The key of the responder's messages, as the handshake split it.
    pub closed spec fn spec_responder_key(&self) -> Seq<u8> {
        self.responder_key@
    }

    /// The key this side encrypts with: the initiator's key for the
    /// initiator, the responder's key for the responder.
    pub closed spec fn spec_send_key(&self) -> Seq<u8> {
        if self.role == Role::Initiator { self.initiator_key@ } else { self.responder_key@ }
    }

    /// The key this side decrypts with: the other side's key.
    pub closed spec fn spec_recv_key(&self) -> Seq<u8> {
        if self.role == Role::Initiator { self.responder_key@ } else { self.initiator_key@ }
    }

    /// Encrypt application data: succeeds exactly when the plaintext and the
    /// 16-byte tag fit the largest message and the send nonce is not
    /// exhausted; the ciphertext is the plaintext sealed with
    /// ChaCha20-Poly1305 under the send key and the send nonce, and the
    /// send nonce moves on by one.
    pub fn encrypt(&mut self, plaintext: &[u8]) -> (res: Result<Vec<u8>, OmniMeshError>)
        ensures
            final(self).spec_remote_static() == old(self).spec_remote_static(),
            final(self).spec_recv_nonce() == old(self).spec_recv_nonce(),
            final(self).spec_role() == old(self).spec_role(),
            final(self).spec_send_key() == old(self).spec_send_key(),
            final(self).spec_recv_key() == old(self).spec_recv_key(),
            (res is Ok) == (plaintext@.len() + NOISE_TAG_LEN <= MAX_HANDSHAKE_MSG && old(self).spec_send_nonce() < u64::MAX),
            match res {
                Ok(c) => c@.len() == plaintext@.len() + NOISE_TAG_LEN
                    && c@ == chacha20poly1305_seal(old(self).spec_send_key(), noise_nonce(old(self).spec_send_nonce()), plaintext@)
                    && final(self).spec_send_nonce() == old(self).spec_send_nonce() + 1,
                Err(e) => e is Crypto && final(self).spec_send_nonce() == old(self).spec_send_nonce(),
            },
    {
        match transport_write(self, plaintext) {
            Ok(c) => {
                self.send_nonce = self.send_nonce + 1;
                Ok(c)
            },
            Err(e) => Err(crypto_error("noise encrypt: ", &e)),
        }
    }

    /// Decrypt application data: it succeeds exactly when the ciphertext is
    /// no shorter than the tag and no longer than the largest message, the
    /// receive nonce is not exhausted, and ChaCha20-Poly1305 under the
    /// receive key and nonce authenticates it; the plaintext is what that
    /// decryption gives, and the receive nonce moves on by one. What the
    /// peer sealed under this side's receive key and nonce decrypts to the
    /// peer's plaintext.
    pub fn decrypt(&mut self, ciphertext: &[u8]) -> (res: Result<Vec<u8>, OmniMeshError>)
        ensures
            final(self).spec_remote_static() == old(self).spec_remote_static(),
            final(self).spec_send_nonce() == old(self).spec_send_nonce(),
            final(self).spec_role() == old(self).spec_role(),
            final(self).spec_send_key() == old(self).spec_send_key(),
            final(self).spec_recv_key() == old(self).spec_recv_key(),
            (res is Ok) == (NOISE_TAG_LEN <= ciphertext@.len() <= MAX_HANDSHAKE_MSG && old(self).spec_recv_nonce() < u64::MAX
                && chacha20poly1305_open(old(self).spec_recv_key(), noise_nonce(old(self).spec_recv_nonce()), ciphertext@) is Some),
            ciphertext@.len() <= MAX_HANDSHAKE_MSG && old(self).spec_recv_nonce() < u64::MAX ==> (forall|p: Seq<u8>|
                fits_cipher(p.len())
                    && #[trigger] chacha20poly1305_seal(old(self).spec_recv_key(), noise_nonce(old(self).spec_recv_nonce()), p) == ciphertext@
                    ==> (res matches Ok(q) && q@ == p)),
            match res {
                Ok(p) => p@.len() + NOISE_TAG_LEN == ciphertext@.len()
                    && chacha20poly1305_open(old(self).spec_recv_key(), noise_nonce(old(self).spec_recv_nonce()), ciphertext@) == Some(p@)
                    && final(self).spec_recv_nonce() == old(self).spec_recv_nonce() + 1,
                Err(e) => e is Crypto && final(self).spec_recv_nonce() == old(self).spec_recv_nonce(),
            },
    {
        match transport_read(self, ciphertext) {
            Ok(p) => {
                self.recv_nonce = self.recv_nonce + 1;
                Ok(p)
            },
            Err(e) => Err(crypto_error("noise decrypt: ", &e)),
        }
    }

    /// Get the remote peer's static public key (if available).
    pub fn remote_static_key(&self) -> (k: Option<[u8; 32]>)
        ensures
            k == self.spec_remote_static(),
    {
        self.remote_static
    }
}

/// The two ends of a session split the same keys and played opposite
/// roles: what each sends with, the other receives with.
pub proof fn law_noise_ends_agree(a: NoiseTransport, b: NoiseTransport)
    requires
        a.spec_role() != b.spec_role(),
        a.spec_initiator_key() == b.spec_initiator_key(),
        a.spec_responder_key() == b.spec_responder_key(),
    ensures
        a.spec_send_key() == b.spec_recv_key(),
        b.spec_send_key() == a.spec_recv_key(),
{
}

/// What one end encrypts, its peer decrypts: when the sender's key and
/// nonce are the receiver's, the ciphertext the sender's
/// [`NoiseTransport::encrypt`] made of `m` is `m` sealed under the
/// receiver's key and nonce, and `m` is short enough for the cipher, so
/// the receiver's [`NoiseTransport::decrypt`] gives `m` back.
pub proof fn law_noise_delivery(sender: NoiseTransport, receiver: NoiseTransport, m: Seq<u8>, c: Seq<u8>)
    requires
        sender.spec_send_key() == receiver.spec_recv_key(),
        sender.spec_send_nonce() == receiver.spec_recv_nonce(),
        m.len() + NOISE_TAG_LEN <= MAX_HANDSHAKE_MSG,
        c == chacha20poly1305_seal(sender.spec_send_key(), noise_nonce(sender.spec_send_nonce()), m),
    ensures
        fits_cipher(m.len()),
        c == chacha20poly1305_seal(receiver.spec_recv_key(), noise_nonce(receiver.spec_recv_nonce()), m),
{
}

} // verus!
