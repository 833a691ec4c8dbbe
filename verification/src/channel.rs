//! Secure bidirectional channel with key ratcheting.
//!
//! Combines AEAD encryption with HKDF key ratcheting: after each message the
//! key of that direction is ratcheted forward, so that compromising the
//! current key cannot decrypt past messages.

use vstd::prelude::*;

use crate::aead;
use crate::aead::{fits_cipher, is_sealed, spec_decrypt};
use crate::error::OmniMeshError;
use crate::kdf;
use crate::kdf::{hkdf_sha256, label, spec_ratchet};

verus! {

/// Maximum messages before mandatory rekeying. After this many messages in
/// either direction the channel must be re-established via a new handshake.
pub const REKEY_THRESHOLD: u64 = 1_000_000;

/// The 64 bytes of transport keying material derived from a shared secret.
pub open spec fn transport_material(shared_secret: Seq<u8>) -> Seq<u8> {
    hkdf_sha256(None, shared_secret, label(kdf::domain::TRANSPORT), 64)
}

/// The key a side sends with right after the channel is set up.
pub open spec fn initial_send_key(shared_secret: Seq<u8>, is_initiator: bool) -> Seq<u8> {
    if is_initiator {
        transport_material(shared_secret).subrange(0, 32)
    } else {
        transport_material(shared_secret).subrange(32, 64)
    }
}

/// The key a side receives with right after the channel is set up.
pub open spec fn initial_recv_key(shared_secret: Seq<u8>, is_initiator: bool) -> Seq<u8> {
    initial_send_key(shared_secret, !is_initiator)
}

/// The initiator sends with the first 32 bytes of the transport keying
/// material and receives with the last 32; the responder the other way
/// round.
pub proof fn law_initiator_sends_with_first_half(shared_secret: Seq<u8>)
    ensures
        initial_send_key(shared_secret, true) == transport_material(shared_secret).subrange(0, 32),
        initial_recv_key(shared_secret, true) == transport_material(shared_secret).subrange(32, 64),
        initial_send_key(shared_secret, false) == transport_material(shared_secret).subrange(32, 64),
        initial_recv_key(shared_secret, false) == transport_material(shared_secret).subrange(0, 32),
{
}

/// Messages left before rekeying, given both counters.
pub open spec fn spec_remaining(send: u64, recv: u64) -> int {
    let used = if send >= recv { send } else { recv };
    if used >= REKEY_THRESHOLD { 0 } else { REKEY_THRESHOLD - used }
}

/// The messages left before rekeying are the threshold less the larger of
/// the two counts, and none once either count reaches the threshold; one
/// more message in either direction leaves one fewer (until none are left).
pub proof fn law_remaining_counts_down(send: u64, recv: u64)
    ensures
        send < REKEY_THRESHOLD && recv < REKEY_THRESHOLD ==> spec_remaining(send, recv) + (if send >= recv { send } else { recv }) == 1_000_000,
        send >= REKEY_THRESHOLD || recv >= REKEY_THRESHOLD ==> spec_remaining(send, recv) == 0,
        0 <= spec_remaining(send, recv) <= 1_000_000,
        spec_remaining(0, 0) == 1_000_000,
        send < u64::MAX && send >= recv && send < REKEY_THRESHOLD ==> spec_remaining((send + 1) as u64, recv) == spec_remaining(send, recv) - 1,
        recv < u64::MAX && recv >= send && recv < REKEY_THRESHOLD ==> spec_remaining(send, (recv + 1) as u64) == spec_remaining(send, recv) - 1,
{
}

/// The key `n` ratchet steps after `key`.
pub open spec fn ratchet_n(key: Seq<u8>, n: nat) -> Seq<u8>
    decreases n,
{
    if n == 0 { key } else { spec_ratchet(ratchet_n(key, (n - 1) as nat)) }
}

/// A secure bidirectional channel with forward secrecy.
pub struct SecureChannel {
    /// Current sending key (ratcheted after each encrypt).
    send_key: [u8; 32],
    /// Current receiving key (ratcheted after each decrypt).
    recv_key: [u8; 32],
    /// Number of messages sent.
    send_counter: u64,
    /// Number of messages received.
    recv_counter: u64,
    /// The shared secret the channel was set up from.
    secret: Ghost<Seq<u8>>,
    /// Whether this side initiated the channel.
    initiator: Ghost<bool>,
}

impl SecureChannel {
    /// Each key is the initial key of its direction ratcheted once per
    /// message of that direction.
    #[verifier::type_invariant]
    closed spec fn inv(&self) -> bool {
        &&& self.send_key@ == ratchet_n(initial_send_key(self.secret@, self.initiator@), self.send_counter as nat)
        &&& self.recv_key@ == ratchet_n(initial_recv_key(self.secret@, self.initiator@), self.recv_counter as nat)
    }

    /// The shared secret the channel was set up from.
    pub closed spec fn spec_secret(&self) -> Seq<u8> {
        self.secret@
    }

    /// Whether this side initiated the channel.
    pub closed spec fn spec_initiator(&self) -> bool {
        self.initiator@
    }

    /// The keys are determined by the messages counted: each direction's
    /// initial key, ratcheted once per message.
    pub open spec fn keys_follow_counts(&self) -> bool {
        &&& self.spec_send_key() == ratchet_n(initial_send_key(self.spec_secret(), self.spec_initiator()), self.spec_send_count() as nat)
        &&& self.spec_recv_key() == ratchet_n(initial_recv_key(self.spec_secret(), self.spec_initiator()), self.spec_recv_count() as nat)
    }

    /// The key the next message will be encrypted with.
    pub closed spec fn spec_send_key(&self) -> Seq<u8> {
        self.send_key@
    }

    /// The key the next incoming message must be encrypted with.
    pub closed spec fn spec_recv_key(&self) -> Seq<u8> {
        self.recv_key@
    }

    /// Number of messages sent so far.
    pub closed spec fn spec_send_count(&self) -> u64 {
        self.send_counter
    }

    /// Number of messages received so far.
    pub closed spec fn spec_recv_count(&self) -> u64 {
        self.recv_counter
    }

    /// Create a new secure channel from a shared secret.
    ///
    /// The secret is split into two keys by domain-separated derivation; the
    /// initiator sends with the first and receives with the second, the
    /// responder the other way round.
    pub fn new(shared_secret: &[u8; 32], is_initiator: bool) -> (res: Result<Self, OmniMeshError>)
        ensures
            res matches Ok(ch) && ch.spec_send_key() == initial_send_key(shared_secret@, is_initiator)
                && ch.spec_recv_key() == initial_recv_key(shared_secret@, is_initiator)
                && ch.spec_send_count() == 0 && ch.spec_recv_count() == 0
                && ch.spec_secret() == shared_secret@ && ch.spec_initiator() == is_initiator
                && ch.keys_follow_counts(),
    {
        let (key_a, key_b) = kdf::derive_key_pair(shared_secret.as_slice(), None, kdf::domain::TRANSPORT.as_bytes())?;
        let (send_key, recv_key) = if is_initiator {
            (key_a, key_b)
        } else {
            (key_b, key_a)
        };
        Ok(SecureChannel {
            send_key,
            recv_key,
            send_counter: 0,
            recv_counter: 0,
            secret: Ghost(shared_secret@),
            initiator: Ghost(is_initiator),
        })
    }

    /// Encrypt a message and ratchet the send key.
    ///
    /// Refused once `REKEY_THRESHOLD` messages have been sent, and for a
    /// plaintext too long for the cipher; a refusal leaves the channel as it
    /// was.
    pub fn encrypt(&mut self, plaintext: &[u8]) -> (res: Result<Vec<u8>, OmniMeshError>)
        ensures
            res is Ok <==> old(self).spec_send_count() < REKEY_THRESHOLD && fits_cipher(plaintext@.len()),
            match res {
                Ok(out) => is_sealed(old(self).spec_send_key(), plaintext@, out@)
                    && final(self).spec_send_key() == spec_ratchet(old(self).spec_send_key())
                    && final(self).spec_send_count() == old(self).spec_send_count() + 1,
                Err(e) => e is Crypto && *final(self) == *old(self),
            },
            final(self).spec_recv_key() == old(self).spec_recv_key(),
            final(self).spec_recv_count() == old(self).spec_recv_count(),
            final(self).spec_secret() == old(self).spec_secret(),
            final(self).spec_initiator() == old(self).spec_initiator(),
            old(self).keys_follow_counts(),
            final(self).keys_follow_counts(),
            res matches Ok(out) ==> is_sealed(
                ratchet_n(initial_send_key(old(self).spec_secret(), old(self).spec_initiator()), old(self).spec_send_count() as nat),
                plaintext@,
                out@,
            ),
    {
        proof { use_type_invariant(&*self); }
        if self.send_counter >= REKEY_THRESHOLD {
            return Err(OmniMeshError::Crypto("send key exhausted — rekeying required".to_owned()));
        }
        let ciphertext = aead::encrypt(&self.send_key, plaintext)?;
        let next = match kdf::ratchet_key(&self.send_key) {
            Ok(k) => k,
            Err(e) => return Err(e),
        };
        *self = SecureChannel {
            send_key: next,
            recv_key: self.recv_key,
            send_counter: self.send_counter + 1,
            recv_counter: self.recv_counter,
            secret: self.secret,
            initiator: self.initiator,
        };
        proof { use_type_invariant(&*self); }
        Ok(ciphertext)
    }

    /// Decrypt a message and ratchet the receive key.
    ///
    /// Refused once `REKEY_THRESHOLD` messages have been received, and when
    /// the message does not authenticate under the current receive key; a
    /// refusal leaves the channel as it was. A message that the peer
    /// encrypted with the key this side now receives with decrypts to its
    /// plaintext.
    pub fn decrypt(&mut self, ciphertext: &[u8]) -> (res: Result<Vec<u8>, OmniMeshError>)
        ensures
            res is Ok <==> old(self).spec_recv_count() < REKEY_THRESHOLD
                && spec_decrypt(old(self).spec_recv_key(), ciphertext@) is Some,
            match res {
                Ok(p) => spec_decrypt(old(self).spec_recv_key(), ciphertext@) == Some(p@)
                    && final(self).spec_recv_key() == spec_ratchet(old(self).spec_recv_key())
                    && final(self).spec_recv_count() == old(self).spec_recv_count() + 1,
                Err(e) => e is Crypto && *final(self) == *old(self),
            },
            old(self).spec_recv_count() < REKEY_THRESHOLD ==> (forall|p: Seq<u8>|
                fits_cipher(p.len()) && #[trigger] is_sealed(old(self).spec_recv_key(), p, ciphertext@)
                    ==> (res matches Ok(q) && q@ == p)),
            final(self).spec_send_key() == old(self).spec_send_key(),
            final(self).spec_send_count() == old(self).spec_send_count(),
            final(self).spec_secret() == old(self).spec_secret(),
            final(self).spec_initiator() == old(self).spec_initiator(),
            old(self).keys_follow_counts(),
            final(self).keys_follow_counts(),
            res is Ok <==> old(self).spec_recv_count() < REKEY_THRESHOLD && spec_decrypt(
                ratchet_n(initial_recv_key(old(self).spec_secret(), old(self).spec_initiator()), old(self).spec_recv_count() as nat),
                ciphertext@,
            ) is Some,
    {
        proof { use_type_invariant(&*self); }
        if self.recv_counter >= REKEY_THRESHOLD {
            return Err(OmniMeshError::Crypto("receive key exhausted — rekeying required".to_owned()));
        }
        let plaintext = aead::decrypt(&self.recv_key, ciphertext)?;
        let next = match kdf::ratchet_key(&self.recv_key) {
            Ok(k) => k,
            Err(e) => return Err(e),
        };
        *self = SecureChannel {
            send_key: self.send_key,
            recv_key: next,
            send_counter: self.send_counter,
            recv_counter: self.recv_counter + 1,
            secret: self.secret,
            initiator: self.initiator,
        };
        proof { use_type_invariant(&*self); }
        Ok(plaintext)
    }

    /// Get the number of messages sent through this channel; the keys
    /// follow the counts.
    pub fn send_count(&self) -> (n: u64)
        ensures
            n == self.spec_send_count(),
            self.keys_follow_counts(),
    {
        proof { use_type_invariant(self); }
        self.send_counter
    }

    /// Get the number of messages received through this channel; the keys
    /// follow the counts.
    pub fn recv_count(&self) -> (n: u64)
        ensures
            n == self.spec_recv_count(),
            self.keys_follow_counts(),
    {
        proof { use_type_invariant(self); }
        self.recv_counter
    }

    /// Get remaining messages before mandatory rekeying.
    pub fn messages_remaining(&self) -> (n: u64)
        ensures
            n == spec_remaining(self.spec_send_count(), self.spec_recv_count()),
    {
        let used = if self.send_counter >= self.recv_counter { self.send_counter } else { self.recv_counter };
        REKEY_THRESHOLD.saturating_sub(used)
    }

    /// The debug rendering, which shows the counters and hides the keys.
    pub fn debug_string(&self) -> (s: String)
        ensures
            s@ == "SecureChannel { send_counter: "@ + crate::text::decimal(self.spec_send_count() as nat)
                + ", recv_counter: "@ + crate::text::decimal(self.spec_recv_count() as nat)
                + ", messages_remaining: "@ + crate::text::decimal(spec_remaining(self.spec_send_count(), self.spec_recv_count()) as nat)
                + ", keys: \"[REDACTED]\" }"@,
    {
        use_debug_parts(self.send_counter, self.recv_counter, self.messages_remaining())
    }
}

fn use_debug_parts(send: u64, recv: u64, remaining: u64) -> (s: String)
    ensures
        s@ == "SecureChannel { send_counter: "@ + crate::text::decimal(send as nat)
            + ", recv_counter: "@ + crate::text::decimal(recv as nat)
            + ", messages_remaining: "@ + crate::text::decimal(remaining as nat)
            + ", keys: \"[REDACTED]\" }"@,
{
    let mut s = "SecureChannel { send_counter: ".to_owned();
    let a = crate::text::decimal_string(send);
    vstd::string::StringExecFns::append(&mut s, a.as_str());
    vstd::string::StringExecFns::append(&mut s, ", recv_counter: ");
    let b = crate::text::decimal_string(recv);
    vstd::string::StringExecFns::append(&mut s, b.as_str());
    vstd::string::StringExecFns::append(&mut s, ", messages_remaining: ");
    let c = crate::text::decimal_string(remaining);
    vstd::string::StringExecFns::append(&mut s, c.as_str());
    vstd::string::StringExecFns::append(&mut s, ", keys: \"[REDACTED]\" }");
    s
}

/// The two ends of a channel set up from one shared secret agree: what the
/// initiator sends with, the responder receives with, and the other way round.
pub proof fn law_channel_ends_agree(shared_secret: Seq<u8>)
    ensures
        initial_send_key(shared_secret, true) == initial_recv_key(shared_secret, false),
        initial_send_key(shared_secret, false) == initial_recv_key(shared_secret, true),
{
}

/// Over any interleaving of messages in the two directions, the two ends of
/// a channel agree: once one end has sent as many messages as the other has
/// received, the sender's key is the receiver's key. Every channel keeps
/// its keys in step with its counts: [`SecureChannel::new`],
/// [`SecureChannel::encrypt`], [`SecureChannel::decrypt`] (before and after
/// the call), [`SecureChannel::send_count`] and
/// [`SecureChannel::recv_count`] each ensure `keys_follow_counts`.
pub proof fn law_channel_keys_agree(a: SecureChannel, b: SecureChannel)
    requires
        a.keys_follow_counts(),
        b.keys_follow_counts(),
        a.spec_secret() == b.spec_secret(),
        a.spec_initiator() != b.spec_initiator(),
        a.spec_send_count() == b.spec_recv_count(),
    ensures
        a.spec_send_key() == b.spec_recv_key(),
{
}

/// A run of messages: the message a channel sends after `sent` earlier
/// ones is sealed under its initial send key ratcheted `sent` times, and
/// the key moves on by one ratchet step.
pub proof fn law_channel_run(ch_before: SecureChannel, ch_after: SecureChannel)
    requires
        ch_before.keys_follow_counts(),
        ch_after.keys_follow_counts(),
        ch_after.spec_secret() == ch_before.spec_secret(),
        ch_after.spec_initiator() == ch_before.spec_initiator(),
        ch_after.spec_send_count() == ch_before.spec_send_count() + 1,
    ensures
        ch_before.spec_send_key() == ratchet_n(initial_send_key(ch_before.spec_secret(), ch_before.spec_initiator()), ch_before.spec_send_count() as nat),
        ch_after.spec_send_key() == spec_ratchet(ch_before.spec_send_key()),
{
}

/// Ratcheting is deterministic: two ends that agree on a key before a
/// message still agree after both ratchet it.
pub proof fn law_ratchet_keeps_agreement(sender_key: Seq<u8>, receiver_key: Seq<u8>)
    requires
        sender_key == receiver_key,
    ensures
        spec_ratchet(sender_key) == spec_ratchet(receiver_key),
{
}

} // verus!
