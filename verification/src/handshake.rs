//! The decisions of the handshake exchange: which message to send or
//! receive next, the check of the version the remote side announces, and
//! the outcome. The caller moves the bytes and runs the Noise state.

use vstd::prelude::*;

use crate::error::OmniMeshError;
use crate::keypair::{ed25519_to_x25519, x25519_public_of};
use crate::noise::Role;
use crate::types::{spec_compatible, spec_version_text, PeerId, ProtocolVersion};

verus! {

/// What each side announces inside its handshake messages.
#[derive(Debug, Clone, Copy)]
pub struct HandshakePayload {
    /// The protocol version the side speaks.
    pub version: ProtocolVersion,
    /// The side's PeerId.
    pub peer_id: PeerId,
}

/// The next step of a handshake exchange.
#[derive(Debug, Clone, Copy, PartialEq, Eq, Structural)]
pub enum HandshakeAction {
    /// Write a handshake message carrying the local payload and send it.
    Send,
    /// Receive a handshake message, read it, and hand its payload back.
    Receive,
    /// The handshake is complete: turn it into a transport.
    Done,
}

/// The state of a handshake exchange.
pub struct HandshakeDriver {
    role: Role,
    send_next: bool,
    remote_peer_id: Option<PeerId>,
}

/// Whether the announced PeerId is bound to the authenticated static key:
/// the key is the X25519 form of the PeerId's Ed25519 public key.
pub open spec fn spec_bound(remote: Option<PeerId>, remote_static: Option<[u8; 32]>) -> bool {
    match (remote, remote_static) {
        (Some(p), Some(k)) => ed25519_to_x25519(p.0@) == Some(k@),
        _ => false,
    }
}

/// The error for a remote version of another major version.
pub open spec fn spec_mismatch(local: ProtocolVersion, remote: ProtocolVersion, e: OmniMeshError) -> bool {
    match e {
        OmniMeshError::ProtocolMismatch { local: l, remote: r } => l@ == spec_version_text(local) && r@ == spec_version_text(remote),
        _ => false,
    }
}

/// A PeerId counts as authenticated only with a static key, and only with
/// the X25519 form of its own Ed25519 key: no PeerId or no key is never
/// bound, and a key other than that form never is.
pub proof fn law_binding_needs_the_peers_key(p: PeerId, k: [u8; 32], remote: Option<PeerId>, remote_static: Option<[u8; 32]>)
    ensures
        !spec_bound(None, remote_static),
        !spec_bound(remote, None),
        ed25519_to_x25519(p.0@) != Some(k@) ==> !spec_bound(Some(p), Some(k)),
        ed25519_to_x25519(p.0@) == Some(k@) ==> spec_bound(Some(p), Some(k)),
{
}

/// A version mismatch names both versions, the local one first, each as
/// `major.minor.patch`; no other error is a version mismatch.
pub proof fn law_mismatch_names_both_versions(local: ProtocolVersion, remote: ProtocolVersion, l: String, r: String, s: String)
    ensures
        spec_mismatch(local, remote, OmniMeshError::ProtocolMismatch { local: l, remote: r })
            <==> (l@ == spec_version_text(local) && r@ == spec_version_text(remote)),
        !spec_mismatch(local, remote, OmniMeshError::Handshake(s)),
{
}

impl HandshakeDriver {
    /// This side's role.
    pub closed spec fn spec_role(&self) -> Role {
        self.role
    }

    /// Whether the next message is sent (rather than received).
    pub closed spec fn spec_send_next(&self) -> bool {
        self.send_next
    }

    /// The remote PeerId announced so far.
    pub closed spec fn spec_remote(&self) -> Option<PeerId> {
        self.remote_peer_id
    }

    /// A fresh exchange: the initiator sends first, the responder receives
    /// first, and no remote identity is known.
    pub fn new(role: Role) -> (d: Self)
        ensures
            d.spec_role() == role,
            d.spec_send_next() == (role == Role::Initiator),
            d.spec_remote() is None,
    {
        HandshakeDriver { role, send_next: role == Role::Initiator, remote_peer_id: None }
    }

    /// The payload this side announces: the current version and its PeerId.
    pub fn local_payload(local_peer_id: PeerId) -> (p: HandshakePayload)
        ensures
            p.version == ProtocolVersion::current_spec(),
            p.peer_id == local_peer_id,
    {
        HandshakePayload { version: ProtocolVersion::current(), peer_id: local_peer_id }
    }

    /// The next step: done once the Noise state reports the handshake
    /// finished, otherwise sending and receiving in turn.
    pub fn next_action(&self, finished: bool) -> (a: HandshakeAction)
        ensures
            a == (if finished { HandshakeAction::Done } else if self.spec_send_next() { HandshakeAction::Send } else { HandshakeAction::Receive }),
    {
        if finished {
            HandshakeAction::Done
        } else if self.send_next {
            HandshakeAction::Send
        } else {
            HandshakeAction::Receive
        }
    }

    /// Records that a message was sent: the next one is received.
    pub fn message_sent(&mut self)
        ensures
            !final(self).spec_send_next(),
            final(self).spec_role() == old(self).spec_role(),
            final(self).spec_remote() == old(self).spec_remote(),
    {
        self.send_next = false;
    }

    /// Takes the payload of a received message: a remote version of another
    /// major version ends the exchange with a protocol mismatch; otherwise
    /// the remote PeerId is recorded and the next message is sent.
    pub fn payload_received(&mut self, remote: &HandshakePayload) -> (res: Result<(), OmniMeshError>)
        ensures
            final(self).spec_role() == old(self).spec_role(),
            res is Ok <==> spec_compatible(ProtocolVersion::current_spec(), remote.version),
            match res {
                Ok(_) => final(self).spec_remote() == Some(remote.peer_id) && final(self).spec_send_next(),
                Err(e) => spec_mismatch(ProtocolVersion::current_spec(), remote.version, e)
                    && final(self).spec_remote() == old(self).spec_remote()
                    && final(self).spec_send_next() == old(self).spec_send_next(),
            },
    {
        let local = ProtocolVersion::current();
        if !local.is_compatible_with(&remote.version) {
            return Err(OmniMeshError::ProtocolMismatch { local: local.to_string(), remote: remote.version.to_string() });
        }
        self.remote_peer_id = Some(remote.peer_id);
        self.send_next = true;
        Ok(())
    }

    /// The outcome once the handshake is done, given the static key Noise
    /// authenticated for the peer: the announced PeerId when that key is the
    /// X25519 form of the announced PeerId, otherwise a handshake error (no
    /// PeerId announced, no static key, or a PeerId the key does not belong
    /// to).
    ///
    /// The X25519 form identifies an Ed25519 public key up to its sign: an
    /// Ed25519 key and its negation have the same X25519 form, so either is
    /// accepted for the same static key. Passing as a given peer this way
    /// still takes the X25519 secret that authenticates its static key.
    pub fn finish(&self, remote_static: Option<[u8; 32]>) -> (res: Result<PeerId, OmniMeshError>)
        ensures
            (res is Ok) == spec_bound(self.spec_remote(), remote_static),
            match res {
                Ok(p) => self.spec_remote() == Some(p),
                Err(e) => e is Handshake,
            },
    {
        let p = match self.remote_peer_id {
            Some(p) => p,
            None => {
                return Err(OmniMeshError::Handshake("handshake completed without remote peer id".to_owned()));
            },
        };
        let key = match remote_static {
            Some(k) => k,
            None => {
                return Err(OmniMeshError::Handshake("handshake completed without remote static key".to_owned()));
            },
        };
        match x25519_public_of(&p.0) {
            Some(x) => {
                proof {
                    broadcast use vstd::array::group_array_axioms;
                    if x@ == key@ {
                        assert(x@ =~= key@);
                        assert(x == key);
                    }
                }
                if PeerId::from_bytes(x).same_as(&PeerId::from_bytes(key)) {
                    Ok(p)
                } else {
                    Err(OmniMeshError::Handshake("remote static key does not belong to the announced peer id".to_owned()))
                }
            },
            None => Err(OmniMeshError::Handshake("announced peer id is not a public key".to_owned())),
        }
    }
}

} // verus!
