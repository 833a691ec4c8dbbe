//! The unified error type and its classification.

use vstd::prelude::*;
use vstd::string::*;

use crate::text::{decimal, decimal_string};

verus! {

/// Unified error type for all OmniMesh operations.
///
/// I/O failures carry the rendered message of the underlying error.
#[derive(Debug)]
pub enum OmniMeshError {
    /// Failed to generate or parse a cryptographic keypair.
    Identity(String),
    /// Key storage operation failed (read, write, or decrypt).
    KeyStore(String),
    /// Key rotation failed or epoch mismatch.
    KeyRotation(String),
    /// Encryption or decryption failed.
    Crypto(String),
    /// Noise protocol handshake failed.
    Handshake(String),
    /// Key derivation failed.
    KeyDerivation(String),
    /// Connection establishment failed.
    Connection(String),
    /// Data transmission failed.
    Transport(String),
    /// Connection timed out (milliseconds).
    Timeout(u64),
    /// Address could not be resolved or is invalid.
    Address(String),
    /// No route found to destination.
    NoRoute(String),
    /// Routing table inconsistency detected.
    Routing(String),
    /// Peer discovery failed.
    Discovery(String),
    /// Service registration or lookup failed.
    Service(String),
    /// Configuration file is missing or malformed.
    Config(String),
    /// Persistent storage operation failed.
    Storage(String),
    /// Protocol version mismatch.
    ProtocolMismatch { local: String, remote: String },
    /// Malformed or invalid packet received.
    InvalidPacket(String),
    /// An I/O error occurred.
    Io(String),
    /// Serialization or deserialization error.
    Serialization(String),
    /// An unexpected internal error.
    Internal(String),
}

/// Errors that stem from transient failures and may succeed on a retry.
pub open spec fn spec_is_retryable(e: OmniMeshError) -> bool {
    e is Connection || e is Timeout || e is Transport || e is Discovery || e is Io
}

/// Errors that signal a security violation.
pub open spec fn spec_is_security_error(e: OmniMeshError) -> bool {
    e is Crypto || e is Handshake || e is KeyStore || e is InvalidPacket
}

/// No error is both transient and a security violation: a security error
/// is never retried.
pub proof fn law_retryable_errors_are_not_security_errors(e: OmniMeshError)
    ensures
        spec_is_retryable(e) ==> !spec_is_security_error(e),
        spec_is_security_error(e) ==> !spec_is_retryable(e),
{
}

/// The transient errors are retried and no others: connection, timeout,
/// transport, discovery and I/O failures, whatever they carry, are
/// retryable; every other error is final.
pub proof fn law_transient_errors(s: String, ms: u64, e: OmniMeshError)
    ensures
        spec_is_retryable(OmniMeshError::Connection(s)),
        spec_is_retryable(OmniMeshError::Timeout(ms)),
        spec_is_retryable(OmniMeshError::Transport(s)),
        spec_is_retryable(OmniMeshError::Discovery(s)),
        spec_is_retryable(OmniMeshError::Io(s)),
        !spec_is_retryable(OmniMeshError::Identity(s)),
        !spec_is_retryable(OmniMeshError::KeyStore(s)),
        !spec_is_retryable(OmniMeshError::KeyRotation(s)),
        !spec_is_retryable(OmniMeshError::Crypto(s)),
        !spec_is_retryable(OmniMeshError::Handshake(s)),
        !spec_is_retryable(OmniMeshError::KeyDerivation(s)),
        !spec_is_retryable(OmniMeshError::Address(s)),
        !spec_is_retryable(OmniMeshError::NoRoute(s)),
        !spec_is_retryable(OmniMeshError::Routing(s)),
        !spec_is_retryable(OmniMeshError::Service(s)),
        !spec_is_retryable(OmniMeshError::Config(s)),
        !spec_is_retryable(OmniMeshError::Storage(s)),
        !spec_is_retryable(OmniMeshError::InvalidPacket(s)),
        !spec_is_retryable(OmniMeshError::Serialization(s)),
        !spec_is_retryable(OmniMeshError::Internal(s)),
        !spec_is_retryable(e) ==> !(e is Connection || e is Timeout || e is Transport || e is Discovery || e is Io),
{
}

/// The security violations are the crypto, handshake, key storage and
/// invalid-packet errors, whatever they carry; no other error is one.
pub proof fn law_security_errors(s: String, ms: u64, e: OmniMeshError)
    ensures
        spec_is_security_error(OmniMeshError::Crypto(s)),
        spec_is_security_error(OmniMeshError::Handshake(s)),
        spec_is_security_error(OmniMeshError::KeyStore(s)),
        spec_is_security_error(OmniMeshError::InvalidPacket(s)),
        !spec_is_security_error(OmniMeshError::Connection(s)),
        !spec_is_security_error(OmniMeshError::Timeout(ms)),
        !spec_is_security_error(OmniMeshError::Transport(s)),
        !spec_is_security_error(OmniMeshError::Config(s)),
        !spec_is_security_error(OmniMeshError::Identity(s)),
        spec_is_security_error(e) ==> (e is Crypto || e is Handshake || e is KeyStore || e is InvalidPacket),
{
}

/// The human-readable rendering of an error.
pub open spec fn spec_message(e: OmniMeshError) -> Seq<char> {
    match e {
        OmniMeshError::Identity(s) => "identity error: "@ + s@,
        OmniMeshError::KeyStore(s) => "keystore error: "@ + s@,
        OmniMeshError::KeyRotation(s) => "key rotation error: "@ + s@,
        OmniMeshError::Crypto(s) => "crypto error: "@ + s@,
        OmniMeshError::Handshake(s) => "handshake error: "@ + s@,
        OmniMeshError::KeyDerivation(s) => "key derivation error: "@ + s@,
        OmniMeshError::Connection(s) => "connection error: "@ + s@,
        OmniMeshError::Transport(s) => "transport error: "@ + s@,
        OmniMeshError::Timeout(ms) => "timeout after "@ + decimal(ms as nat) + "ms"@,
        OmniMeshError::Address(s) => "address error: "@ + s@,
        OmniMeshError::NoRoute(s) => "no route to peer: "@ + s@,
        OmniMeshError::Routing(s) => "routing error: "@ + s@,
        OmniMeshError::Discovery(s) => "discovery error: "@ + s@,
        OmniMeshError::Service(s) => "service error: "@ + s@,
        OmniMeshError::Config(s) => "config error: "@ + s@,
        OmniMeshError::Storage(s) => "storage error: "@ + s@,
        OmniMeshError::ProtocolMismatch { local, remote } =>
            "protocol version mismatch: local="@ + local@ + ", remote="@ + remote@,
        OmniMeshError::InvalidPacket(s) => "invalid packet: "@ + s@,
        OmniMeshError::Io(s) => "I/O error: "@ + s@,
        OmniMeshError::Serialization(s) => "serialization error: "@ + s@,
        OmniMeshError::Internal(s) => "internal error: "@ + s@,
    }
}

fn prefixed(prefix: &str, s: &String) -> (r: String)
    ensures
        r@ == prefix@ + s@,
{
    let mut r = prefix.to_owned();
    r.append(s.as_str());
    r
}

impl OmniMeshError {
    /// Returns `true` if this error is retryable (transient failures).
    pub fn is_retryable(&self) -> (r: bool)
        ensures
            r == spec_is_retryable(*self),
    {
        match self {
            OmniMeshError::Connection(_) | OmniMeshError::Timeout(_) | OmniMeshError::Transport(_)
            | OmniMeshError::Discovery(_) | OmniMeshError::Io(_) => true,
            _ => false,
        }
    }

    /// Returns `true` if this error represents a security violation.
    pub fn is_security_error(&self) -> (r: bool)
        ensures
            r == spec_is_security_error(*self),
    {
        match self {
            OmniMeshError::Crypto(_) | OmniMeshError::Handshake(_) | OmniMeshError::KeyStore(_)
            | OmniMeshError::InvalidPacket(_) => true,
            _ => false,
        }
    }

    /// Renders the error as text (what `Display` prints for it).
    pub fn to_string(&self) -> (r: String)
        ensures
            r@ == spec_message(*self),
    {
        match self {
            OmniMeshError::Identity(s) => prefixed("identity error: ", s),
            OmniMeshError::KeyStore(s) => prefixed("keystore error: ", s),
            OmniMeshError::KeyRotation(s) => prefixed("key rotation error: ", s),
            OmniMeshError::Crypto(s) => prefixed("crypto error: ", s),
            OmniMeshError::Handshake(s) => prefixed("handshake error: ", s),
            OmniMeshError::KeyDerivation(s) => prefixed("key derivation error: ", s),
            OmniMeshError::Connection(s) => prefixed("connection error: ", s),
            OmniMeshError::Transport(s) => prefixed("transport error: ", s),
            OmniMeshError::Timeout(ms) => {
                let mut r = "timeout after ".to_owned();
                let digits = decimal_string(*ms);
                r.append(digits.as_str());
                r.append("ms");
                r
            },
            OmniMeshError::Address(s) => prefixed("address error: ", s),
            OmniMeshError::NoRoute(s) => prefixed("no route to peer: ", s),
            OmniMeshError::Routing(s) => prefixed("routing error: ", s),
            OmniMeshError::Discovery(s) => prefixed("discovery error: ", s),
            OmniMeshError::Service(s) => prefixed("service error: ", s),
            OmniMeshError::Config(s) => prefixed("config error: ", s),
            OmniMeshError::Storage(s) => prefixed("storage error: ", s),
            OmniMeshError::ProtocolMismatch { local, remote } => {
                let mut r = prefixed("protocol version mismatch: local=", local);
                r.append(", remote=");
                r.append(remote.as_str());
                r
            },
            OmniMeshError::InvalidPacket(s) => prefixed("invalid packet: ", s),
            OmniMeshError::Io(s) => prefixed("I/O error: ", s),
            OmniMeshError::Serialization(s) => prefixed("serialization error: ", s),
            OmniMeshError::Internal(s) => prefixed("internal error: ", s),
        }
    }
}

} // verus!
