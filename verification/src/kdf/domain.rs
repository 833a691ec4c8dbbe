//! Domain separation labels for different key derivation contexts.
//!
//! Using distinct labels ensures that keys derived for one purpose cannot be
//! used for another, even if the input keying material is the same.

use vstd::prelude::*;

verus! {

/// Key derivation for transport encryption keys.
pub const TRANSPORT: &'static str = "omnimesh-transport-v1";

/// Key derivation for session ratcheting.
pub const SESSION_RATCHET: &'static str = "omnimesh-session-ratchet-v1";

/// Key derivation for key storage encryption.
pub const KEYSTORE: &'static str = "omnimesh-keystore-v1";

/// Key derivation for Noise handshake prologue.
pub const NOISE_PROLOGUE: &'static str = "omnimesh-noise-prologue-v1";

/// Key derivation for message authentication.
pub const MESSAGE_AUTH: &'static str = "omnimesh-message-auth-v1";

} // verus!
