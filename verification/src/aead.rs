//! ChaCha20-Poly1305 authenticated encryption.
//!
//! Wire format: `[nonce: 12 bytes][ciphertext + tag: N + 16 bytes]`.

use vstd::prelude::*;
use vstd::slice::slice_subrange;
use vstd::string::*;

use crate::error::OmniMeshError;
use crate::random::random_12;
use crate::text::decimal_string;
use chacha20poly1305::KeyInit;
use chacha20poly1305::aead::Aead;

verus! {

/// Size of the nonce in bytes.
pub const NONCE_SIZE: usize = 12;

/// Size of the authentication tag in bytes.
pub const TAG_SIZE: usize = 16;

/// The ciphertext-with-tag that ChaCha20-Poly1305 produces for `plaintext`.
pub uninterp spec fn chacha20poly1305_seal(key: Seq<u8>, nonce: Seq<u8>, plaintext: Seq<u8>) -> Seq<u8>;

/// What ChaCha20-Poly1305 decryption gives for `ciphertext`: the plaintext
/// when the tag authenticates, `None` otherwise.
pub uninterp spec fn chacha20poly1305_open(key: Seq<u8>, nonce: Seq<u8>, ciphertext: Seq<u8>) -> Option<Seq<u8>>;

/// Whether a message is short enough for the 32-bit block counter
/// (fewer than `u32::MAX` blocks of 64 bytes).
pub open spec fn fits_cipher(len: nat) -> bool {
    len / 64 < 0xffff_ffff
}

#[verifier::external_type_specification]
#[verifier::external_body]
pub struct ExAeadError(chacha20poly1305::Error);

/// `ChaCha20Poly1305::encrypt` under `key` and `nonce`, without associated
/// data. The crate refuses a message of `u32::MAX` blocks or more; otherwise
/// the output is the ciphertext followed by the 16-byte tag.
#[verifier::external_body]
pub(crate) fn chacha_seal(key: &[u8; 32], nonce: &[u8; 12], plaintext: &[u8]) -> (res: Result<Vec<u8>, chacha20poly1305::Error>)
    ensures
        res is Ok <==> fits_cipher(plaintext@.len()),
        res matches Ok(ct) ==> ct@ == chacha20poly1305_seal(key@, nonce@, plaintext@) && ct@.len() == plaintext@.len() + TAG_SIZE,
{
    let cipher = chacha20poly1305::ChaCha20Poly1305::new(chacha20poly1305::Key::from_slice(key));
    cipher.encrypt(chacha20poly1305::Nonce::from_slice(nonce), plaintext)
}

/// `ChaCha20Poly1305::decrypt` under `key` and `nonce`, without associated
/// data. Decryption inverts encryption: the ciphertext that encryption made
/// from a plaintext decrypts to that plaintext under the same key and nonce.
#[verifier::external_body]
pub(crate) fn chacha_open(key: &[u8; 32], nonce: &[u8], ciphertext: &[u8]) -> (res: Result<Vec<u8>, chacha20poly1305::Error>)
    requires
        nonce@.len() == NONCE_SIZE,
    ensures
        res matches Ok(pt) ==> chacha20poly1305_open(key@, nonce@, ciphertext@) == Some(pt@),
        res is Err ==> chacha20poly1305_open(key@, nonce@, ciphertext@) is None,
        (exists|p: Seq<u8>| fits_cipher(p.len()) && #[trigger] chacha20poly1305_seal(key@, nonce@, p) == ciphertext@) ==> res is Ok,
        res matches Ok(q) ==> (forall|p: Seq<u8>| fits_cipher(p.len()) && #[trigger] chacha20poly1305_seal(key@, nonce@, p) == ciphertext@ ==> q@ == p),
{
    let cipher = chacha20poly1305::ChaCha20Poly1305::new(chacha20poly1305::Key::from_slice(key));
    cipher.decrypt(chacha20poly1305::Nonce::from_slice(nonce), ciphertext)
}

/// Whether `out` is the wire form of `plaintext` encrypted under `key` with
/// the nonce at its front.
pub open spec fn is_sealed(key: Seq<u8>, plaintext: Seq<u8>, out: Seq<u8>) -> bool {
    &&& out.len() == NONCE_SIZE + plaintext.len() + TAG_SIZE
    &&& out.subrange(NONCE_SIZE as int, out.len() as int) == chacha20poly1305_seal(key, out.subrange(0, NONCE_SIZE as int), plaintext)
}

/// What decryption of wire bytes gives: `None` for input shorter than a
/// nonce and a tag, otherwise the decryption of the rest under the nonce
/// at its front.
pub open spec fn spec_decrypt(key: Seq<u8>, data: Seq<u8>) -> Option<Seq<u8>> {
    if data.len() < NONCE_SIZE + TAG_SIZE {
        None
    } else {
        chacha20poly1305_open(key, data.subrange(0, NONCE_SIZE as int), data.subrange(NONCE_SIZE as int, data.len() as int))
    }
}

fn concat_nonce(nonce: &[u8; 12], ciphertext: &Vec<u8>) -> (out: Vec<u8>)
    ensures
        out@ == nonce@ + ciphertext@,
{
    let mut out: Vec<u8> = Vec::new();
    let mut i: usize = 0;
    while i < NONCE_SIZE
        invariant
            i <= NONCE_SIZE,
            nonce@.len() == NONCE_SIZE,
            out@ == nonce@.subrange(0, i as int),
        decreases NONCE_SIZE - i,
    {
        out.push(nonce[i]);
        i = i + 1;
        assert(out@ =~= nonce@.subrange(0, i as int));
    }
    let mut j: usize = 0;
    while j < ciphertext.len()
        invariant
            j <= ciphertext@.len(),
            nonce@.len() == NONCE_SIZE,
            out@ == nonce@ + ciphertext@.subrange(0, j as int),
        decreases ciphertext@.len() - j,
    {
        out.push(ciphertext[j]);
        j = j + 1;
        assert(out@ =~= nonce@ + ciphertext@.subrange(0, j as int));
    }
    assert(ciphertext@.subrange(0, ciphertext@.len() as int) =~= ciphertext@);
    out
}

fn encryption_failed() -> (e: OmniMeshError)
    ensures
        e matches OmniMeshError::Crypto(m) && m@ == "encryption failed: aead::Error"@,
{
    OmniMeshError::Crypto("encryption failed: aead::Error".to_owned())
}

/// Encrypt plaintext with a 256-bit key under a fresh random nonce.
///
/// Returns `nonce || ciphertext || tag`; fails only for a plaintext too long
/// for the cipher.
pub fn encrypt(key: &[u8; 32], plaintext: &[u8]) -> (res: Result<Vec<u8>, OmniMeshError>)
    ensures
        res is Ok <==> fits_cipher(plaintext@.len()),
        res matches Ok(out) ==> is_sealed(key@, plaintext@, out@),
        res matches Err(e) ==> e is Crypto,
{
    let nonce = random_12();
    encrypt_with_nonce(key, &nonce, plaintext)
}

/// Encrypt with an explicit nonce (for deterministic testing or
/// counter-based schemes).
///
/// **Warning:** Reusing a nonce with the same key is catastrophic.
pub fn encrypt_with_nonce(key: &[u8; 32], nonce_bytes: &[u8; 12], plaintext: &[u8]) -> (res: Result<Vec<u8>, OmniMeshError>)
    ensures
        res is Ok <==> fits_cipher(plaintext@.len()),
        res matches Ok(out) ==> out@ == nonce_bytes@ + chacha20poly1305_seal(key@, nonce_bytes@, plaintext@),
        res matches Ok(out) ==> is_sealed(key@, plaintext@, out@),
        res matches Err(e) ==> e is Crypto,
{
    match chacha_seal(key, nonce_bytes, plaintext) {
        Ok(ciphertext) => {
            let out = concat_nonce(nonce_bytes, &ciphertext);
            assert(out@.subrange(0, NONCE_SIZE as int) =~= nonce_bytes@);
            assert(out@.subrange(NONCE_SIZE as int, out@.len() as int) =~= ciphertext@);
            Ok(out)
        },
        Err(_) => Err(encryption_failed()),
    }
}

/// Decrypt data produced by [`encrypt`]: `nonce (12) || ciphertext || tag (16)`.
///
/// Fails with a crypto error on input shorter than 28 bytes or when the tag
/// does not authenticate. Whatever `encrypt` produced from a plaintext under
/// a key decrypts back to that plaintext under the same key.
pub fn decrypt(key: &[u8; 32], data: &[u8]) -> (res: Result<Vec<u8>, OmniMeshError>)
    ensures
        match res {
            Ok(p) => spec_decrypt(key@, data@) == Some(p@),
            Err(e) => spec_decrypt(key@, data@) is None && e is Crypto,
        },
        forall|p: Seq<u8>| fits_cipher(p.len()) && #[trigger] is_sealed(key@, p, data@) ==> (res matches Ok(q) && q@ == p),
{
    if data.len() < NONCE_SIZE + TAG_SIZE {
        let mut msg = "ciphertext too short: ".to_owned();
        let n = decimal_string(data.len() as u64);
        msg.append(n.as_str());
        msg.append(" bytes (minimum 28)");
        return Err(OmniMeshError::Crypto(msg));
    }
    let nonce = slice_subrange(data, 0, NONCE_SIZE);
    let ciphertext = slice_subrange(data, NONCE_SIZE, data.len());
    match chacha_open(key, nonce, ciphertext) {
        Ok(p) => Ok(p),
        Err(_) => Err(OmniMeshError::Crypto("decryption failed: invalid key or corrupted data".to_owned())),
    }
}

} // verus!
