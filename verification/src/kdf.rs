//! HKDF-SHA256 key derivation with domain separation.

use vstd::prelude::*;
use vstd::string::*;

use crate::error::OmniMeshError;
use crate::text::decimal_string;

pub mod domain;

verus! {

/// Largest output HKDF-SHA256 can produce: 255 blocks of 32 bytes.
pub const MAX_OUTPUT_LEN: usize = 8160;

/// The output of HKDF-SHA256 (extract with `salt`, a zero salt when absent,
/// then expand with `info`) of `len` bytes.
pub uninterp spec fn hkdf_sha256(salt: Option<Seq<u8>>, ikm: Seq<u8>, info: Seq<u8>, len: nat) -> Seq<u8>;

/// The view of an optional byte slice.
pub open spec fn opt_bytes(salt: Option<&[u8]>) -> Option<Seq<u8>> {
    match salt {
        Some(s) => Some(s@),
        None => None,
    }
}

/// The bytes of a domain label.
pub open spec fn label(info: &str) -> Seq<u8> {
    info.spec_bytes()
}

/// `okm` is HKDF output of these inputs that every other output length
/// agrees with: an output of `m` bytes (up to the maximum) has `m` bytes,
/// and the shorter of two outputs is a prefix of the longer (the output is
/// the blocks T(1) || T(2) || ... cut to length).
pub open spec fn hkdf_prefixes(salt: Option<Seq<u8>>, ikm: Seq<u8>, info: Seq<u8>, okm: Seq<u8>) -> bool {
    forall|m: nat| #![trigger hkdf_sha256(salt, ikm, info, m)] 0 < m <= MAX_OUTPUT_LEN ==> {
        &&& hkdf_sha256(salt, ikm, info, m).len() == m
        &&& (m <= okm.len() ==> hkdf_sha256(salt, ikm, info, m) == okm.subrange(0, m as int))
        &&& (okm.len() <= m ==> hkdf_sha256(salt, ikm, info, m).subrange(0, okm.len() as int) == okm)
    }
}

#[verifier::external_type_specification]
#[verifier::external_body]
pub struct ExInvalidLength(hkdf::InvalidLength);

/// HKDF-SHA256 extract-and-expand (`hkdf::Hkdf::<Sha256>::new` followed by
/// `expand`). The crate refuses an output longer than 255 * 32 bytes and
/// otherwise fills exactly `len` bytes with the HKDF output, block after
/// block, so outputs of other lengths are its prefixes or extensions.
#[verifier::external_body]
pub(crate) fn hkdf_sha256_expand(salt: Option<&[u8]>, ikm: &[u8], info: &[u8], len: usize) -> (res: Result<Vec<u8>, hkdf::InvalidLength>)
    ensures
        res is Ok <==> len <= MAX_OUTPUT_LEN,
        res matches Ok(okm) ==> okm@.len() == len && okm@ == hkdf_sha256(opt_bytes(salt), ikm@, info@, len as nat),
        res matches Ok(okm) ==> hkdf_prefixes(opt_bytes(salt), ikm@, info@, okm@),
{
    let hk = hkdf::Hkdf::<sha2::Sha256>::new(salt, ikm);
    let mut okm = vec![0u8; len];
    hk.expand(info, &mut okm).map(|_| okm)
}

/// What `derive_key` returns for the given inputs.
pub open spec fn spec_derive_key(salt: Option<Seq<u8>>, ikm: Seq<u8>, info: Seq<u8>, output_len: nat) -> Option<Seq<u8>> {
    if output_len == 0 || output_len > MAX_OUTPUT_LEN {
        None
    } else {
        Some(hkdf_sha256(salt, ikm, info, output_len))
    }
}

/// A derivation succeeds exactly for an output of 1 to 8160 bytes (255
/// blocks of 32), and then gives the HKDF output of that length.
pub proof fn law_derive_key_lengths(salt: Option<Seq<u8>>, ikm: Seq<u8>, info: Seq<u8>, output_len: nat)
    ensures
        spec_derive_key(salt, ikm, info, output_len) is Some <==> (1 <= output_len && output_len <= 8160),
        spec_derive_key(salt, ikm, info, 0) is None,
        spec_derive_key(salt, ikm, info, 8161) is None,
        1 <= output_len <= 8160 ==> spec_derive_key(salt, ikm, info, output_len) == Some(hkdf_sha256(salt, ikm, info, output_len)),
{
}

/// Derive a key using HKDF-SHA256.
///
/// Fails with a key-derivation error exactly when `output_len` is zero or
/// above 8160; otherwise returns the `output_len` bytes of HKDF output.
pub fn derive_key(ikm: &[u8], salt: Option<&[u8]>, info: &[u8], output_len: usize) -> (res: Result<Vec<u8>, OmniMeshError>)
    ensures
        match res {
            Ok(okm) => spec_derive_key(opt_bytes(salt), ikm@, info@, output_len as nat) == Some(okm@)
                && okm@.len() == output_len
                && hkdf_prefixes(opt_bytes(salt), ikm@, info@, okm@),
            Err(e) => spec_derive_key(opt_bytes(salt), ikm@, info@, output_len as nat) is None
                && e is KeyDerivation,
        },
{
    if output_len == 0 {
        return Err(OmniMeshError::KeyDerivation("output length must be > 0".to_owned()));
    }
    if output_len > MAX_OUTPUT_LEN {
        let mut msg = "output length ".to_owned();
        let n = decimal_string(output_len as u64);
        msg.append(n.as_str());
        msg.append(" exceeds HKDF-SHA256 maximum (8160)");
        return Err(OmniMeshError::KeyDerivation(msg));
    }
    match hkdf_sha256_expand(salt, ikm, info, output_len) {
        Ok(okm) => Ok(okm),
        Err(_) => Err(OmniMeshError::KeyDerivation("HKDF expand failed: invalid number of blocks, too large output".to_owned())),
    }
}

/// Copies the first 32 bytes of `v` starting at `start` into an array.
fn take_32(v: &Vec<u8>, start: usize) -> (key: [u8; 32])
    requires
        start + 32 <= v@.len(),
    ensures
        key@ == v@.subrange(start as int, start + 32),
{
    let mut key = [0u8; 32];
    let mut i: usize = 0;
    while i < 32
        invariant
            i <= 32,
            start + 32 <= v.len(),
            key@.len() == 32,
            forall|j: int| 0 <= j < i ==> key@[j] == v@[start + j],
        decreases 32 - i,
    {
        key[i] = v[start + i];
        i = i + 1;
    }
    assert(key@ =~= v@.subrange(start as int, start + 32));
    key
}

/// Derive a fixed-size 256-bit key.
pub fn derive_key_256(ikm: &[u8], salt: Option<&[u8]>, info: &[u8]) -> (res: Result<[u8; 32], OmniMeshError>)
    ensures
        res matches Ok(key) && key@ == hkdf_sha256(opt_bytes(salt), ikm@, info@, 32),
{
    let derived = derive_key(ikm, salt, info, 32)?;
    Ok(take_32(&derived, 0))
}

/// Derive two 32-byte keys from a single input (for split key patterns):
/// the first and the second half of a 64-byte HKDF output. The first is the
/// key `derive_key_256` derives from the same input.
pub fn derive_key_pair(ikm: &[u8], salt: Option<&[u8]>, info: &[u8]) -> (res: Result<([u8; 32], [u8; 32]), OmniMeshError>)
    ensures
        res matches Ok((enc, auth))
            && enc@ == hkdf_sha256(opt_bytes(salt), ikm@, info@, 64).subrange(0, 32)
            && auth@ == hkdf_sha256(opt_bytes(salt), ikm@, info@, 64).subrange(32, 64)
            && enc@ == hkdf_sha256(opt_bytes(salt), ikm@, info@, 32),
{
    let mut derived = derive_key(ikm, salt, info, 64)?;
    proof {
        assert(hkdf_sha256(opt_bytes(salt), ikm@, info@, 32) == derived@.subrange(0, 32));
    }
    let enc_key = take_32(&derived, 0);
    let auth_key = take_32(&derived, 32);
    zeroize_bytes(&mut derived);
    Ok((enc_key, auth_key))
}

/// The first key of a pair is the 256-bit key of the same input: both are
/// the first 32 bytes of HKDF output.
pub proof fn law_key_pair_extends_key_256(salt: Option<Seq<u8>>, ikm: Seq<u8>, info: Seq<u8>, pair_first: Seq<u8>, key_256: Seq<u8>)
    requires
        pair_first == hkdf_sha256(salt, ikm, info, 32),
        key_256 == hkdf_sha256(salt, ikm, info, 32),
    ensures
        pair_first == key_256,
{
}

/// The key that follows `key` in a ratchet chain.
pub open spec fn spec_ratchet(key: Seq<u8>) -> Seq<u8> {
    hkdf_sha256(None, key, label(domain::SESSION_RATCHET), 32)
}

/// Ratchet a key forward (derive the next key from the current one).
pub fn ratchet_key(current_key: &[u8; 32]) -> (res: Result<[u8; 32], OmniMeshError>)
    ensures
        res matches Ok(next) && next@ == spec_ratchet(current_key@),
{
    derive_key_256(current_key.as_slice(), None, domain::SESSION_RATCHET.as_bytes())
}

/// Overwrites key material with zeros (`zeroize::Zeroize::zeroize` on a
/// `Vec<u8>`, which zeroes the elements and then empties the vector).
#[verifier::external_body]
pub(crate) fn zeroize_bytes(bytes: &mut Vec<u8>)
    ensures
        final(bytes)@.len() == 0,
{
    zeroize::Zeroize::zeroize(bytes)
}

/// Every byte is zero.
pub open spec fn all_zero(bytes: Seq<u8>) -> bool {
    forall|i: int| 0 <= i < bytes.len() ==> bytes[i] == 0
}

/// Overwrites a key with zeros (`zeroize::Zeroize::zeroize` on a byte
/// array, which zeroes each element).
#[verifier::external_body]
pub(crate) fn zeroize_key(key: &mut [u8; 32])
    ensures
        all_zero(final(key)@),
{
    zeroize::Zeroize::zeroize(key)
}

} // verus!
