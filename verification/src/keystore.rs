//! Encrypted key storage.
//!
//! A keypair's seed is stored encrypted with ChaCha20-Poly1305 under a key
//! derived by HKDF from a passphrase and a random salt. This module builds
//! and opens the stored record; reading and writing files is the caller's.

use vstd::prelude::*;
use vstd::string::*;

use crate::aead::{chacha20poly1305_open, chacha20poly1305_seal, chacha_open, chacha_seal, fits_cipher};
use crate::error::OmniMeshError;
use crate::kdf::{hkdf_sha256, hkdf_sha256_expand, label, zeroize_key};
use crate::keypair::Keypair;
use crate::random::{random_12, random_32};
use crate::text::decimal_string;

verus! {

/// The version of the stored record format.
pub const FORMAT_VERSION: u32 = 1;

/// The label under which passphrase keys are derived.
pub const KEYSTORE_INFO: &'static str = "omnimesh-keystore-v1";

/// File-based encrypted key storage.
pub struct FileKeyStore {
    path: String,
}

/// The stored form of an encrypted key.
pub struct EncryptedKey {
    /// Version of the storage format (for future migration).
    pub version: u32,
    /// 12-byte nonce used for ChaCha20-Poly1305.
    pub nonce: [u8; 12],
    /// Encrypted 32-byte seed + 16-byte auth tag = 48 bytes.
    pub ciphertext: Vec<u8>,
    /// Salt for HKDF key derivation (32 bytes).
    pub salt: [u8; 32],
    /// Timestamp of when this key was stored.
    pub created_at: String,
}

/// The key a passphrase and salt give.
pub open spec fn spec_passphrase_key(passphrase: Seq<u8>, salt: Seq<u8>) -> Seq<u8> {
    hkdf_sha256(Some(salt), passphrase, label(KEYSTORE_INFO), 32)
}

/// What opening a record with a passphrase gives: the seed, or `None` when
/// the version is unknown, the ciphertext does not authenticate, or the
/// plaintext is not 32 bytes.
pub open spec fn spec_open_record(version: u32, nonce: Seq<u8>, ciphertext: Seq<u8>, salt: Seq<u8>, passphrase: Seq<u8>) -> Option<Seq<u8>> {
    if version != FORMAT_VERSION {
        None
    } else {
        match chacha20poly1305_open(spec_passphrase_key(passphrase, salt), nonce, ciphertext) {
            Some(seed) => if seed.len() == 32 { Some(seed) } else { None },
            None => None,
        }
    }
}

/// Only records of format version 1 open, and only to a 32-byte seed that
/// the passphrase's key authenticates: a record of another version never
/// opens, nor one whose ciphertext does not authenticate under the key.
pub proof fn law_open_record(version: u32, nonce: Seq<u8>, ciphertext: Seq<u8>, salt: Seq<u8>, passphrase: Seq<u8>)
    ensures
        version != 1 ==> spec_open_record(version, nonce, ciphertext, salt, passphrase) is None,
        chacha20poly1305_open(spec_passphrase_key(passphrase, salt), nonce, ciphertext) is None
            ==> spec_open_record(version, nonce, ciphertext, salt, passphrase) is None,
        spec_open_record(version, nonce, ciphertext, salt, passphrase) matches Some(seed) ==> seed.len() == 32
            && chacha20poly1305_open(spec_passphrase_key(passphrase, salt), nonce, ciphertext) == Some(seed),
        version == 1 ==> (chacha20poly1305_open(spec_passphrase_key(passphrase, salt), nonce, ciphertext) matches Some(seed)
            ==> (seed.len() == 32 ==> spec_open_record(version, nonce, ciphertext, salt, passphrase) == Some(seed))),
{
}

/// The current time in RFC 3339 form (`chrono::Utc::now().to_rfc3339()`).
/// Nothing is stated of it: it is the clock's.
#[verifier::external_body]
fn now_rfc3339() -> String {
    chrono::Utc::now().to_rfc3339()
}

impl FileKeyStore {
    /// The path of the key file.
    pub closed spec fn spec_path(&self) -> Seq<char> {
        self.path@
    }

    /// Create a new file-based key store at the given path.
    pub fn new(path: String) -> (ks: Self)
        ensures
            ks.spec_path() == path@,
    {
        FileKeyStore { path }
    }

    /// The path of the key file.
    pub fn path(&self) -> (p: &String)
        ensures
            p@ == self.spec_path(),
    {
        &self.path
    }

    /// Derive an encryption key from a passphrase and salt using HKDF.
    pub fn derive_key(passphrase: &str, salt: &[u8; 32]) -> (key: [u8; 32])
        ensures
            key@ == spec_passphrase_key(passphrase.spec_bytes(), salt@),
    {
        let info = KEYSTORE_INFO.as_bytes();
        match hkdf_sha256_expand(Some(salt.as_slice()), passphrase.as_bytes(), info, 32) {
            Ok(okm) => {
                let mut key = [0u8; 32];
                let mut i: usize = 0;
                while i < 32
                    invariant
                        i <= 32,
                        okm@.len() == 32,
                        key@.len() == 32,
                        forall|j: int| 0 <= j < i ==> key@[j] == okm@[j],
                    decreases 32 - i,
                {
                    key[i] = okm[i];
                    i = i + 1;
                }
                assert(key@ =~= okm@);
                key
            },
            Err(_) => {
                proof {
                    assert(false);
                }
                [0u8; 32]
            },
        }
    }

    /// Build the stored record of `keypair` under `passphrase` with the given
    /// salt, nonce and timestamp: the seed encrypted under the derived key.
    pub fn seal_keypair_with(keypair: &Keypair, passphrase: &str, salt: [u8; 32], nonce: [u8; 12], created_at: String) -> (rec: EncryptedKey)
        ensures
            rec.version == FORMAT_VERSION,
            rec.nonce == nonce,
            rec.salt == salt,
            rec.created_at == created_at,
            rec.ciphertext@ == chacha20poly1305_seal(spec_passphrase_key(passphrase.spec_bytes(), salt@), nonce@, keypair.spec_seed()),
    {
        let mut enc_key = Self::derive_key(passphrase, &salt);
        let seed = keypair.seed();
        proof {
            assert(seed@.len() == 32);
            assert(fits_cipher(seed@.len()));
        }
        let ciphertext = match chacha_seal(&enc_key, &nonce, seed.as_slice()) {
            Ok(c) => c,
            Err(_) => {
                proof {
                    assert(false);
                }
                Vec::new()
            },
        };
        zeroize_key(&mut enc_key);
        EncryptedKey { version: FORMAT_VERSION, nonce, ciphertext, salt, created_at }
    }

    /// Build the stored record of `keypair` under `passphrase` with a fresh
    /// random salt and nonce, stamped with the current time.
    pub fn seal_keypair(&self, keypair: &Keypair, passphrase: &str) -> (rec: EncryptedKey)
        ensures
            rec.version == FORMAT_VERSION,
            rec.ciphertext@ == chacha20poly1305_seal(spec_passphrase_key(passphrase.spec_bytes(), rec.salt@), rec.nonce@, keypair.spec_seed()),
    {
        let salt = random_32();
        let nonce = random_12();
        Self::seal_keypair_with(keypair, passphrase, salt, nonce, now_rfc3339())
    }

    /// Open a stored record with a passphrase and rebuild the keypair.
    ///
    /// Fails with a keystore error on an unknown format version, on a wrong
    /// passphrase or corrupted record, and on a plaintext that is not 32
    /// bytes. A record sealed from a keypair opens, under the same
    /// passphrase, to that keypair.
    pub fn open_record(record: &EncryptedKey, passphrase: &str) -> (res: Result<Keypair, OmniMeshError>)
        ensures
            match res {
                Ok(kp) => spec_open_record(record.version, record.nonce@, record.ciphertext@, record.salt@, passphrase.spec_bytes()) == Some(kp.spec_seed()),
                Err(e) => spec_open_record(record.version, record.nonce@, record.ciphertext@, record.salt@, passphrase.spec_bytes()) is None && e is KeyStore,
            },
            record.version == FORMAT_VERSION ==> (forall|seed: Seq<u8>| seed.len() == 32 && #[trigger] chacha20poly1305_seal(spec_passphrase_key(passphrase.spec_bytes(), record.salt@), record.nonce@, seed) == record.ciphertext@
                ==> (res matches Ok(kp) && kp.spec_seed() == seed)),
    {
        if record.version != FORMAT_VERSION {
            let mut msg = "unsupported key format version: ".to_owned();
            let n = decimal_string(record.version as u64);
            msg.append(n.as_str());
            return Err(OmniMeshError::KeyStore(msg));
        }
        let mut enc_key = Self::derive_key(passphrase, &record.salt);
        let opened = chacha_open(&enc_key, record.nonce.as_slice(), record.ciphertext.as_slice());
        zeroize_key(&mut enc_key);
        let seed_bytes = match opened {
            Ok(p) => p,
            Err(_) => {
                return Err(OmniMeshError::KeyStore("decryption failed — wrong passphrase or corrupted file".to_owned()));
            },
        };
        if seed_bytes.len() != 32 {
            let mut msg = "invalid seed length: expected 32, got ".to_owned();
            let n = decimal_string(seed_bytes.len() as u64);
            msg.append(n.as_str());
            return Err(OmniMeshError::KeyStore(msg));
        }
        let mut seed = [0u8; 32];
        let mut i: usize = 0;
        while i < 32
            invariant
                i <= 32,
                seed_bytes@.len() == 32,
                seed@.len() == 32,
                forall|j: int| 0 <= j < i ==> seed@[j] == seed_bytes@[j],
            decreases 32 - i,
        {
            seed[i] = seed_bytes[i];
            i = i + 1;
        }
        assert(seed@ =~= seed_bytes@);
        Ok(Keypair::from_seed(&seed))
    }
}

} // verus!
