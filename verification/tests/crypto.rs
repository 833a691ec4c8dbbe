use omnimesh::aead::{decrypt, encrypt, encrypt_with_nonce, NONCE_SIZE, TAG_SIZE};
use omnimesh::channel::{SecureChannel, REKEY_THRESHOLD};
use omnimesh::error::OmniMeshError;
use omnimesh::kdf::{derive_key, derive_key_256, derive_key_pair, domain, ratchet_key};
use omnimesh::noise::{NoiseHandshake, NoiseTransport, Role};

fn test_key() -> [u8; 32] {
    let mut key = [0u8; 32];
    rand::RngCore::fill_bytes(&mut rand::thread_rng(), &mut key);
    key
}

#[test]
fn test_encrypt_decrypt_roundtrip() {
    let key = test_key();
    let plaintext = b"hello omnimesh crypto";

    let encrypted = encrypt(&key, plaintext).unwrap();
    let decrypted = decrypt(&key, &encrypted).unwrap();

    assert_eq!(decrypted, plaintext);
}

#[test]
fn test_different_keys_fail() {
    let key1 = test_key();
    let key2 = test_key();
    let plaintext = b"secret data";

    let encrypted = encrypt(&key1, plaintext).unwrap();
    let result = decrypt(&key2, &encrypted);

    assert!(result.is_err());
}

#[test]
fn test_tampered_ciphertext_fails() {
    let key = test_key();
    let plaintext = b"integrity check";

    let mut encrypted = encrypt(&key, plaintext).unwrap();
    let last = encrypted.len() - 1;
    encrypted[last] ^= 0xFF;

    assert!(decrypt(&key, &encrypted).is_err());
}

#[test]
fn test_empty_plaintext() {
    let key = test_key();
    let encrypted = encrypt(&key, b"").unwrap();
    let decrypted = decrypt(&key, &encrypted).unwrap();
    assert!(decrypted.is_empty());
}

#[test]
fn test_short_ciphertext_rejected() {
    let key = test_key();
    let result = decrypt(&key, &[0u8; 10]);
    assert!(result.is_err());
    match result {
        Err(e) => assert_eq!(e.to_string(), "crypto error: ciphertext too short: 10 bytes (minimum 28)"),
        Ok(_) => panic!("short input accepted"),
    }
}

#[test]
fn test_explicit_nonce_deterministic() {
    let key = test_key();
    let nonce = [42u8; NONCE_SIZE];
    let plaintext = b"deterministic";

    let enc1 = encrypt_with_nonce(&key, &nonce, plaintext).unwrap();
    let enc2 = encrypt_with_nonce(&key, &nonce, plaintext).unwrap();

    assert_eq!(enc1, enc2);
    assert_eq!(&enc1[..NONCE_SIZE], &nonce[..]);
}

#[test]
fn test_output_size() {
    let key = test_key();
    let plaintext = b"size check";
    let encrypted = encrypt(&key, plaintext).unwrap();

    assert_eq!(encrypted.len(), NONCE_SIZE + plaintext.len() + TAG_SIZE);
}

#[test]
fn test_derive_key_deterministic() {
    let ikm = b"input keying material";
    let salt = b"some salt";
    let info = domain::TRANSPORT.as_bytes();

    let key1 = derive_key(ikm, Some(salt), info, 32).unwrap();
    let key2 = derive_key(ikm, Some(salt), info, 32).unwrap();

    assert_eq!(key1, key2);
    assert_eq!(key1.len(), 32);
}

#[test]
fn test_derive_key_rfc5869_vector() {
    // RFC 5869, appendix A.3 (zero-length salt and info).
    let ikm = [0x0bu8; 22];
    let okm = derive_key(&ikm, None, b"", 42).unwrap();
    assert_eq!(
        hex::encode(okm),
        "8da4e775a563c18f715f802a063c5a31b8a11f5c5ee1879ec3454e5f3c738d2d9d201395faa4b61a96c8"
    );
}

#[test]
fn test_different_domains_different_keys() {
    let ikm = b"same input";

    let key1 = derive_key_256(ikm, None, domain::TRANSPORT.as_bytes()).unwrap();
    let key2 = derive_key_256(ikm, None, domain::KEYSTORE.as_bytes()).unwrap();

    assert_ne!(key1, key2);
}

#[test]
fn test_different_salts_different_keys() {
    let ikm = b"same input";
    let info = domain::TRANSPORT.as_bytes();

    let key1 = derive_key_256(ikm, Some(b"salt-a"), info).unwrap();
    let key2 = derive_key_256(ikm, Some(b"salt-b"), info).unwrap();

    assert_ne!(key1, key2);
}

#[test]
fn test_derive_key_pair() {
    let ikm = b"key exchange result";
    let (enc, auth) = derive_key_pair(ikm, None, domain::TRANSPORT.as_bytes()).unwrap();

    assert_ne!(enc, auth);
    assert_eq!(enc.len(), 32);
    assert_eq!(auth.len(), 32);
    let full = derive_key(ikm, None, domain::TRANSPORT.as_bytes(), 64).unwrap();
    assert_eq!(&full[..32], &enc[..]);
    assert_eq!(&full[32..], &auth[..]);
}

#[test]
fn test_ratchet_key_produces_different_key() {
    let key = [42u8; 32];
    let next = ratchet_key(&key).unwrap();
    assert_ne!(key, next);
}

#[test]
fn test_ratchet_is_deterministic() {
    let key = [42u8; 32];
    let next1 = ratchet_key(&key).unwrap();
    let next2 = ratchet_key(&key).unwrap();
    assert_eq!(next1, next2);
}

#[test]
fn test_ratchet_chain_is_one_way() {
    let key0 = [1u8; 32];
    let key1 = ratchet_key(&key0).unwrap();
    let key2 = ratchet_key(&key1).unwrap();

    assert_ne!(key0, key1);
    assert_ne!(key1, key2);
    assert_ne!(key0, key2);
}

#[test]
fn test_zero_length_rejected() {
    assert!(derive_key(b"ikm", None, b"info", 0).is_err());
}

#[test]
fn test_excessive_length_rejected() {
    assert!(derive_key(b"ikm", None, b"info", 10_000).is_err());
    assert!(matches!(derive_key(b"ikm", None, b"info", 8161), Err(OmniMeshError::KeyDerivation(_))));
    assert_eq!(derive_key(b"ikm", None, b"info", 8160).unwrap().len(), 8160);
}

#[test]
fn test_variable_output_lengths() {
    for len in [16, 32, 48, 64, 128] {
        let key = derive_key(b"ikm", None, b"info", len).unwrap();
        assert_eq!(key.len(), len);
    }
}

fn create_channel_pair() -> (SecureChannel, SecureChannel) {
    let secret = [42u8; 32];
    let alice = SecureChannel::new(&secret, true).unwrap();
    let bob = SecureChannel::new(&secret, false).unwrap();
    (alice, bob)
}

#[test]
fn test_channel_roundtrip() {
    let (mut alice, mut bob) = create_channel_pair();
    let plaintext = b"hello bob";

    let ct = alice.encrypt(plaintext).unwrap();
    let pt = bob.decrypt(&ct).unwrap();

    assert_eq!(pt, plaintext);
}

#[test]
fn test_channel_bidirectional() {
    let (mut alice, mut bob) = create_channel_pair();

    let ct1 = alice.encrypt(b"from alice").unwrap();
    let pt1 = bob.decrypt(&ct1).unwrap();
    assert_eq!(pt1, b"from alice");

    let ct2 = bob.encrypt(b"from bob").unwrap();
    let pt2 = alice.decrypt(&ct2).unwrap();
    assert_eq!(pt2, b"from bob");
}

#[test]
fn test_channel_ratcheting() {
    let (mut alice, mut bob) = create_channel_pair();

    for i in 0..5 {
        let msg = format!("message {}", i);
        let ct = alice.encrypt(msg.as_bytes()).unwrap();
        let pt = bob.decrypt(&ct).unwrap();
        assert_eq!(pt, msg.as_bytes());
    }

    assert_eq!(alice.send_count(), 5);
    assert_eq!(bob.recv_count(), 5);
}

#[test]
fn test_channel_replay_fails() {
    let (mut alice, mut bob) = create_channel_pair();

    let ct = alice.encrypt(b"first message").unwrap();
    let _pt = bob.decrypt(&ct).unwrap();

    assert!(bob.decrypt(&ct).is_err());
}

#[test]
fn test_channel_wrong_direction_fails() {
    let (mut alice, mut _bob) = create_channel_pair();

    let ct = alice.encrypt(b"from alice").unwrap();
    assert!(alice.decrypt(&ct).is_err());
}

#[test]
fn test_channel_counters() {
    let (mut alice, mut bob) = create_channel_pair();

    assert_eq!(alice.send_count(), 0);
    assert_eq!(alice.messages_remaining(), REKEY_THRESHOLD);

    let ct = alice.encrypt(b"test").unwrap();
    bob.decrypt(&ct).unwrap();

    assert_eq!(alice.send_count(), 1);
    assert_eq!(bob.recv_count(), 1);
    assert_eq!(alice.messages_remaining(), REKEY_THRESHOLD - 1);
}

#[test]
fn test_channel_failed_decrypt_keeps_state() {
    let (mut alice, mut bob) = create_channel_pair();
    let ct = alice.encrypt(b"one").unwrap();
    assert!(bob.decrypt(&[0u8; 40]).is_err());
    assert_eq!(bob.recv_count(), 0);
    assert_eq!(bob.decrypt(&ct).unwrap(), b"one");
}

#[test]
fn test_channel_debug_redacts_keys() {
    let (alice, _bob) = create_channel_pair();
    let debug = alice.debug_string();
    assert!(debug.contains("[REDACTED]"));
    assert_eq!(
        debug,
        "SecureChannel { send_counter: 0, recv_counter: 0, messages_remaining: 1000000, keys: \"[REDACTED]\" }"
    );
}

fn do_handshake() -> (NoiseTransport, NoiseTransport) {
    let mut initiator = NoiseHandshake::new(Role::Initiator).unwrap();
    let mut responder = NoiseHandshake::new(Role::Responder).unwrap();

    let msg1 = initiator.write_message(b"").unwrap();
    responder.read_message(&msg1).unwrap();

    let msg2 = responder.write_message(b"").unwrap();
    initiator.read_message(&msg2).unwrap();

    let msg3 = initiator.write_message(b"").unwrap();
    responder.read_message(&msg3).unwrap();

    assert!(initiator.is_finished());
    assert!(responder.is_finished());

    let i_transport = initiator.into_transport().unwrap();
    let r_transport = responder.into_transport().unwrap();

    (i_transport, r_transport)
}

#[test]
fn test_noise_handshake_completes() {
    let (i, r) = do_handshake();
    assert!(i.remote_static_key().is_some());
    assert!(r.remote_static_key().is_some());
}

#[test]
fn test_noise_encrypt_decrypt() {
    let (mut i, mut r) = do_handshake();

    let plaintext = b"hello from initiator";
    let ciphertext = i.encrypt(plaintext).unwrap();
    assert_eq!(ciphertext.len(), plaintext.len() + 16);
    let decrypted = r.decrypt(&ciphertext).unwrap();
    assert_eq!(decrypted, plaintext);

    let plaintext2 = b"hello from responder";
    let ciphertext2 = r.encrypt(plaintext2).unwrap();
    let decrypted2 = i.decrypt(&ciphertext2).unwrap();
    assert_eq!(decrypted2, plaintext2);
}

#[test]
fn test_noise_bidirectional_multiple_messages() {
    let (mut i, mut r) = do_handshake();

    for n in 0..10 {
        let msg = format!("message {}", n);
        let ct = i.encrypt(msg.as_bytes()).unwrap();
        let pt = r.decrypt(&ct).unwrap();
        assert_eq!(pt, msg.as_bytes());
    }
}

#[test]
fn test_noise_tampered_ciphertext_fails() {
    let (mut i, mut r) = do_handshake();

    let mut ct = i.encrypt(b"sensitive data").unwrap();
    ct[0] ^= 0xFF;

    assert!(r.decrypt(&ct).is_err());
}

#[test]
fn test_into_transport_before_complete_fails() {
    let handshake = NoiseHandshake::new(Role::Initiator).unwrap();
    assert!(!handshake.is_finished());
    assert!(handshake.into_transport().is_err());
}

#[test]
fn test_with_keypair() {
    let private_key = [42u8; 32];

    let mut init = NoiseHandshake::with_keypair(Role::Initiator, &private_key).unwrap();
    let mut resp = NoiseHandshake::new(Role::Responder).unwrap();

    let msg1 = init.write_message(b"").unwrap();
    resp.read_message(&msg1).unwrap();
    let msg2 = resp.write_message(b"").unwrap();
    init.read_message(&msg2).unwrap();
    let msg3 = init.write_message(b"").unwrap();
    resp.read_message(&msg3).unwrap();

    assert!(init.is_finished());
    assert!(resp.is_finished());
    assert_eq!(init.role(), Role::Initiator);
}

#[test]
fn test_handshake_message_lengths() {
    let mut init = NoiseHandshake::new(Role::Initiator).unwrap();
    let mut resp = NoiseHandshake::new(Role::Responder).unwrap();
    let msg = init.write_message(b"hello").unwrap();
    assert!(msg.len() >= 5);
    let payload = resp.read_message(&msg).unwrap();
    assert_eq!(payload, b"hello".to_vec());
    assert!(payload.len() <= msg.len());
}

#[test]
fn test_key_pair_first_half_is_key_256() {
    let ikm = b"shared";
    let (enc, _) = derive_key_pair(ikm, Some(b"salt"), b"info").unwrap();
    assert_eq!(enc, derive_key_256(ikm, Some(b"salt"), b"info").unwrap());
}

#[test]
fn test_noise_handshake_payloads_delivered() {
    let mut initiator = NoiseHandshake::new(Role::Initiator).unwrap();
    let mut responder = NoiseHandshake::new(Role::Responder).unwrap();
    let msg1 = initiator.write_message(b"first").unwrap();
    assert_eq!(msg1.len(), 32 + 5);
    assert_eq!(responder.read_message(&msg1).unwrap(), b"first");
    let msg2 = responder.write_message(b"second").unwrap();
    assert_eq!(msg2.len(), 96 + 6);
    assert_eq!(initiator.read_message(&msg2).unwrap(), b"second");
    let msg3 = initiator.write_message(b"third").unwrap();
    assert_eq!(msg3.len(), 64 + 5);
    assert_eq!(responder.read_message(&msg3).unwrap(), b"third");
}

#[test]
fn test_noise_decrypt_needs_matching_nonce() {
    let (mut i, mut r) = do_handshake();
    let first = i.encrypt(b"one").unwrap();
    let second = i.encrypt(b"two").unwrap();
    // Out of order: the second message does not open under the first nonce.
    assert!(r.decrypt(&second).is_err());
    assert_eq!(r.decrypt(&first).unwrap(), b"one");
    assert_eq!(r.decrypt(&second).unwrap(), b"two");
    // Too short for a tag.
    assert!(r.decrypt(&[0u8; 15]).is_err());
    // A message of the initiator does not open on its own receive side.
    let third = i.encrypt(b"three").unwrap();
    assert!(i.decrypt(&third).is_err());
}
