use omnimesh::key_conv::{bootstrap_node, bootstrap_node_of, BootstrapNode, from_libp2p_peer_id, libp2p_keypair_bytes, peer_id_from_multihash, to_libp2p_keypair, to_libp2p_peer_id, Libp2pPeerId};
use omnimesh::keypair::{Keypair, PublicKey, Signature};
use omnimesh::keystore::{FileKeyStore, FORMAT_VERSION};
use omnimesh::peer_id::{peer_id_from_public_key_bytes, PeerIdExt};
use omnimesh::types::PeerId;
use omnimesh::virtual_ip::VirtualIp;
use omnimesh::error::OmniMeshError;

#[test]
fn test_keypair_generation() {
    let kp = Keypair::generate();
    let pk = kp.public_key();
    assert_eq!(pk.as_bytes().len(), 32);
}

#[test]
fn test_sign_and_verify() {
    let kp = Keypair::generate();
    let message = b"hello omnimesh";
    let sig = kp.sign(message);

    assert!(kp.verify(message, &sig).is_ok());
    assert!(kp.verify(b"wrong message", &sig).is_err());
}

#[test]
fn test_cross_keypair_verify_fails() {
    let kp1 = Keypair::generate();
    let kp2 = Keypair::generate();
    let message = b"test";
    let sig = kp1.sign(message);

    assert!(kp2.public_key().verify(message, &sig).is_err());
}

#[test]
fn test_keypair_from_seed_deterministic() {
    let seed = [42u8; 32];
    let kp1 = Keypair::from_seed(&seed);
    let kp2 = Keypair::from_seed(&seed);
    assert_eq!(kp1.public_key(), kp2.public_key());

    let message = b"deterministic test";
    let sig1 = kp1.sign(message);
    let sig2 = kp2.sign(message);
    assert_eq!(sig1, sig2);
}

#[test]
fn test_rfc8032_vector() {
    // RFC 8032, section 7.1, test 1 (empty message).
    let seed_hex = "9d61b19deffd5a60ba844af492ec2cc44449c5697b326919703bac031cae7f60";
    let mut seed = [0u8; 32];
    seed.copy_from_slice(&hex::decode(seed_hex).unwrap());
    let kp = Keypair::from_seed(&seed);
    assert_eq!(
        kp.public_key().to_hex(),
        "d75a980182b10ab7d54bfed3c964073a0ee172f3daa62325af021a68f707511a"
    );
    let sig = kp.sign(b"");
    assert_eq!(
        hex::encode(sig.as_bytes()),
        "e5564300c360ac729086e2cc806e828a84877f1eb8e5d974d873e065224901555fb8821590a33bacc61e39701cf9b46bd25bf5f0595bbe24655141438e7a100b"
    );
}

#[test]
fn test_invalid_signature_bytes_rejected() {
    let kp = Keypair::from_seed(&[7u8; 32]);
    let bad = Signature::from_bytes([0u8; 64]);
    assert!(matches!(kp.verify(b"m", &bad), Err(OmniMeshError::Identity(_))));
}

#[test]
fn test_keypair_debug_redacts_secret() {
    let kp = Keypair::generate();
    let debug = kp.debug_string();
    assert!(debug.contains("[REDACTED]"));
    assert!(!debug.contains(&hex::encode(kp.seed())));
}

#[test]
fn test_keypair_debug_lists_public_key_bytes() {
    let kp = Keypair::from_seed(&[7u8; 32]);
    let expected = format!(
        "Keypair {{ public_key: PublicKey {{ bytes: {:?} }}, secret: \"[REDACTED]\" }}",
        kp.public_key().as_bytes()
    );
    assert_eq!(kp.debug_string(), expected);
    assert!(kp.debug_string().starts_with("Keypair { public_key: PublicKey { bytes: ["));
}

#[test]
fn test_public_key_hex_roundtrip() {
    let kp = Keypair::generate();
    let pk = kp.public_key();
    let hex_str = pk.to_hex();
    assert_eq!(hex_str.len(), 64);
}

#[test]
fn test_peer_id_from_keypair() {
    let kp = Keypair::generate();
    let peer_id = kp.to_peer_id();
    assert_eq!(peer_id.as_bytes().len(), 32);
}

#[test]
fn test_peer_id_deterministic() {
    let seed = [99u8; 32];
    let kp1 = Keypair::from_seed(&seed);
    let kp2 = Keypair::from_seed(&seed);
    assert_eq!(kp1.to_peer_id(), kp2.to_peer_id());
}

#[test]
fn test_peer_id_different_keys_different_ids() {
    let kp1 = Keypair::generate();
    let kp2 = Keypair::generate();
    assert_ne!(kp1.to_peer_id(), kp2.to_peer_id());
}

#[test]
fn test_peer_id_from_public_key_matches() {
    let kp = Keypair::generate();
    let pk = kp.public_key();

    let id1 = pk.to_peer_id();
    let id2 = peer_id_from_public_key_bytes(pk.as_bytes());
    assert_eq!(id1, id2);
}

#[test]
fn test_peer_id_is_raw_key() {
    let kp = Keypair::generate();
    let pk = kp.public_key();
    let peer_id = pk.to_peer_id();

    assert_eq!(peer_id.as_bytes(), pk.as_bytes());
    assert_eq!(PublicKey::from_bytes(*pk.as_bytes()), pk);
}

#[test]
fn test_virtual_ip_from_peer_id() {
    let peer_id = PeerId::from_bytes([0xAA; 32]);
    let vip = VirtualIp::from_peer_id(&peer_id);
    let octets = vip.addr();

    assert_eq!(octets[0], 0xfd);
    assert_eq!(octets[1], 0x4f);
    assert_eq!(octets[2], 0x4d);
    assert_eq!(octets[3], 0x00);

    assert_eq!(octets[4], 0xAA);
    assert_eq!(octets[15], 0xAA);
}

#[test]
fn test_virtual_ip_deterministic() {
    let peer_id = PeerId::from_bytes([42u8; 32]);
    let vip1 = VirtualIp::from_peer_id(&peer_id);
    let vip2 = VirtualIp::from_peer_id(&peer_id);
    assert_eq!(vip1, vip2);
}

#[test]
fn test_virtual_ip_unique_per_peer() {
    let pid1 = PeerId::from_bytes([1u8; 32]);
    let pid2 = PeerId::from_bytes([2u8; 32]);
    let vip1 = VirtualIp::from_peer_id(&pid1);
    let vip2 = VirtualIp::from_peer_id(&pid2);
    assert_ne!(vip1, vip2);
}

#[test]
fn test_is_omnimesh_address() {
    let peer_id = PeerId::from_bytes([0xFF; 32]);
    let vip = VirtualIp::from_peer_id(&peer_id);
    assert!(VirtualIp::is_omnimesh_address(&vip.addr()));

    // 2001:db8::1
    let non_mesh: [u8; 16] = [0x20, 0x01, 0x0d, 0xb8, 0, 0, 0, 0, 0, 0, 0, 0, 0, 0, 0, 1];
    assert!(!VirtualIp::is_omnimesh_address(&non_mesh));
}

#[test]
fn test_different_salts_produce_different_keys() {
    let salt1 = [1u8; 32];
    let salt2 = [2u8; 32];
    let key1 = FileKeyStore::derive_key("same-pass", &salt1);
    let key2 = FileKeyStore::derive_key("same-pass", &salt2);
    assert_ne!(key1, key2);
}

#[test]
fn test_seal_and_open_record() {
    let kp = Keypair::generate();
    let store = FileKeyStore::new("/tmp/unused.key".to_string());
    let record = store.seal_keypair(&kp, "test-passphrase-123");
    assert_eq!(record.version, FORMAT_VERSION);
    assert_eq!(record.ciphertext.len(), 48);
    let loaded = FileKeyStore::open_record(&record, "test-passphrase-123").unwrap();
    assert_eq!(loaded.to_peer_id(), kp.to_peer_id());
    assert_eq!(loaded.seed(), kp.seed());
}

#[test]
fn test_open_record_wrong_passphrase_fails() {
    let kp = Keypair::generate();
    let record = FileKeyStore::seal_keypair_with(&kp, "correct-passphrase", [3u8; 32], [4u8; 12], "now".to_string());
    assert!(matches!(FileKeyStore::open_record(&record, "wrong-passphrase"), Err(OmniMeshError::KeyStore(_))));
}

#[test]
fn test_open_record_bad_version_fails() {
    let kp = Keypair::generate();
    let mut record = FileKeyStore::seal_keypair_with(&kp, "pass", [3u8; 32], [4u8; 12], "now".to_string());
    record.version = 2;
    match FileKeyStore::open_record(&record, "pass") {
        Err(e) => assert_eq!(e.to_string(), "keystore error: unsupported key format version: 2"),
        Ok(_) => panic!("unknown version accepted"),
    }
}

fn as_libp2p(m: &Libp2pPeerId) -> libp2p::PeerId {
    libp2p::PeerId::from_multihash(libp2p::multihash::Multihash::wrap(m.code, &m.digest).unwrap()).unwrap()
}

#[test]
fn test_key_conversions() {
    let kp = Keypair::generate();
    let peer_id = kp.to_peer_id();

    // Keypair conversion
    let libp2p_kp = to_libp2p_keypair(&kp).unwrap().into_keypair();
    let libp2p_peer_id_from_kp = libp2p::PeerId::from(libp2p_kp.public());

    // PeerId conversion
    let libp2p_peer_id = to_libp2p_peer_id(&peer_id).unwrap();
    assert_eq!(as_libp2p(&libp2p_peer_id), libp2p_peer_id_from_kp);

    // Roundtrip conversion
    let recovered = from_libp2p_peer_id(&libp2p_peer_id).unwrap();
    assert_eq!(recovered, peer_id);
}

#[test]
fn test_libp2p_peer_id_is_identity_multihash_of_protobuf_key() {
    let kp = Keypair::from_seed(&[7u8; 32]);
    let peer_id = kp.to_peer_id();
    let bytes = as_libp2p(&to_libp2p_peer_id(&peer_id).unwrap()).to_bytes();
    let mut expected = vec![0x00, 0x24, 0x08, 0x01, 0x12, 0x20];
    expected.extend_from_slice(peer_id.as_bytes());
    assert_eq!(bytes, expected);
}

#[test]
fn test_peer_id_from_multihash_cases() {
    let kp = Keypair::from_seed(&[9u8; 32]);
    let peer_id = kp.to_peer_id();
    let mut digest = vec![0x08, 0x01, 0x12, 0x20];
    digest.extend_from_slice(peer_id.as_bytes());

    assert_eq!(peer_id_from_multihash(0, &digest).unwrap(), peer_id);

    match peer_id_from_multihash(0x12, &digest) {
        Err(OmniMeshError::Identity(msg)) => {
            assert_eq!(msg, "cannot extract public key from non-identity libp2p PeerId (code: 18)")
        }
        other => panic!("expected an identity error, got {:?}", other),
    }

    match peer_id_from_multihash(0, &[0xff, 0xff, 0xff]) {
        Err(OmniMeshError::Identity(msg)) => assert!(msg.starts_with("failed to decode libp2p public key protobuf: ")),
        other => panic!("expected an identity error, got {:?}", other),
    }
}

#[test]
fn test_to_libp2p_peer_id_rejects_non_point() {
    // The y-coordinate 2 is not on the Ed25519 curve.
    let mut bytes = [0u8; 32];
    bytes[0] = 2;
    match to_libp2p_peer_id(&PeerId::from_bytes(bytes)) {
        Err(OmniMeshError::Identity(msg)) => assert!(msg.starts_with("invalid ed25519 public key bytes: ")),
        Ok(_) => panic!("a non-point must be rejected"),
        Err(e) => panic!("expected an identity error, got {:?}", e),
    }
}

#[test]
fn test_signature_from_slice() {
    let kp = Keypair::from_seed(&[3u8; 32]);
    let sig = kp.sign(b"message");
    let back = Signature::from_slice(sig.as_bytes()).unwrap();
    assert_eq!(back, sig);
    assert_eq!(
        Signature::from_slice(&[0u8; 63]).unwrap_err(),
        "expected 64 bytes for Signature, got 63"
    );
}

#[test]
fn test_libp2p_keypair_bytes_are_seed_then_public_key() {
    let kp = Keypair::from_seed(&[21u8; 32]);
    let raw = libp2p_keypair_bytes(&kp);
    assert_eq!(&raw[..32], &[21u8; 32]);
    assert_eq!(&raw[32..], kp.public_key().as_bytes());
    let mut copy = raw;
    let ed = libp2p::identity::ed25519::Keypair::try_from_bytes(&mut copy).unwrap();
    assert_eq!(ed.public().to_bytes(), *kp.public_key().as_bytes());
}

#[test]
fn test_public_key_verify_error_texts() {
    let kp = Keypair::from_seed(&[4u8; 32]);
    let sig = kp.sign(b"m");
    match kp.public_key().verify(b"other", &sig) {
        Err(OmniMeshError::Identity(m)) => assert!(m.starts_with("signature verification failed: ")),
        other => panic!("expected an identity error, got {:?}", other),
    }
    let mut bytes = [0u8; 32];
    bytes[0] = 2; // y = 2 is not on the curve
    match PublicKey::from_bytes(bytes).verify(b"m", &sig) {
        Err(OmniMeshError::Identity(m)) => assert!(m.starts_with("invalid public key: ")),
        other => panic!("expected an identity error, got {:?}", other),
    }
}

#[test]
fn test_bootstrap_node_classification() {
    let kp = Keypair::from_seed(&[9u8; 32]);
    let m = to_libp2p_peer_id(&kp.to_peer_id()).unwrap();
    let text = format!("/ip4/10.0.0.1/tcp/4001/p2p/{}", as_libp2p(&m));
    match bootstrap_node(&text) {
        BootstrapNode::Seed(p) => {
            assert_eq!(p.code, m.code);
            assert_eq!(p.digest, m.digest);
            assert_eq!(from_libp2p_peer_id(&p).unwrap(), kp.to_peer_id());
        }
        other => panic!("unexpected {:?}", other),
    }
    assert!(matches!(bootstrap_node("/ip4/10.0.0.1/tcp/4001"), BootstrapNode::MissingPeerId));
    assert!(matches!(bootstrap_node("not a multiaddr"), BootstrapNode::Unparsable));
    assert!(matches!(bootstrap_node_of(None), BootstrapNode::Unparsable));
    assert!(matches!(bootstrap_node_of(Some(None)), BootstrapNode::MissingPeerId));
    match bootstrap_node_of(Some(Some((0, vec![1, 2, 3])))) {
        BootstrapNode::Seed(p) => assert_eq!((p.code, p.digest), (0, vec![1, 2, 3])),
        other => panic!("unexpected {:?}", other),
    }
}
