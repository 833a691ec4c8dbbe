use omnimesh::config::{default_node_name, Config, Platform};
use omnimesh::error::OmniMeshError;
use omnimesh::net::{IpAddress, SocketAddress};
use omnimesh::text::decimal_string;
use omnimesh::types::{ConnectionState, PeerId, ProtocolVersion};

#[test]
fn test_retryable_errors() {
    assert!(OmniMeshError::Connection("refused".into()).is_retryable());
    assert!(OmniMeshError::Timeout(5000).is_retryable());
    assert!(!OmniMeshError::Crypto("bad key".into()).is_retryable());
    assert!(!OmniMeshError::Config("missing".into()).is_retryable());
}

#[test]
fn test_security_errors() {
    assert!(OmniMeshError::Crypto("invalid".into()).is_security_error());
    assert!(OmniMeshError::Handshake("failed".into()).is_security_error());
    assert!(!OmniMeshError::Connection("reset".into()).is_security_error());
}

#[test]
fn test_error_display() {
    let err = OmniMeshError::Timeout(3000);
    assert_eq!(err.to_string(), "timeout after 3000ms");

    let err = OmniMeshError::ProtocolMismatch {
        local: "1.0".into(),
        remote: "2.0".into(),
    };
    assert_eq!(
        err.to_string(),
        "protocol version mismatch: local=1.0, remote=2.0"
    );
}

#[test]
fn test_error_display_other_variants() {
    assert_eq!(OmniMeshError::Io("disk".into()).to_string(), "I/O error: disk");
    assert_eq!(OmniMeshError::NoRoute("x".into()).to_string(), "no route to peer: x");
    assert_eq!(OmniMeshError::Timeout(0).to_string(), "timeout after 0ms");
}

#[test]
fn test_no_error_is_both_retryable_and_security() {
    let all = vec![
        OmniMeshError::Connection("a".into()),
        OmniMeshError::Timeout(1),
        OmniMeshError::Transport("a".into()),
        OmniMeshError::Discovery("a".into()),
        OmniMeshError::Io("a".into()),
        OmniMeshError::Crypto("a".into()),
        OmniMeshError::Handshake("a".into()),
        OmniMeshError::KeyStore("a".into()),
        OmniMeshError::InvalidPacket("a".into()),
        OmniMeshError::Config("a".into()),
        OmniMeshError::NoRoute("a".into()),
    ];
    for e in &all {
        assert!(!(e.is_retryable() && e.is_security_error()));
    }
}

#[test]
fn test_decimal_string_values() {
    assert_eq!(decimal_string(0), "0");
    assert_eq!(decimal_string(7), "7");
    assert_eq!(decimal_string(10), "10");
    assert_eq!(decimal_string(u64::MAX), "18446744073709551615");
}

#[test]
fn test_protocol_version_compatibility() {
    let v1 = ProtocolVersion {
        major: 1,
        minor: 0,
        patch: 0,
    };
    let v1_1 = ProtocolVersion {
        major: 1,
        minor: 1,
        patch: 0,
    };
    let v2 = ProtocolVersion {
        major: 2,
        minor: 0,
        patch: 0,
    };

    assert!(v1.is_compatible_with(&v1_1));
    assert!(!v1.is_compatible_with(&v2));
}

#[test]
fn test_compatibility_symmetric_and_reflexive() {
    let a = ProtocolVersion { major: 3, minor: 4, patch: 5 };
    let b = ProtocolVersion { major: 3, minor: 0, patch: 9 };
    assert!(a.is_compatible_with(&a));
    assert_eq!(a.is_compatible_with(&b), b.is_compatible_with(&a));
}

#[test]
fn test_protocol_version_display() {
    assert_eq!(ProtocolVersion::current().to_string(), "0.1.0");
}

#[test]
fn test_peer_id_hex_roundtrip() {
    let bytes = [42u8; 32];
    let peer_id = PeerId::from_bytes(bytes);
    let hex = peer_id.to_hex();
    let recovered = PeerId::from_hex(&hex).unwrap();
    assert_eq!(peer_id, recovered);
}

#[test]
fn test_peer_id_from_hex_errors() {
    assert!(matches!(PeerId::from_hex("abc"), Err(OmniMeshError::Identity(_))));
    assert!(matches!(PeerId::from_hex("zz"), Err(OmniMeshError::Identity(_))));
    match PeerId::from_hex("abcd") {
        Err(e) => assert_eq!(e.to_string(), "identity error: PeerId must be 32 bytes, got 2"),
        Ok(_) => panic!("short id accepted"),
    }
    let upper = "AB".repeat(32);
    assert_eq!(PeerId::from_hex(&upper).unwrap(), PeerId::from_bytes([0xAB; 32]));
}

#[test]
fn test_peer_id_short() {
    let peer_id = PeerId::from_bytes([0xAB; 32]);
    assert_eq!(peer_id.short().len(), 8);
    assert_eq!(peer_id.short(), "abababab");
}

#[test]
fn test_peer_id_debug() {
    let peer_id = PeerId::from_bytes([0xFF; 32]);
    let debug = peer_id.debug_string();
    assert!(debug.starts_with("PeerId(ffffffff"));
}

#[test]
fn test_peer_id_base64() {
    let peer_id = PeerId::from_bytes([0u8; 32]);
    assert_eq!(peer_id.to_base64(), "AAAAAAAAAAAAAAAAAAAAAAAAAAAAAAAAAAAAAAAAAAA");
}

#[test]
fn test_connection_state_display() {
    assert_eq!(ConnectionState::Connected.to_string(), "connected");
    assert_eq!(ConnectionState::Disconnected.to_string(), "disconnected");
}

#[test]
fn test_default_config() {
    let config = Config::default_for(Platform::Unix, Some("/home/me"));
    assert_eq!(config.transport.listen_addr.port, 4433);
    assert_eq!(config.node.max_connections, 256);
    assert_eq!(config.telemetry.log_level, "info");
}

#[test]
fn test_default_paths() {
    let config = Config::default_for(Platform::Unix, Some("/home/me"));
    assert_eq!(config.node.data_dir, "/home/me/.local/share/omnimesh");
    assert_eq!(config.identity.key_path, "/home/me/.local/share/omnimesh/identity.key");
    assert_eq!(config.storage.db_path, "/home/me/.local/share/omnimesh/state.redb");
    let mac = Config::default_for(Platform::MacOs, Some("/Users/me/"));
    assert_eq!(mac.node.data_dir, "/Users/me/Library/Application Support/omnimesh");
    let win = Config::default_for(Platform::Windows, None);
    assert_eq!(win.node.data_dir, "./omnimesh");
    assert!(config.node.name.starts_with("omnimesh-"));
    assert_eq!(config.node.name.len(), 17);
}

#[test]
fn test_apply_overrides() {
    let mut config = Config::default_for(Platform::Unix, Some("/home/me"));
    let addr = SocketAddress { ip: IpAddress::V4([127, 0, 0, 1]), port: 5555 };
    config.apply_overrides(Some("test-node".to_string()), Some(addr), None, None);
    assert_eq!(config.node.name, "test-node");
    assert_eq!(config.transport.listen_addr, addr);
    assert_eq!(config.telemetry.log_level, "info");
    assert_eq!(config.node.data_dir, "/home/me/.local/share/omnimesh");
}

#[test]
fn test_peer_id_base64_url_alphabet() {
    let mut bytes = [0u8; 32];
    for i in 0..6 {
        bytes[i] = 250 + i as u8;
    }
    for i in 0..26 {
        bytes[6 + i] = i as u8;
    }
    assert_eq!(PeerId::from_bytes(bytes).to_base64(), "-vv8_f7_AAECAwQFBgcICQoLDA0ODxAREhMUFRYXGBk");
}

#[test]
fn test_default_node_name_form() {
    let name = default_node_name();
    assert_eq!(name.len(), 17);
    assert!(name.starts_with("omnimesh-"));
    assert!(name[9..].chars().all(|c| c.is_ascii_digit() || ('a'..='f').contains(&c)));
    let config = Config::default_for(Platform::Unix, None);
    assert!(config.node.name.starts_with("omnimesh-"));
}
