use omnimesh::session::{session_step, SessionAction, SessionEvent};
use omnimesh::cache::PeerAddressCache;
use omnimesh::connection::{connect_failure, no_addresses_error, ConnectionInfo, ConnectionPool};
use omnimesh::gossip::{next_hop_of, GossipState};
use omnimesh::handshake::{HandshakeAction, HandshakeDriver, HandshakePayload};
use omnimesh::net::{IpAddress, SocketAddress};
use omnimesh::keypair::Keypair;
use omnimesh::noise::{NoiseHandshake, Role};
use omnimesh::peer_id::PeerIdExt;
use omnimesh::retry::RetryState;
use omnimesh::types::{ConnectionState, PeerId, ProtocolVersion};
use omnimesh::wire::{classify, frame, round_trip_ms, FrameKind, WirePacket, PACKET_DATA, PACKET_PING};
use omnimesh::error::OmniMeshError;

fn make_info(id: u8) -> ConnectionInfo {
    ConnectionInfo {
        peer_id: PeerId::from_bytes([id; 32]),
        remote_addr: SocketAddress { ip: IpAddress::V4([127, 0, 0, 1]), port: 1000 + id as u16 },
        state: ConnectionState::Connected,
        connected_at: 0,
        bytes_sent: 0,
        bytes_received: 0,
    }
}

fn localhost(port: u16) -> SocketAddress {
    SocketAddress { ip: IpAddress::V4([127, 0, 0, 1]), port }
}

#[test]
fn test_insert_and_get() {
    let mut pool = ConnectionPool::new(10);
    let info = make_info(1);
    pool.insert(info).unwrap();

    assert_eq!(pool.len(), 1);
    assert!(pool.is_connected(&info.peer_id));
}

#[test]
fn test_remove() {
    let mut pool = ConnectionPool::new(10);
    let info = make_info(2);
    pool.insert(info).unwrap();
    pool.remove(&info.peer_id);
    assert!(pool.is_empty());
}

#[test]
fn test_capacity_limit() {
    let mut pool = ConnectionPool::new(2);
    pool.insert(make_info(1)).unwrap();
    pool.insert(make_info(2)).unwrap();
    assert!(pool.insert(make_info(3)).is_err());
    assert_eq!(pool.len(), 2);
}

#[test]
fn test_capacity_error_message() {
    let mut pool = ConnectionPool::new(0);
    match pool.insert(make_info(1)) {
        Err(e) => assert_eq!(e.to_string(), "connection error: connection pool full (0/0)"),
        Ok(_) => panic!("empty pool accepted a connection"),
    }
}

#[test]
fn test_connected_peers() {
    let mut pool = ConnectionPool::new(10);
    pool.insert(make_info(1)).unwrap();
    pool.insert(make_info(2)).unwrap();

    let peers = pool.connected_peers();
    assert_eq!(peers.len(), 2);
}

#[test]
fn test_update_state() {
    let mut pool = ConnectionPool::new(10);
    let info = make_info(5);
    pool.insert(info).unwrap();

    pool.update_state(&info.peer_id, ConnectionState::Disconnected);
    assert!(!pool.is_connected(&info.peer_id));
    assert!(pool.connected_peers().is_empty());
}

#[test]
fn test_bytes_tracking() {
    let mut pool = ConnectionPool::new(10);
    let info = make_info(3);
    pool.insert(info).unwrap();

    pool.record_bytes_sent(&info.peer_id, 100);
    pool.record_bytes_received(&info.peer_id, 200);

    let retrieved = pool.get(&info.peer_id).unwrap();
    assert_eq!(retrieved.bytes_sent, 100);
    assert_eq!(retrieved.bytes_received, 200);
}

#[test]
fn test_cache_expiration() {
    let mut cache = PeerAddressCache::new();
    let peer_id = PeerId::from_bytes([7; 32]);
    let addr = localhost(1234);
    let now = 50_000;

    cache.insert_with_ttl(peer_id, addr, 0, now);
    assert!(cache.lookup(&peer_id, now).is_empty());

    cache.insert_with_ttl(peer_id, addr, 10_000, now);
    assert_eq!(cache.lookup(&peer_id, now), vec![addr]);
}

#[test]
fn test_cache_deduplication() {
    let mut cache = PeerAddressCache::new();
    let peer_id = PeerId::from_bytes([9; 32]);
    let addr = localhost(1234);

    cache.insert(peer_id, addr, 0);
    cache.insert(peer_id, addr, 0);

    assert_eq!(cache.lookup(&peer_id, 0).len(), 1);
}

#[test]
fn test_cache_prune_and_all_peers() {
    let mut cache = PeerAddressCache::new();
    let p1 = PeerId::from_bytes([1; 32]);
    let p2 = PeerId::from_bytes([2; 32]);
    cache.insert_with_ttl(p1, localhost(1), 10, 100);
    cache.insert_many(p2, vec![localhost(2), localhost(3)], 100);
    assert_eq!(cache.all_peers(105).len(), 2);
    assert_eq!(cache.all_peers(200).len(), 1);
    cache.prune(200);
    assert!(cache.lookup(&p1, 0).is_empty());
    assert_eq!(cache.lookup(&p2, 200), vec![localhost(2), localhost(3)]);
    cache.remove(&p2);
    assert!(cache.all_peers(200).is_empty());
}

#[test]
fn test_router_process_gossip_sequence() {
    let bob = PeerId::from_bytes([2; 32]);
    let charlie = PeerId::from_bytes([3; 32]);
    let mut gossip = GossipState::new();

    assert!(gossip.accept(bob, charlie, 5));
    assert!(!gossip.accept(bob, charlie, 3));
    assert!(!gossip.accept(bob, charlie, 5));
    assert!(gossip.accept(bob, charlie, 6));
    assert!(gossip.accept(charlie, bob, 1));
}

#[test]
fn test_outgoing_sequences_start_at_one() {
    let mut gossip = GossipState::new();
    assert_eq!(gossip.take_sequence(), 1);
    assert_eq!(gossip.take_sequence(), 2);
}

#[test]
fn test_next_hop_of_route() {
    let a = PeerId::from_bytes([1; 32]);
    let b = PeerId::from_bytes([2; 32]);
    assert_eq!(next_hop_of(&vec![a, b]), Some(b));
    assert_eq!(next_hop_of(&vec![a]), None);
    assert_eq!(next_hop_of(&vec![]), None);
}

#[test]
fn test_wire_classification() {
    let data = frame(PACKET_DATA, vec![1, 2, 3]);
    assert_eq!(classify(&data).unwrap(), FrameKind::Data);
    let ping = frame(PACKET_PING, vec![]);
    assert_eq!(classify(&ping).unwrap(), FrameKind::Ping);
    let odd = frame(0x09, vec![]);
    assert_eq!(classify(&odd).unwrap(), FrameKind::Ignored);
    let bad = WirePacket { magic: *b"XXXX", version: [0, 1, 0], packet_type: PACKET_DATA, payload: vec![] };
    assert!(matches!(classify(&bad), Err(OmniMeshError::InvalidPacket(_))));
    assert_eq!(&data.magic, b"OMSH");
}

#[test]
fn test_round_trip_time() {
    assert_eq!(round_trip_ms(1_000, 1_250), Some(250));
    assert_eq!(round_trip_ms(1_000, 900), None);
}

fn montgomery_of(p: &PeerId) -> [u8; 32] {
    ed25519_dalek::VerifyingKey::from_bytes(p.as_bytes()).unwrap().to_montgomery().to_bytes()
}

#[test]
fn test_handshake_driver_sequence() {
    let local = Keypair::from_seed(&[1; 32]).to_peer_id();
    let remote = Keypair::from_seed(&[2; 32]).to_peer_id();

    let mut initiator = HandshakeDriver::new(Role::Initiator);
    assert_eq!(initiator.next_action(false), HandshakeAction::Send);
    initiator.message_sent();
    assert_eq!(initiator.next_action(false), HandshakeAction::Receive);
    let payload = HandshakeDriver::local_payload(remote);
    initiator.payload_received(&payload).unwrap();
    assert_eq!(initiator.next_action(false), HandshakeAction::Send);
    initiator.message_sent();
    assert_eq!(initiator.next_action(true), HandshakeAction::Done);
    assert_eq!(initiator.finish(Some(montgomery_of(&remote))).unwrap(), remote);
    // Without the authenticated static key, or with another peer's, no identity.
    assert!(initiator.finish(None).is_err());
    assert!(initiator.finish(Some(montgomery_of(&local))).is_err());

    let mut responder = HandshakeDriver::new(Role::Responder);
    assert_eq!(responder.next_action(false), HandshakeAction::Receive);
    assert!(responder.finish(Some(montgomery_of(&local))).is_err());
    responder.payload_received(&HandshakeDriver::local_payload(local)).unwrap();
    assert_eq!(responder.finish(Some(montgomery_of(&local))).unwrap(), local);
}

#[test]
fn test_handshake_binds_peer_id_to_static_key() {
    let alice = Keypair::from_seed(&[11; 32]);
    let bob = Keypair::from_seed(&[12; 32]);
    let mallory = Keypair::from_seed(&[13; 32]);
    let mut init = NoiseHandshake::with_keypair(Role::Initiator, &alice.noise_private_key()).unwrap();
    let mut resp = NoiseHandshake::with_keypair(Role::Responder, &bob.noise_private_key()).unwrap();
    let m1 = init.write_message(&[]).unwrap();
    resp.read_message(&m1).unwrap();
    let m2 = resp.write_message(&[]).unwrap();
    init.read_message(&m2).unwrap();
    let m3 = init.write_message(&[]).unwrap();
    resp.read_message(&m3).unwrap();
    let ti = init.into_transport().unwrap();
    let tr = resp.into_transport().unwrap();

    // Alice's driver learnt Bob's announced id: it matches Bob's Noise key.
    let mut d = HandshakeDriver::new(Role::Initiator);
    d.message_sent();
    d.payload_received(&HandshakeDriver::local_payload(bob.to_peer_id())).unwrap();
    assert_eq!(d.finish(ti.remote_static_key()).unwrap(), bob.to_peer_id());

    // Bob's side, told by the initiator that it is Mallory: refused.
    let mut d = HandshakeDriver::new(Role::Responder);
    d.payload_received(&HandshakeDriver::local_payload(mallory.to_peer_id())).unwrap();
    assert!(d.finish(tr.remote_static_key()).is_err());
    let mut d = HandshakeDriver::new(Role::Responder);
    d.payload_received(&HandshakeDriver::local_payload(alice.to_peer_id())).unwrap();
    assert_eq!(d.finish(tr.remote_static_key()).unwrap(), alice.to_peer_id());
}

#[test]
fn test_handshake_version_mismatch() {
    let mut d = HandshakeDriver::new(Role::Responder);
    let payload = HandshakePayload {
        version: ProtocolVersion { major: 2, minor: 0, patch: 0 },
        peer_id: PeerId::from_bytes([5; 32]),
    };
    match d.payload_received(&payload) {
        Err(e) => assert_eq!(e.to_string(), "protocol version mismatch: local=0.1.0, remote=2.0.0"),
        Ok(_) => panic!("incompatible version accepted"),
    }
    assert!(d.finish(None).is_err());
}

#[test]
fn test_retry_decisions() {
    let mut state = RetryState::new(2);
    assert!(state.on_failure(&OmniMeshError::Connection("refused".into())));
    assert!(state.on_failure(&OmniMeshError::Connection("refused".into())));
    assert!(!state.on_failure(&OmniMeshError::Connection("refused".into())));
    assert_eq!(state.attempts(), 2);

    let mut fresh = RetryState::new(5);
    assert!(!fresh.on_failure(&OmniMeshError::Crypto("bad key".into())));
    assert_eq!(fresh.attempts(), 0);

    let mut none = RetryState::new(0);
    assert!(!none.on_failure(&OmniMeshError::Timeout(10)));
}

#[test]
fn test_connect_errors() {
    let p = PeerId::from_bytes([0xab; 32]);
    match no_addresses_error(&p) {
        OmniMeshError::Discovery(m) => assert_eq!(m, format!("no addresses found for peer {}", "ab".repeat(32))),
        other => panic!("unexpected {:?}", other),
    }
    match connect_failure(None) {
        OmniMeshError::Connection(m) => assert_eq!(m, "failed to connect to peer addresses"),
        other => panic!("unexpected {:?}", other),
    }
    match connect_failure(Some(OmniMeshError::Timeout(5))) {
        OmniMeshError::Timeout(5) => {}
        other => panic!("unexpected {:?}", other),
    }
}

/// Runs the retry decisions over outcomes handed out in turn; returns the
/// number of calls made and the last outcome.
fn run_retries(max_retries: u32, outcomes: Vec<Result<u32, OmniMeshError>>) -> (usize, Result<u32, OmniMeshError>) {
    let mut state = RetryState::new(max_retries);
    let mut calls = 0;
    let mut outcomes = outcomes.into_iter();
    loop {
        let outcome = outcomes.next().unwrap();
        calls += 1;
        match outcome {
            Ok(v) => return (calls, Ok(v)),
            Err(e) => {
                if !state.on_failure(&e) {
                    return (calls, Err(e));
                }
            }
        }
    }
}

#[test]
fn test_retry_call_counts() {
    let conn = || OmniMeshError::Connection("refused".into());
    let (calls, result) = run_retries(3, vec![Ok(42), Ok(1), Ok(1), Ok(1)]);
    assert_eq!((calls, result.unwrap()), (1, 42));
    let (calls, result) = run_retries(3, vec![Err(conn()), Err(conn()), Ok(7), Ok(8)]);
    assert_eq!((calls, result.unwrap()), (3, 7));
    let (calls, result) = run_retries(3, vec![Err(OmniMeshError::Crypto("bad".into())), Ok(1), Ok(1), Ok(1)]);
    assert_eq!(calls, 1);
    assert!(matches!(result, Err(OmniMeshError::Crypto(_))));
    let (calls, result) = run_retries(2, vec![Err(conn()), Err(conn()), Err(conn())]);
    assert_eq!(calls, 3);
    assert!(matches!(result, Err(OmniMeshError::Connection(_))));
}

#[test]
fn test_cache_lookup_follows_latest_inserts() {
    let mut cache = PeerAddressCache::new();
    let p = PeerId::from_bytes([3; 32]);
    cache.insert_with_ttl(p, localhost(1), 100, 0);
    cache.insert_with_ttl(p, localhost(2), 100, 0);
    cache.insert_with_ttl(p, localhost(3), 5, 0);
    cache.insert_with_ttl(p, localhost(1), 100, 10);
    // Address 3 expired at 5; address 1 was re-inserted last.
    assert_eq!(cache.lookup(&p, 20), vec![localhost(2), localhost(1)]);
    // Re-inserting with a TTL that has run out hides an address again.
    cache.insert_with_ttl(p, localhost(2), 0, 20);
    assert_eq!(cache.lookup(&p, 20), vec![localhost(1)]);
}

#[test]
fn test_session_step_decisions() {
    assert_eq!(session_step(SessionEvent::Outgoing), SessionAction::Send);
    assert_eq!(session_step(SessionEvent::HandledWithReply), SessionAction::Send);
    assert_eq!(session_step(SessionEvent::Received), SessionAction::Handle);
    assert_eq!(session_step(SessionEvent::Sent), SessionAction::Continue);
    assert_eq!(session_step(SessionEvent::Handled), SessionAction::Continue);
    assert_eq!(session_step(SessionEvent::HandlingFailed), SessionAction::Continue);
    for e in [
        SessionEvent::QueueClosed,
        SessionEvent::SendFailed,
        SessionEvent::PeerClosed,
        SessionEvent::ReceiveFailed,
        SessionEvent::Shutdown,
    ] {
        assert_eq!(session_step(e), SessionAction::Close);
    }
}
