//! Connection pool: tracks active connections by PeerId, limits their
//! number, and provides lookup and eviction.

use vstd::prelude::*;
use vstd::string::*;

use crate::error::OmniMeshError;
use crate::net::SocketAddress;
use crate::text::{decimal_string, hex_lower};
use crate::types::{ConnectionState, PeerId};
use dashmap::DashMap;

verus! {

/// Metadata about a tracked connection.
#[derive(Debug, Clone, Copy)]
pub struct ConnectionInfo {
    /// The remote peer's ID.
    pub peer_id: PeerId,
    /// The remote address.
    pub remote_addr: SocketAddress,
    /// Current connection state.
    pub state: ConnectionState,
    /// Unix timestamp of when this connection was established.
    pub connected_at: u64,
    /// Number of bytes sent through this connection.
    pub bytes_sent: u64,
    /// Number of bytes received through this connection.
    pub bytes_received: u64,
}

#[verifier::external_type_specification]
#[verifier::external_body]
#[verifier::reject_recursive_types(K)]
#[verifier::reject_recursive_types(V)]
#[verifier::reject_recursive_types(S)]
pub struct ExDashMap<K, V, S>(dashmap::DashMap<K, V, S>);

/// The entries of a connection map.
pub uninterp spec fn pool_entries(m: &DashMap<PeerId, ConnectionInfo>) -> Map<PeerId, ConnectionInfo>;

/// `DashMap::new`: an empty map.
#[verifier::external_body]
fn pool_map_new() -> (m: DashMap<PeerId, ConnectionInfo>)
    ensures
        no_entries(pool_entries(&m)),
{
    DashMap::new()
}

/// `DashMap::len`: the number of entries (of a finite map).
#[verifier::external_body]
fn pool_map_len(m: &DashMap<PeerId, ConnectionInfo>) -> (n: usize)
    ensures
        has_len(pool_entries(m), n),
{
    m.len()
}

/// `DashMap::insert`: binds `key` to `value`, replacing an earlier binding
/// (keys compare by the derived, field-wise equality of `PeerId`).
#[verifier::external_body]
fn pool_map_insert(m: &mut DashMap<PeerId, ConnectionInfo>, key: PeerId, value: ConnectionInfo)
    ensures
        pool_entries(final(m)) == pool_entries(old(m)).insert(key, value),
{
    m.insert(key, value);
}

/// `DashMap::remove`: unbinds `key`, handing back its value if it had one.
#[verifier::external_body]
fn pool_map_remove(m: &mut DashMap<PeerId, ConnectionInfo>, key: &PeerId) -> (res: Option<ConnectionInfo>)
    ensures
        pool_entries(final(m)) == pool_entries(old(m)).remove(*key),
        res == (if pool_entries(old(m)).contains_key(*key) { Some(pool_entries(old(m))[*key]) } else { None }),
{
    m.remove(key).map(|(_, v)| v)
}

/// `DashMap::get`: a copy of the value bound to `key`, if any.
#[verifier::external_body]
fn pool_map_get(m: &DashMap<PeerId, ConnectionInfo>, key: &PeerId) -> (res: Option<ConnectionInfo>)
    ensures
        res == (if pool_entries(m).contains_key(*key) { Some(pool_entries(m)[*key]) } else { None }),
{
    m.get(key).map(|e| *e)
}

/// `DashMap::alter` with `f` = [`with_state`]: the value bound to `key`, if
/// any, gets the new state.
#[verifier::external_body]
fn pool_map_set_state(m: &mut DashMap<PeerId, ConnectionInfo>, key: &PeerId, state: ConnectionState)
    ensures
        pool_entries(final(m)) == (if pool_entries(old(m)).contains_key(*key) {
            pool_entries(old(m)).insert(*key, spec_with_state(pool_entries(old(m))[*key], state))
        } else {
            pool_entries(old(m))
        }),
{
    m.alter(key, |_, info| with_state(info, state))
}

/// `DashMap::alter` with `f` = [`with_more_sent`].
#[verifier::external_body]
fn pool_map_add_sent(m: &mut DashMap<PeerId, ConnectionInfo>, key: &PeerId, bytes: u64)
    requires
        pool_entries(old(m)).contains_key(*key) ==> pool_entries(old(m))[*key].bytes_sent + bytes <= u64::MAX,
    ensures
        pool_entries(final(m)) == (if pool_entries(old(m)).contains_key(*key) {
            pool_entries(old(m)).insert(*key, spec_with_more_sent(pool_entries(old(m))[*key], bytes))
        } else {
            pool_entries(old(m))
        }),
{
    m.alter(key, |_, info| with_more_sent(info, bytes))
}

/// `DashMap::alter` with `f` = [`with_more_received`].
#[verifier::external_body]
fn pool_map_add_received(m: &mut DashMap<PeerId, ConnectionInfo>, key: &PeerId, bytes: u64)
    requires
        pool_entries(old(m)).contains_key(*key) ==> pool_entries(old(m))[*key].bytes_received + bytes <= u64::MAX,
    ensures
        pool_entries(final(m)) == (if pool_entries(old(m)).contains_key(*key) {
            pool_entries(old(m)).insert(*key, spec_with_more_received(pool_entries(old(m))[*key], bytes))
        } else {
            pool_entries(old(m))
        }),
{
    m.alter(key, |_, info| with_more_received(info, bytes))
}

/// `DashMap::iter`, each entry copied out as a pair: every entry exactly
/// once, in the map's own order.
#[verifier::external_body]
fn pool_map_entries(m: &DashMap<PeerId, ConnectionInfo>) -> (v: Vec<(PeerId, ConnectionInfo)>)
    ensures
        lists_entries(pool_entries(m), v@),
{
    m.iter().map(|e| (*e.key(), *e.value())).collect()
}

/// The empty map.
pub open spec fn no_entries<K, V>(m: Map<K, V>) -> bool {
    m == Map::<K, V>::empty()
}

/// A finite map with `n` entries.
pub open spec fn has_len<K, V>(m: Map<K, V>, n: usize) -> bool {
    m.dom().finite() && m.len() == n
}

/// `v` lists the entries of the finite map `m`, each key once.
pub open spec fn lists_entries<K, V>(m: Map<K, V>, v: Seq<(K, V)>) -> bool {
    &&& m.dom().finite()
    &&& v.len() == m.len()
    &&& forall|i: int| 0 <= i < v.len() ==> m.contains_key(#[trigger] v[i].0) && m[v[i].0] == v[i].1
    &&& forall|i: int, j: int| 0 <= i < j < v.len() ==> #[trigger] v[i].0 != #[trigger] v[j].0
    &&& forall|k: K| #[trigger] m.contains_key(k) ==> exists|i: int| 0 <= i < v.len() && v[i].0 == k
}

/// `info` in state `state`.
pub open spec fn spec_with_state(info: ConnectionInfo, state: ConnectionState) -> ConnectionInfo {
    ConnectionInfo { state, ..info }
}

/// `info` with `bytes` more sent.
pub open spec fn spec_with_more_sent(info: ConnectionInfo, bytes: u64) -> ConnectionInfo {
    ConnectionInfo { bytes_sent: (info.bytes_sent + bytes) as u64, ..info }
}

/// `info` with `bytes` more received.
pub open spec fn spec_with_more_received(info: ConnectionInfo, bytes: u64) -> ConnectionInfo {
    ConnectionInfo { bytes_received: (info.bytes_received + bytes) as u64, ..info }
}

/// Recording traffic adds to the running totals and changes nothing else:
/// bytes sent are added to the sent total, bytes received to the received
/// total, and a state change touches only the state.
pub proof fn law_traffic_adds_up(info: ConnectionInfo, bytes: u64, state: ConnectionState)
    ensures
        info.bytes_sent + bytes <= u64::MAX ==> spec_with_more_sent(info, bytes).bytes_sent == info.bytes_sent + bytes,
        spec_with_more_sent(info, bytes).bytes_received == info.bytes_received,
        spec_with_more_sent(info, bytes).peer_id == info.peer_id,
        spec_with_more_sent(info, bytes).remote_addr == info.remote_addr,
        spec_with_more_sent(info, bytes).state == info.state,
        spec_with_more_sent(info, bytes).connected_at == info.connected_at,
        info.bytes_received + bytes <= u64::MAX ==> spec_with_more_received(info, bytes).bytes_received == info.bytes_received + bytes,
        spec_with_more_received(info, bytes).bytes_sent == info.bytes_sent,
        spec_with_more_received(info, bytes).peer_id == info.peer_id,
        spec_with_more_received(info, bytes).remote_addr == info.remote_addr,
        spec_with_more_received(info, bytes).state == info.state,
        spec_with_more_received(info, bytes).connected_at == info.connected_at,
        spec_with_state(info, state).state == state,
        spec_with_state(info, state).bytes_sent == info.bytes_sent,
        spec_with_state(info, state).bytes_received == info.bytes_received,
        spec_with_state(info, state).peer_id == info.peer_id,
        spec_with_state(info, state).remote_addr == info.remote_addr,
        spec_with_state(info, state).connected_at == info.connected_at,
{
}

/// `info` in state `state`.
pub fn with_state(info: ConnectionInfo, state: ConnectionState) -> (r: ConnectionInfo)
    ensures
        r == spec_with_state(info, state),
{
    ConnectionInfo { state, ..info }
}

/// `info` with `bytes` more sent.
pub fn with_more_sent(info: ConnectionInfo, bytes: u64) -> (r: ConnectionInfo)
    requires
        info.bytes_sent + bytes <= u64::MAX,
    ensures
        r == spec_with_more_sent(info, bytes),
{
    ConnectionInfo { bytes_sent: info.bytes_sent + bytes, ..info }
}

/// `info` with `bytes` more received.
pub fn with_more_received(info: ConnectionInfo, bytes: u64) -> (r: ConnectionInfo)
    requires
        info.bytes_received + bytes <= u64::MAX,
    ensures
        r == spec_with_more_received(info, bytes),
{
    ConnectionInfo { bytes_received: info.bytes_received + bytes, ..info }
}

/// The error when no address of a peer is known.
pub fn no_addresses_error(peer: &PeerId) -> (e: OmniMeshError)
    ensures
        e matches OmniMeshError::Discovery(m) && m@ == "no addresses found for peer "@ + hex_lower(peer.0@),
{
    let mut m = "no addresses found for peer ".to_owned();
    let hex = peer.to_string();
    m.append(hex.as_str());
    OmniMeshError::Discovery(m)
}

/// The error after every address of a peer was tried and failed: the last
/// attempt's error, or a connection error when there was none.
pub fn connect_failure(last: Option<OmniMeshError>) -> (e: OmniMeshError)
    ensures
        match last {
            Some(l) => e == l,
            None => e matches OmniMeshError::Connection(m) && m@ == "failed to connect to peer addresses"@,
        },
{
    match last {
        Some(e) => e,
        None => OmniMeshError::Connection("failed to connect to peer addresses".to_owned()),
    }
}

/// A pool that tracks active connections by PeerId.
pub struct ConnectionPool {
    /// Active connections indexed by PeerId.
    connections: DashMap<PeerId, ConnectionInfo>,
    /// Maximum number of concurrent connections.
    max_connections: usize,
}

impl ConnectionPool {
    /// The tracked connections.
    pub closed spec fn entries(&self) -> Map<PeerId, ConnectionInfo> {
        pool_entries(&self.connections)
    }

    /// The capacity limit.
    pub closed spec fn capacity(&self) -> usize {
        self.max_connections
    }

    /// Finitely many connections, never more than the capacity.
    pub open spec fn wf(&self) -> bool {
        self.entries().dom().finite() && self.entries().len() <= self.capacity()
    }

    /// Every pool is well formed.
    #[verifier::type_invariant]
    closed spec fn inv(&self) -> bool {
        self.wf()
    }

    /// Takes the connection map out, leaving an empty one in its place.
    fn take_connections(&mut self) -> (m: DashMap<PeerId, ConnectionInfo>)
        ensures
            pool_entries(&m) == old(self).entries(),
            old(self).wf(),
            final(self).entries() == Map::<PeerId, ConnectionInfo>::empty(),
            final(self).capacity() == old(self).capacity(),
    {
        proof { use_type_invariant(&*self); }
        let mut m = pool_map_new();
        proof {
            assert(Map::<PeerId, ConnectionInfo>::empty().dom() =~= Set::<PeerId>::empty());
        }
        core::mem::swap(&mut m, &mut self.connections);
        m
    }

    /// Puts a connection map back in place of the one there.
    fn put_connections(&mut self, m: DashMap<PeerId, ConnectionInfo>)
        requires
            pool_entries(&m).dom().finite(),
            pool_entries(&m).len() <= old(self).capacity(),
        ensures
            final(self).entries() == pool_entries(&m),
            final(self).capacity() == old(self).capacity(),
    {
        let mut m = m;
        core::mem::swap(&mut m, &mut self.connections);
    }


    /// Create a new connection pool with the given capacity limit.
    pub fn new(max_connections: usize) -> (pool: Self)
        ensures
            pool.wf(),
            pool.entries() == Map::<PeerId, ConnectionInfo>::empty(),
            pool.capacity() == max_connections,
    {
        ConnectionPool { connections: pool_map_new(), max_connections }
    }

    /// Register a new connection; refused with a connection error when the
    /// pool is at capacity (an existing entry of the peer is replaced).
    pub fn insert(&mut self, info: ConnectionInfo) -> (res: Result<(), OmniMeshError>)
        ensures
            final(self).wf(),
            final(self).capacity() == old(self).capacity(),
            res is Ok <==> old(self).entries().len() < old(self).capacity(),
            match res {
                Ok(_) => final(self).entries() == old(self).entries().insert(info.peer_id, info),
                Err(e) => e is Connection && final(self).entries() == old(self).entries(),
            },
    {
        proof { use_type_invariant(&*self); }
        let len = pool_map_len(&self.connections);
        if len >= self.max_connections {
            let mut msg = "connection pool full (".to_owned();
            let a = decimal_string(len as u64);
            msg.append(a.as_str());
            msg.append("/");
            let b = decimal_string(self.max_connections as u64);
            msg.append(b.as_str());
            msg.append(")");
            return Err(OmniMeshError::Connection(msg));
        }
        let peer_id = info.peer_id;
        let mut m = self.take_connections();
        pool_map_insert(&mut m, peer_id, info);
        proof {
            let old_m = old(self).entries();
            if old_m.contains_key(peer_id) {
                assert(old_m.insert(peer_id, info).dom() =~= old_m.dom());
            } else {
                assert(old_m.insert(peer_id, info).dom() =~= old_m.dom().insert(peer_id));
            }
        }
        self.put_connections(m);
        Ok(())
    }

    /// Remove a connection by PeerId, handing back its record.
    pub fn remove(&mut self, peer_id: &PeerId) -> (res: Option<ConnectionInfo>)
        ensures
            final(self).wf(),
            final(self).capacity() == old(self).capacity(),
            final(self).entries() == old(self).entries().remove(*peer_id),
            res == (if old(self).entries().contains_key(*peer_id) { Some(old(self).entries()[*peer_id]) } else { None }),
    {
        let mut m = self.take_connections();
        let r = pool_map_remove(&mut m, peer_id);
        proof {
            let old_m = old(self).entries();
            if old_m.contains_key(*peer_id) {
                assert(old_m.remove(*peer_id).dom() =~= old_m.dom().remove(*peer_id));
            } else {
                assert(old_m.remove(*peer_id).dom() =~= old_m.dom());
            }
        }
        self.put_connections(m);
        r
    }

    /// Get connection info for a peer.
    pub fn get(&self, peer_id: &PeerId) -> (res: Option<ConnectionInfo>)
        ensures
            res == (if self.entries().contains_key(*peer_id) { Some(self.entries()[*peer_id]) } else { None }),
    {
        pool_map_get(&self.connections, peer_id)
    }

    /// Check if a peer is tracked and in the connected state.
    pub fn is_connected(&self, peer_id: &PeerId) -> (r: bool)
        ensures
            r == (self.entries().contains_key(*peer_id) && self.entries()[*peer_id].state == ConnectionState::Connected),
    {
        match pool_map_get(&self.connections, peer_id) {
            Some(info) => info.state == ConnectionState::Connected,
            None => false,
        }
    }

    /// Get the number of tracked connections, which is within the capacity.
    pub fn len(&self) -> (n: usize)
        ensures
            n == self.entries().len(),
            self.wf(),
    {
        proof { use_type_invariant(self); }
        pool_map_len(&self.connections)
    }

    /// Check if the pool is empty.
    pub fn is_empty(&self) -> (r: bool)
        ensures
            r == (self.entries().len() == 0),
    {
        pool_map_len(&self.connections) == 0
    }

    /// Get the IDs of all peers in the connected state, each once.
    pub fn connected_peers(&self) -> (peers: Vec<PeerId>)
        ensures
            forall|k: PeerId| peers@.contains(k) <==> (self.entries().contains_key(k) && self.entries()[k].state == ConnectionState::Connected),
            forall|i: int, j: int| 0 <= i < j < peers@.len() ==> peers@[i] != peers@[j],
    {
        let all = pool_map_entries(&self.connections);
        let mut peers: Vec<PeerId> = Vec::new();
        let mut i: usize = 0;
        while i < all.len()
            invariant
                i <= all@.len(),
                forall|t: int| 0 <= t < all@.len() ==> self.entries().contains_key(#[trigger] all@[t].0) && self.entries()[all@[t].0] == all@[t].1,
                forall|a: int, b: int| 0 <= a < b < all@.len() ==> #[trigger] all@[a].0 != #[trigger] all@[b].0,
                forall|k: PeerId| peers@.contains(k) <==> (exists|t: int| 0 <= t < i && all@[t].0 == k && all@[t].1.state == ConnectionState::Connected),
                forall|a: int, b: int| 0 <= a < b < peers@.len() ==> peers@[a] != peers@[b],
                forall|a: int| 0 <= a < peers@.len() ==> exists|t: int| 0 <= t < i && all@[t].0 == #[trigger] peers@[a],
            decreases all@.len() - i,
        {
            let (k, info) = all[i];
            let ghost before = peers@;
            if info.state == ConnectionState::Connected {
                proof {
                    assert forall|a: int| 0 <= a < peers@.len() implies peers@[a] != k by {
                        let t = choose|t: int| 0 <= t < i && all@[t].0 == #[trigger] peers@[a];
                        assert(all@[t].0 != all@[i as int].0);
                    }
                }
                let ghost prev = peers@;
                peers.push(k);
                proof {
                    assert forall|q: PeerId| peers@.contains(q) <==> (prev.contains(q) || q == k) by {
                        if peers@.contains(q) {
                            let a = choose|a: int| 0 <= a < peers@.len() && peers@[a] == q;
                            if a < prev.len() {
                                assert(prev[a] == q);
                            }
                        }
                        if prev.contains(q) {
                            let a = choose|a: int| 0 <= a < prev.len() && prev[a] == q;
                            assert(peers@[a] == q);
                        }
                        if q == k {
                            assert(peers@[prev.len() as int] == k);
                        }
                    }
                    assert forall|a: int| 0 <= a < peers@.len() implies exists|t: int| 0 <= t < i + 1 && all@[t].0 == #[trigger] peers@[a] by {
                        if a < prev.len() {
                            assert(peers@[a] == prev[a]);
                        } else {
                            assert(all@[i as int].0 == peers@[a]);
                        }
                    }
                }
            }
            proof {
                assert forall|q: PeerId| peers@.contains(q) <==> (exists|t: int| 0 <= t < i + 1 && all@[t].0 == q && all@[t].1.state == ConnectionState::Connected) by {
                    if exists|t: int| 0 <= t < i + 1 && all@[t].0 == q && all@[t].1.state == ConnectionState::Connected {
                        let t = choose|t: int| 0 <= t < i + 1 && all@[t].0 == q && all@[t].1.state == ConnectionState::Connected;
                        if t < i {
                            assert(before.contains(q));
                            if info.state == ConnectionState::Connected {
                                let a = choose|a: int| 0 <= a < before.len() && before[a] == q;
                                assert(peers@[a] == q);
                            }
                        }
                    }
                    if peers@.contains(q) && !(info.state == ConnectionState::Connected && q == k) {
                        assert(before.contains(q));
                    }
                }
            }
            i = i + 1;
        }
        proof {
            assert forall|k: PeerId| peers@.contains(k) <==> (self.entries().contains_key(k) && self.entries()[k].state == ConnectionState::Connected) by {
                if self.entries().contains_key(k) {
                    let t = choose|t: int| 0 <= t < all@.len() && all@[t].0 == k;
                    assert(all@[t].1 == self.entries()[k]);
                }
            }
        }
        peers
    }

    /// Update the connection state of a tracked peer; nothing happens for an
    /// untracked one.
    pub fn update_state(&mut self, peer_id: &PeerId, state: ConnectionState)
        ensures
            final(self).wf(),
            final(self).capacity() == old(self).capacity(),
            final(self).entries() == (if old(self).entries().contains_key(*peer_id) {
                old(self).entries().insert(*peer_id, spec_with_state(old(self).entries()[*peer_id], state))
            } else {
                old(self).entries()
            }),
    {
        let mut m = self.take_connections();
        pool_map_set_state(&mut m, peer_id, state);
        proof {
            let old_m = old(self).entries();
            if old_m.contains_key(*peer_id) {
                assert(old_m.insert(*peer_id, spec_with_state(old_m[*peer_id], state)).dom() =~= old_m.dom());
            }
        }
        self.put_connections(m);
    }

    /// Record bytes sent on a tracked connection.
    pub fn record_bytes_sent(&mut self, peer_id: &PeerId, bytes: u64)
        requires
            old(self).entries().contains_key(*peer_id) ==> old(self).entries()[*peer_id].bytes_sent + bytes <= u64::MAX,
        ensures
            final(self).wf(),
            final(self).capacity() == old(self).capacity(),
            final(self).entries() == (if old(self).entries().contains_key(*peer_id) {
                old(self).entries().insert(*peer_id, spec_with_more_sent(old(self).entries()[*peer_id], bytes))
            } else {
                old(self).entries()
            }),
    {
        let mut m = self.take_connections();
        pool_map_add_sent(&mut m, peer_id, bytes);
        proof {
            let old_m = old(self).entries();
            if old_m.contains_key(*peer_id) {
                assert(old_m.insert(*peer_id, spec_with_more_sent(old_m[*peer_id], bytes)).dom() =~= old_m.dom());
            }
        }
        self.put_connections(m);
    }

    /// Record bytes received on a tracked connection.
    pub fn record_bytes_received(&mut self, peer_id: &PeerId, bytes: u64)
        requires
            old(self).entries().contains_key(*peer_id) ==> old(self).entries()[*peer_id].bytes_received + bytes <= u64::MAX,
        ensures
            final(self).wf(),
            final(self).capacity() == old(self).capacity(),
            final(self).entries() == (if old(self).entries().contains_key(*peer_id) {
                old(self).entries().insert(*peer_id, spec_with_more_received(old(self).entries()[*peer_id], bytes))
            } else {
                old(self).entries()
            }),
    {
        let mut m = self.take_connections();
        pool_map_add_received(&mut m, peer_id, bytes);
        proof {
            let old_m = old(self).entries();
            if old_m.contains_key(*peer_id) {
                assert(old_m.insert(*peer_id, spec_with_more_received(old_m[*peer_id], bytes)).dom() =~= old_m.dom());
            }
        }
        self.put_connections(m);
    }
}

} // verus!
