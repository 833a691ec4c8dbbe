//! Link-state gossip bookkeeping: the newest sequence number seen for each
//! directed link, and the local sequence numbers for outgoing updates.

use vstd::prelude::*;

use crate::connection::no_entries;
use crate::types::PeerId;
use dashmap::DashMap;

verus! {

/// The newest sequence seen for each `(source, destination)` link.
pub uninterp spec fn sequence_entries(m: &DashMap<(PeerId, PeerId), u64>) -> Map<(PeerId, PeerId), u64>;

/// `DashMap::new`: an empty map.
#[verifier::external_body]
fn seq_map_new() -> (m: DashMap<(PeerId, PeerId), u64>)
    ensures
        no_entries(sequence_entries(&m)),
{
    DashMap::new()
}

/// `DashMap::get`: the number bound to `key`, if any.
#[verifier::external_body]
fn seq_map_get(m: &DashMap<(PeerId, PeerId), u64>, key: &(PeerId, PeerId)) -> (res: Option<u64>)
    ensures
        res == (if sequence_entries(m).contains_key(*key) { Some(sequence_entries(m)[*key]) } else { None }),
{
    m.get(key).map(|e| *e)
}

/// `DashMap::insert`: binds `key` to `value`, replacing an earlier binding
/// (keys compare by the derived, field-wise equality of the pair).
#[verifier::external_body]
fn seq_map_insert(m: &mut DashMap<(PeerId, PeerId), u64>, key: (PeerId, PeerId), value: u64)
    ensures
        sequence_entries(final(m)) == sequence_entries(old(m)).insert(key, value),
{
    m.insert(key, value);
}

/// The stored sequence of a link, zero when none was seen.
pub open spec fn stored_or_zero(m: Map<(PeerId, PeerId), u64>, key: (PeerId, PeerId)) -> u64 {
    if m.contains_key(key) { m[key] } else { 0 }
}

/// Whether an update of `key` with `sequence` is new: newer than the newest
/// seen for its link.
pub open spec fn is_fresh(m: Map<(PeerId, PeerId), u64>, key: (PeerId, PeerId), sequence: u64) -> bool {
    sequence > stored_or_zero(m, key)
}

/// Deduplication: the first update of a link is new unless its sequence is
/// 0; an update whose sequence is newer than the newest seen is new, and one
/// at or below it (a replay or an older update) is not; once an update is
/// accepted, the same update again is not new.
pub proof fn law_dedup(m: Map<(PeerId, PeerId), u64>, key: (PeerId, PeerId), sequence: u64)
    ensures
        !m.contains_key(key) ==> (is_fresh(m, key, sequence) <==> sequence != 0),
        m.contains_key(key) ==> (is_fresh(m, key, sequence) <==> sequence > m[key]),
        m.contains_key(key) && m[key] < u64::MAX ==> is_fresh(m, key, (m[key] + 1) as u64),
        m.contains_key(key) ==> !is_fresh(m, key, m[key]),
        !is_fresh(m.insert(key, sequence), key, sequence),
{
}

/// Gossip sequencing state of a router.
pub struct GossipState {
    /// Newest sequence seen per link.
    gossip_sequences: DashMap<(PeerId, PeerId), u64>,
    /// The sequence the next outgoing update carries.
    next_sequence: u64,
}

impl GossipState {
    /// The newest sequence seen per link.
    pub closed spec fn seen(&self) -> Map<(PeerId, PeerId), u64> {
        sequence_entries(&self.gossip_sequences)
    }

    /// The sequence the next outgoing update carries.
    pub closed spec fn spec_next_sequence(&self) -> u64 {
        self.next_sequence
    }

    /// Nothing seen yet; outgoing updates start at sequence 1.
    pub fn new() -> (g: Self)
        ensures
            g.seen() == Map::<(PeerId, PeerId), u64>::empty(),
            g.spec_next_sequence() == 1,
    {
        GossipState { gossip_sequences: seq_map_new(), next_sequence: 1 }
    }

    /// The sequence for the next outgoing update; the counter moves on by one
    /// (wrapping, as an atomic counter does).
    pub fn take_sequence(&mut self) -> (s: u64)
        ensures
            s == old(self).spec_next_sequence(),
            final(self).spec_next_sequence() == old(self).spec_next_sequence().wrapping_add(1),
            final(self).seen() == old(self).seen(),
    {
        let s = self.next_sequence;
        self.next_sequence = self.next_sequence.wrapping_add(1);
        s
    }

    /// Decide on an incoming update of link `source -> destination`: it is
    /// new exactly when its sequence exceeds the newest seen for the link
    /// (zero when none); a new update's sequence becomes the newest seen.
    /// A link seen for the first time is recorded even when the update is
    /// dropped.
    pub fn accept(&mut self, source: PeerId, destination: PeerId, sequence: u64) -> (fresh: bool)
        ensures
            fresh == is_fresh(old(self).seen(), (source, destination), sequence),
            final(self).seen() == old(self).seen().insert((source, destination),
                if fresh { sequence } else { stored_or_zero(old(self).seen(), (source, destination)) }),
            final(self).spec_next_sequence() == old(self).spec_next_sequence(),
    {
        let key = (source, destination);
        let current = match seq_map_get(&self.gossip_sequences, &key) {
            Some(s) => s,
            None => 0,
        };
        if sequence <= current {
            seq_map_insert(&mut self.gossip_sequences, key, current);
            return false;
        }
        seq_map_insert(&mut self.gossip_sequences, key, sequence);
        true
    }
}

/// The newest sequence seen for a link never decreases, and a replayed or
/// older update is never new.
pub proof fn law_sequences_monotonic(seen: Map<(PeerId, PeerId), u64>, key: (PeerId, PeerId), sequence: u64)
    ensures
        ({
            let fresh = sequence > stored_or_zero(seen, key);
            let after = seen.insert(key, if fresh { sequence } else { stored_or_zero(seen, key) });
            &&& stored_or_zero(after, key) >= stored_or_zero(seen, key)
            &&& !(sequence > stored_or_zero(after, key))
            &&& forall|k: (PeerId, PeerId)| k != key ==> stored_or_zero(after, k) == stored_or_zero(seen, k)
        }),
{
}

/// The first hop of a route: its second node, when it has one.
pub fn next_hop_of(route: &Vec<PeerId>) -> (hop: Option<PeerId>)
    ensures
        hop == (if route@.len() > 1 { Some(route@[1]) } else { None }),
{
    if route.len() > 1 {
        Some(route[1])
    } else {
        None
    }
}

} // verus!
