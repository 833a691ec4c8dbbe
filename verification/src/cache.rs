//! Peer address registry: known socket addresses of remote peers, each with
//! an expiry time. Times are milliseconds on a monotonic clock and are
//! handed in by the caller.

use vstd::prelude::*;

use crate::connection::{has_len, lists_entries, no_entries};
use crate::net::SocketAddress;
use crate::types::PeerId;
use dashmap::DashMap;

verus! {

/// Default address expiration: 30 minutes, in milliseconds.
pub const DEFAULT_TTL_MS: u64 = 1_800_000;

/// An address with the time it expires.
#[derive(Debug, Clone, Copy)]
pub struct CachedAddress {
    /// The address.
    pub addr: SocketAddress,
    /// When it expires (milliseconds).
    pub expires_at: u64,
}

/// The unexpired addresses of a list at time `now`, in list order.
pub open spec fn live_addrs(list: Seq<CachedAddress>, now: u64) -> Seq<SocketAddress>
    decreases list.len(),
{
    if list.len() == 0 {
        Seq::empty()
    } else if list.last().expires_at > now {
        live_addrs(list.drop_last(), now).push(list.last().addr)
    } else {
        live_addrs(list.drop_last(), now)
    }
}

/// The list without any entry for `addr`.
pub open spec fn without_addr(list: Seq<CachedAddress>, addr: SocketAddress) -> Seq<CachedAddress>
    decreases list.len(),
{
    if list.len() == 0 {
        Seq::empty()
    } else if list.last().addr == addr {
        without_addr(list.drop_last(), addr)
    } else {
        without_addr(list.drop_last(), addr).push(list.last())
    }
}

/// The unexpired entries of a list at time `now`.
pub open spec fn live_entries(list: Seq<CachedAddress>, now: u64) -> Seq<CachedAddress>
    decreases list.len(),
{
    if list.len() == 0 {
        Seq::empty()
    } else if list.last().expires_at > now {
        live_entries(list.drop_last(), now).push(list.last())
    } else {
        live_entries(list.drop_last(), now)
    }
}

/// The list after recording `addr` with expiry `expires_at`: any earlier
/// entry for it is dropped and the new one goes last.
pub open spec fn spec_record(list: Seq<CachedAddress>, addr: SocketAddress, expires_at: u64) -> Seq<CachedAddress> {
    without_addr(list, addr).push(CachedAddress { addr, expires_at })
}

/// The list after recording each of `addrs` in turn, all with expiry
/// `expires_at`.
pub open spec fn spec_record_all(list: Seq<CachedAddress>, addrs: Seq<SocketAddress>, expires_at: u64) -> Seq<CachedAddress>
    decreases addrs.len(),
{
    if addrs.len() == 0 {
        list
    } else {
        spec_record(spec_record_all(list, addrs.drop_last(), expires_at), addrs.last(), expires_at)
    }
}

/// No address occurs twice in a list.
pub open spec fn distinct_addrs(list: Seq<CachedAddress>) -> bool {
    forall|i: int, j: int| 0 <= i < j < list.len() ==> #[trigger] list[i].addr != #[trigger] list[j].addr
}

/// The list after `without_addr` holds no entry for `addr`, keeps the
/// others in order, and keeps addresses distinct.
proof fn lemma_without_addr(list: Seq<CachedAddress>, addr: SocketAddress)
    ensures
        forall|i: int| 0 <= i < without_addr(list, addr).len() ==> #[trigger] without_addr(list, addr)[i].addr != addr,
        forall|e: CachedAddress| without_addr(list, addr).contains(e) ==> list.contains(e),
        distinct_addrs(list) ==> distinct_addrs(without_addr(list, addr)),
        without_addr(list, addr).len() <= list.len(),
    decreases list.len(),
{
    if list.len() > 0 {
        let rest = list.drop_last();
        lemma_without_addr(rest, addr);
        let w = without_addr(rest, addr);
        assert forall|e: CachedAddress| w.contains(e) implies list.contains(e) by {
            let i = choose|i: int| 0 <= i < w.len() && w[i] == e;
            assert(rest.contains(e));
            let j = choose|j: int| 0 <= j < rest.len() && rest[j] == e;
            assert(list[j] == e);
        }
        if list.last().addr != addr {
            let w2 = w.push(list.last());
            assert(w2.contains(list.last()) ==> list.contains(list.last())) by {
                assert(list[list.len() - 1] == list.last());
            }
            assert forall|e: CachedAddress| w2.contains(e) implies list.contains(e) by {
                let i = choose|i: int| 0 <= i < w2.len() && w2[i] == e;
                if i < w.len() {
                    assert(w.contains(e));
                } else {
                    assert(list[list.len() - 1] == e);
                }
            }
            if distinct_addrs(list) {
                assert(distinct_addrs(rest));
                assert forall|i: int, j: int| 0 <= i < j < w2.len() implies #[trigger] w2[i].addr != #[trigger] w2[j].addr by {
                    if j == w2.len() - 1 {
                        assert(w.contains(w2[i]));
                        assert(rest.contains(w2[i]));
                        let k = choose|k: int| 0 <= k < rest.len() && rest[k] == w2[i];
                        assert(list[k] == rest[k]);
                        assert(list[list.len() - 1] == list.last());
                    } else {
                        assert(w2[i] == w[i] && w2[j] == w[j]);
                    }
                }
            }
        }
    }
}

/// Recording an address keeps a list's addresses distinct.
pub proof fn law_record_keeps_addrs_distinct(list: Seq<CachedAddress>, addr: SocketAddress, expires_at: u64)
    requires
        distinct_addrs(list),
    ensures
        distinct_addrs(spec_record(list, addr, expires_at)),
{
    lemma_without_addr(list, addr);
    let w = without_addr(list, addr);
    let r = spec_record(list, addr, expires_at);
    assert forall|i: int, j: int| 0 <= i < j < r.len() implies #[trigger] r[i].addr != #[trigger] r[j].addr by {
        if j == r.len() - 1 {
            assert(r[i] == w[i]);
        } else {
            assert(r[i] == w[i] && r[j] == w[j]);
        }
    }
}

/// An address recorded to expire after `now` is among the live addresses at
/// `now`, and it is the last of them.
pub proof fn law_recorded_addr_is_live(list: Seq<CachedAddress>, addr: SocketAddress, expires_at: u64, now: u64)
    requires
        expires_at > now,
    ensures
        live_addrs(spec_record(list, addr, expires_at), now).last() == addr,
        live_addrs(spec_record(list, addr, expires_at), now).contains(addr),
{
    let r = spec_record(list, addr, expires_at);
    assert(r.drop_last() =~= without_addr(list, addr));
    let l = live_addrs(r, now);
    assert(l[l.len() - 1] == addr);
}

fn without_addr_exec(list: &Vec<CachedAddress>, addr: &SocketAddress) -> (out: Vec<CachedAddress>)
    ensures
        out@ == without_addr(list@, *addr),
{
    let mut out: Vec<CachedAddress> = Vec::new();
    let mut i: usize = 0;
    while i < list.len()
        invariant
            i <= list@.len(),
            out@ == without_addr(list@.take(i as int), *addr),
        decreases list@.len() - i,
    {
        let e = list[i];
        assert(list@.take(i + 1).drop_last() =~= list@.take(i as int));
        if !e.addr.same_as(addr) {
            out.push(e);
        }
        i = i + 1;
    }
    assert(list@.take(list@.len() as int) =~= list@);
    out
}

fn live_addrs_exec(list: &Vec<CachedAddress>, now: u64) -> (out: Vec<SocketAddress>)
    ensures
        out@ == live_addrs(list@, now),
{
    let mut out: Vec<SocketAddress> = Vec::new();
    let mut i: usize = 0;
    while i < list.len()
        invariant
            i <= list@.len(),
            out@ == live_addrs(list@.take(i as int), now),
        decreases list@.len() - i,
    {
        let e = list[i];
        assert(list@.take(i + 1).drop_last() =~= list@.take(i as int));
        if e.expires_at > now {
            out.push(e.addr);
        }
        i = i + 1;
    }
    assert(list@.take(list@.len() as int) =~= list@);
    out
}

/// Keeps the unexpired entries of `list` at `now`; tells whether any remain.
pub fn prune_list(list: &mut Vec<CachedAddress>, now: u64) -> (keep: bool)
    ensures
        final(list)@ == live_entries(old(list)@, now),
        keep == (live_entries(old(list)@, now).len() > 0),
{
    let mut out: Vec<CachedAddress> = Vec::new();
    let mut i: usize = 0;
    while i < list.len()
        invariant
            i <= list@.len(),
            list@ == old(list)@,
            out@ == live_entries(list@.take(i as int), now),
        decreases list@.len() - i,
    {
        let e = list[i];
        assert(list@.take(i + 1).drop_last() =~= list@.take(i as int));
        if e.expires_at > now {
            out.push(e);
        }
        i = i + 1;
    }
    assert(list@.take(list@.len() as int) =~= list@);
    *list = out;
    list.len() > 0
}

/// The entries of an address cache map.
pub uninterp spec fn cache_entries(m: &DashMap<PeerId, Vec<CachedAddress>>) -> Map<PeerId, Seq<CachedAddress>>;

/// `DashMap::new`: an empty map.
#[verifier::external_body]
fn cache_map_new() -> (m: DashMap<PeerId, Vec<CachedAddress>>)
    ensures
        no_entries(cache_entries(&m)),
{
    DashMap::new()
}

/// `DashMap::get`: a copy (`Vec::clone`) of the list bound to `key`.
#[verifier::external_body]
fn cache_map_get(m: &DashMap<PeerId, Vec<CachedAddress>>, key: &PeerId) -> (res: Option<Vec<CachedAddress>>)
    ensures
        res matches Some(v) ==> cache_entries(m).contains_key(*key) && v@ == cache_entries(m)[*key],
        res is None ==> !cache_entries(m).contains_key(*key),
{
    m.get(key).map(|e| e.value().clone())
}

/// `DashMap::insert`: binds `key` to `value`, replacing an earlier binding.
#[verifier::external_body]
fn cache_map_insert(m: &mut DashMap<PeerId, Vec<CachedAddress>>, key: PeerId, value: Vec<CachedAddress>)
    ensures
        cache_entries(final(m)) == cache_entries(old(m)).insert(key, value@),
{
    m.insert(key, value);
}

/// `DashMap::remove`: unbinds `key`.
#[verifier::external_body]
fn cache_map_remove(m: &mut DashMap<PeerId, Vec<CachedAddress>>, key: &PeerId)
    ensures
        cache_entries(final(m)) == cache_entries(old(m)).remove(*key),
{
    m.remove(key);
}

/// The map after pruning at `now`: expired entries dropped from each list,
/// and peers left without entries dropped.
pub open spec fn spec_pruned(m: Map<PeerId, Seq<CachedAddress>>, now: u64) -> Map<PeerId, Seq<CachedAddress>> {
    Map::new(
        |k: PeerId| m.contains_key(k) && live_entries(m[k], now).len() > 0,
        |k: PeerId| live_entries(m[k], now),
    )
}

/// `DashMap::retain` with `f` = [`prune_list`] at `now`.
#[verifier::external_body]
fn cache_map_prune(m: &mut DashMap<PeerId, Vec<CachedAddress>>, now: u64)
    ensures
        cache_entries(final(m)) == spec_pruned(cache_entries(old(m)), now),
{
    m.retain(|_, list| prune_list(list, now))
}

/// `DashMap::iter`, each entry copied out as a pair (`Vec::clone` of the
/// list): every entry exactly once, in the map's own order.
#[verifier::external_body]
fn cache_map_entries(m: &DashMap<PeerId, Vec<CachedAddress>>) -> (v: Vec<(PeerId, Vec<CachedAddress>)>)
    ensures
        lists_entries(cache_entries(m), v@.map_values(|e: (PeerId, Vec<CachedAddress>)| (e.0, e.1@))),
{
    m.iter().map(|e| (*e.key(), e.value().clone())).collect()
}

/// Each live address comes from an entry of the list.
proof fn lemma_live_addrs_from(list: Seq<CachedAddress>, now: u64)
    ensures
        forall|i: int| 0 <= i < live_addrs(list, now).len() ==>
            exists|j: int| 0 <= j < list.len() && #[trigger] list[j].addr == #[trigger] live_addrs(list, now)[i],
    decreases list.len(),
{
    if list.len() > 0 {
        let d = list.drop_last();
        lemma_live_addrs_from(d, now);
        let l = live_addrs(list, now);
        let ld = live_addrs(d, now);
        assert forall|i: int| 0 <= i < l.len() implies
            exists|j: int| 0 <= j < list.len() && #[trigger] list[j].addr == #[trigger] l[i] by {
            if i < ld.len() {
                assert(l[i] == ld[i]);
                let j = choose|j: int| 0 <= j < d.len() && #[trigger] d[j].addr == ld[i];
                assert(list[j] == d[j]);
            } else {
                assert(list[list.len() - 1].addr == l[i]);
            }
        }
    }
}

/// A lookup lists each live address once: the live addresses of a list
/// without repeated addresses are distinct (and, as the list is kept in
/// order of latest insertion, come in that order).
pub proof fn law_live_addrs_distinct(list: Seq<CachedAddress>, now: u64)
    requires
        distinct_addrs(list),
    ensures
        forall|i: int, j: int| 0 <= i < j < live_addrs(list, now).len() ==>
            #[trigger] live_addrs(list, now)[i] != #[trigger] live_addrs(list, now)[j],
    decreases list.len(),
{
    if list.len() > 0 {
        let d = list.drop_last();
        assert(distinct_addrs(d)) by {
            assert forall|a: int, b: int| 0 <= a < b < d.len() implies #[trigger] d[a].addr != #[trigger] d[b].addr by {
                assert(d[a] == list[a] && d[b] == list[b]);
            }
        }
        law_live_addrs_distinct(d, now);
        lemma_live_addrs_from(d, now);
        let l = live_addrs(list, now);
        let ld = live_addrs(d, now);
        assert forall|i: int, j: int| 0 <= i < j < l.len() implies #[trigger] l[i] != #[trigger] l[j] by {
            if j < ld.len() {
                assert(l[i] == ld[i] && l[j] == ld[j]);
            } else {
                assert(l[i] == ld[i]);
                let k = choose|k: int| 0 <= k < d.len() && #[trigger] d[k].addr == ld[i];
                assert(list[k] == d[k]);
                assert(list[list.len() - 1].addr == l[j]);
            }
        }
    }
}

/// A peer's list after a history of inserts into an empty one, each insert
/// an address with the time it expires, oldest first.
pub open spec fn replay(history: Seq<(SocketAddress, u64)>) -> Seq<CachedAddress>
    decreases history.len(),
{
    if history.len() == 0 {
        Seq::empty()
    } else {
        spec_record(replay(history.drop_last()), history.last().0, history.last().1)
    }
}

/// The index of the latest insert of `addr` in `history`, or -1 when it
/// was never inserted.
pub open spec fn latest_insert(history: Seq<(SocketAddress, u64)>, addr: SocketAddress) -> int
    decreases history.len(),
{
    if history.len() == 0 {
        -1
    } else if history.last().0 == addr {
        history.len() - 1
    } else {
        latest_insert(history.drop_last(), addr)
    }
}

/// The latest insert of an address lies in the history and is an insert
/// of that address.
proof fn lemma_latest_insert(history: Seq<(SocketAddress, u64)>, addr: SocketAddress)
    ensures
        -1 <= latest_insert(history, addr) < history.len(),
        latest_insert(history, addr) >= 0 ==> history[latest_insert(history, addr)].0 == addr,
    decreases history.len(),
{
    if history.len() > 0 && history.last().0 != addr {
        lemma_latest_insert(history.drop_last(), addr);
    }
}

/// The entries of a list come in increasing order of the latest insert of
/// their address.
spec fn ordered_by_latest(list: Seq<CachedAddress>, history: Seq<(SocketAddress, u64)>) -> bool {
    forall|a: int, b: int| 0 <= a < b < list.len() ==>
        latest_insert(history, #[trigger] list[a].addr) < latest_insert(history, #[trigger] list[b].addr)
}

/// Every entry of a list other than for `addr` stays after `without_addr`.
proof fn lemma_without_addr_keeps(list: Seq<CachedAddress>, addr: SocketAddress, e: CachedAddress)
    requires
        list.contains(e),
        e.addr != addr,
    ensures
        without_addr(list, addr).contains(e),
    decreases list.len(),
{
    let rest = list.drop_last();
    let w = without_addr(rest, addr);
    if list.last() == e {
        assert(without_addr(list, addr) == w.push(e));
        assert(w.push(e)[w.len() as int] == e);
    } else {
        let k = choose|k: int| 0 <= k < list.len() && list[k] == e;
        assert(k < list.len() - 1);
        assert(rest[k] == e);
        lemma_without_addr_keeps(rest, addr, e);
        let i = choose|i: int| 0 <= i < w.len() && w[i] == e;
        if list.last().addr != addr {
            assert(w.push(list.last())[i] == e);
        }
    }
}

/// Dropping the entries of an address keeps a list ordered.
proof fn lemma_without_addr_ordered(list: Seq<CachedAddress>, addr: SocketAddress, history: Seq<(SocketAddress, u64)>)
    requires
        ordered_by_latest(list, history),
    ensures
        ordered_by_latest(without_addr(list, addr), history),
    decreases list.len(),
{
    if list.len() > 0 {
        let rest = list.drop_last();
        assert(ordered_by_latest(rest, history)) by {
            assert forall|a: int, b: int| 0 <= a < b < rest.len() implies
                latest_insert(history, #[trigger] rest[a].addr) < latest_insert(history, #[trigger] rest[b].addr) by {
                assert(rest[a] == list[a] && rest[b] == list[b]);
            }
        }
        lemma_without_addr_ordered(rest, addr, history);
        lemma_without_addr(rest, addr);
        let w = without_addr(rest, addr);
        if list.last().addr != addr {
            let w2 = w.push(list.last());
            assert forall|a: int, b: int| 0 <= a < b < w2.len() implies
                latest_insert(history, #[trigger] w2[a].addr) < latest_insert(history, #[trigger] w2[b].addr) by {
                if b == w.len() {
                    assert(w2[a] == w[a]);
                    assert(w.contains(w[a]));
                    assert(rest.contains(w[a]));
                    let k = choose|k: int| 0 <= k < rest.len() && rest[k] == w[a];
                    assert(list[k] == rest[k]);
                    assert(list[list.len() - 1] == list.last());
                } else {
                    assert(w2[a] == w[a] && w2[b] == w[b]);
                }
            }
        }
    }
}

/// Keeping the unexpired addresses keeps them ordered.
proof fn lemma_live_addrs_ordered(list: Seq<CachedAddress>, now: u64, history: Seq<(SocketAddress, u64)>)
    requires
        ordered_by_latest(list, history),
    ensures
        forall|a: int, b: int| 0 <= a < b < live_addrs(list, now).len() ==>
            latest_insert(history, #[trigger] live_addrs(list, now)[a]) < latest_insert(history, #[trigger] live_addrs(list, now)[b]),
    decreases list.len(),
{
    if list.len() > 0 {
        let rest = list.drop_last();
        assert(ordered_by_latest(rest, history)) by {
            assert forall|a: int, b: int| 0 <= a < b < rest.len() implies
                latest_insert(history, #[trigger] rest[a].addr) < latest_insert(history, #[trigger] rest[b].addr) by {
                assert(rest[a] == list[a] && rest[b] == list[b]);
            }
        }
        lemma_live_addrs_ordered(rest, now, history);
        lemma_live_addrs_from(rest, now);
        let l = live_addrs(rest, now);
        let l2 = live_addrs(list, now);
        assert forall|a: int, b: int| 0 <= a < b < l2.len() implies
            latest_insert(history, #[trigger] l2[a]) < latest_insert(history, #[trigger] l2[b]) by {
            if b < l.len() {
                assert(l2[a] == l[a] && l2[b] == l[b]);
            } else {
                assert(l2[a] == l[a]);
                let k = choose|k: int| 0 <= k < rest.len() && #[trigger] rest[k].addr == l[a];
                assert(list[k] == rest[k]);
                assert(list[list.len() - 1] == list.last());
            }
        }
    }
}

/// An address is among a list's live addresses exactly when some entry of
/// it is for that address and unexpired.
proof fn lemma_live_addrs_contains(list: Seq<CachedAddress>, now: u64, x: SocketAddress)
    ensures
        live_addrs(list, now).contains(x) <==> exists|k: int| 0 <= k < list.len() && #[trigger] list[k].addr == x && list[k].expires_at > now,
    decreases list.len(),
{
    if list.len() > 0 {
        let rest = list.drop_last();
        lemma_live_addrs_contains(rest, now, x);
        let l = live_addrs(rest, now);
        if live_addrs(list, now).contains(x) {
            let i = choose|i: int| 0 <= i < live_addrs(list, now).len() && live_addrs(list, now)[i] == x;
            if i < l.len() {
                assert(live_addrs(list, now)[i] == l[i]);
                assert(l.contains(x));
                let k = choose|k: int| 0 <= k < rest.len() && #[trigger] rest[k].addr == x && rest[k].expires_at > now;
                assert(list[k] == rest[k]);
            } else {
                assert(list[list.len() - 1] == list.last());
            }
        }
        if exists|k: int| 0 <= k < list.len() && #[trigger] list[k].addr == x && list[k].expires_at > now {
            let k = choose|k: int| 0 <= k < list.len() && #[trigger] list[k].addr == x && list[k].expires_at > now;
            if k < list.len() - 1 {
                assert(rest[k] == list[k]);
                assert(l.contains(x));
                let i = choose|i: int| 0 <= i < l.len() && l[i] == x;
                if list.last().expires_at > now {
                    assert(l.push(list.last().addr)[i] == x);
                }
            } else {
                assert(list.last() == list[k]);
                let l2 = l.push(list.last().addr);
                assert(l2[l.len() as int] == x);
            }
        }
    }
}

/// What the list replayed from a history holds: one entry per inserted
/// address, with the expiry of its latest insert, ordered by latest insert.
proof fn lemma_replay(history: Seq<(SocketAddress, u64)>)
    ensures
        forall|k: int| 0 <= k < replay(history).len() ==> latest_insert(history, #[trigger] replay(history)[k].addr) >= 0
            && history[latest_insert(history, replay(history)[k].addr)] == (replay(history)[k].addr, replay(history)[k].expires_at),
        forall|x: SocketAddress| latest_insert(history, x) >= 0 ==>
            exists|k: int| 0 <= k < replay(history).len() && #[trigger] replay(history)[k].addr == x,
        ordered_by_latest(replay(history), history),
    decreases history.len(),
{
    if history.len() > 0 {
        let h = history.drop_last();
        let (x, e) = history.last();
        lemma_replay(h);
        let r = replay(h);
        let w = without_addr(r, x);
        let r2 = replay(history);
        assert(r2 == w.push(CachedAddress { addr: x, expires_at: e }));
        lemma_without_addr(r, x);
        lemma_without_addr_ordered(r, x, h);
        assert forall|k: int| 0 <= k < r2.len() implies latest_insert(history, #[trigger] r2[k].addr) >= 0
            && history[latest_insert(history, r2[k].addr)] == (r2[k].addr, r2[k].expires_at) by {
            if k < w.len() {
                assert(r2[k] == w[k]);
                assert(w[k].addr != x);
                assert(w.contains(w[k]));
                assert(r.contains(w[k]));
                let j = choose|j: int| 0 <= j < r.len() && r[j] == w[k];
                assert(r[j].addr == w[k].addr);
                lemma_latest_insert(h, w[k].addr);
                assert(history[latest_insert(h, w[k].addr)] == h[latest_insert(h, w[k].addr)]);
            }
        }
        assert forall|y: SocketAddress| latest_insert(history, y) >= 0 implies
            exists|k: int| 0 <= k < r2.len() && #[trigger] r2[k].addr == y by {
            if y == x {
                assert(r2[w.len() as int].addr == y);
            } else {
                assert(latest_insert(history, y) == latest_insert(h, y));
                let j = choose|j: int| 0 <= j < r.len() && #[trigger] r[j].addr == y;
                assert(r.contains(r[j]));
                lemma_without_addr_keeps(r, x, r[j]);
                let k = choose|k: int| 0 <= k < w.len() && w[k] == r[j];
                assert(r2[k] == w[k]);
            }
        }
        assert forall|a: int, b: int| 0 <= a < b < r2.len() implies
            latest_insert(history, #[trigger] r2[a].addr) < latest_insert(history, #[trigger] r2[b].addr) by {
            assert(r2[a] == w[a]);
            assert(w[a].addr != x);
            lemma_latest_insert(h, w[a].addr);
            if b < w.len() {
                assert(r2[b] == w[b]);
                assert(w[b].addr != x);
            }
        }
    }
}

/// Inserting into a peer's list extends its history: a list replayed from
/// a history, after [`PeerAddressCache::insert_with_ttl`] records `addr`
/// to expire at `expires_at`, is the replay of the history with that insert
/// appended.
pub proof fn law_insert_extends_history(history: Seq<(SocketAddress, u64)>, addr: SocketAddress, expires_at: u64)
    ensures
        spec_record(replay(history), addr, expires_at) == replay(history.push((addr, expires_at))),
{
    assert(history.push((addr, expires_at)).drop_last() =~= history);
}

/// After a history of inserts into an empty list, a lookup at `now` gives
/// exactly the addresses whose latest insert has not expired at `now`, each
/// once, in order of their latest insert (re-inserting an address moves it
/// to the end).
pub proof fn law_lookup_after_inserts(history: Seq<(SocketAddress, u64)>, now: u64)
    ensures
        forall|x: SocketAddress| #[trigger] live_addrs(replay(history), now).contains(x) <==>
            (latest_insert(history, x) >= 0 && history[latest_insert(history, x)].1 > now),
        forall|a: int, b: int| 0 <= a < b < live_addrs(replay(history), now).len() ==>
            latest_insert(history, #[trigger] live_addrs(replay(history), now)[a])
                < latest_insert(history, #[trigger] live_addrs(replay(history), now)[b]),
        forall|a: int, b: int| 0 <= a < b < live_addrs(replay(history), now).len() ==>
            #[trigger] live_addrs(replay(history), now)[a] != #[trigger] live_addrs(replay(history), now)[b],
{
    lemma_replay(history);
    let r = replay(history);
    lemma_live_addrs_ordered(r, now, history);
    assert forall|x: SocketAddress| #[trigger] live_addrs(r, now).contains(x) <==>
        (latest_insert(history, x) >= 0 && history[latest_insert(history, x)].1 > now) by {
        lemma_live_addrs_contains(r, now, x);
        if latest_insert(history, x) >= 0 {
            let k = choose|k: int| 0 <= k < r.len() && #[trigger] r[k].addr == x;
            assert(history[latest_insert(history, r[k].addr)] == (r[k].addr, r[k].expires_at));
        }
    }
}

/// Pruning at `now` keeps exactly the entries that expire after `now`, in
/// their order, and keeps a peer exactly when one of its entries does: an
/// entry that expires at or before `now` is dropped.
pub proof fn law_prune_keeps_unexpired(m: Map<PeerId, Seq<CachedAddress>>, now: u64, peer: PeerId, e: CachedAddress)
    ensures
        m.contains_key(peer) ==> (live_entries(m[peer], now).contains(e) <==> (m[peer].contains(e) && e.expires_at > now)),
        spec_pruned(m, now).contains_key(peer) <==> (m.contains_key(peer)
            && exists|k: int| 0 <= k < m[peer].len() && #[trigger] m[peer][k].expires_at > now),
        spec_pruned(m, now).contains_key(peer) ==> spec_pruned(m, now)[peer] == live_entries(m[peer], now),
{
    if m.contains_key(peer) {
        lemma_live_entries_contains(m[peer], now, e);
        lemma_live_entries_nonempty(m[peer], now);
    }
}

/// An entry is among a list's live entries exactly when it is in the list
/// and unexpired.
proof fn lemma_live_entries_contains(list: Seq<CachedAddress>, now: u64, e: CachedAddress)
    ensures
        live_entries(list, now).contains(e) <==> (list.contains(e) && e.expires_at > now),
    decreases list.len(),
{
    if list.len() > 0 {
        let rest = list.drop_last();
        lemma_live_entries_contains(rest, now, e);
        let l = live_entries(rest, now);
        let l2 = live_entries(list, now);
        if l2.contains(e) {
            let i = choose|i: int| 0 <= i < l2.len() && l2[i] == e;
            if i < l.len() {
                assert(l2[i] == l[i]);
                assert(l.contains(e));
                let k = choose|k: int| 0 <= k < rest.len() && rest[k] == e;
                assert(list[k] == e);
            } else {
                assert(list[list.len() - 1] == e);
            }
        }
        if list.contains(e) && e.expires_at > now {
            let k = choose|k: int| 0 <= k < list.len() && list[k] == e;
            if k < list.len() - 1 {
                assert(rest[k] == e);
                let i = choose|i: int| 0 <= i < l.len() && l[i] == e;
                if list.last().expires_at > now {
                    assert(l2[i] == e);
                }
            } else {
                assert(l2[l.len() as int] == e);
            }
        }
    }
}

/// A list has live entries exactly when some entry of it is unexpired.
proof fn lemma_live_entries_nonempty(list: Seq<CachedAddress>, now: u64)
    ensures
        live_entries(list, now).len() > 0 <==> exists|k: int| 0 <= k < list.len() && #[trigger] list[k].expires_at > now,
    decreases list.len(),
{
    if list.len() > 0 {
        let rest = list.drop_last();
        lemma_live_entries_nonempty(rest, now);
        if exists|k: int| 0 <= k < rest.len() && #[trigger] rest[k].expires_at > now {
            let k = choose|k: int| 0 <= k < rest.len() && #[trigger] rest[k].expires_at > now;
            assert(list[k] == rest[k]);
        }
        if exists|k: int| 0 <= k < list.len() && #[trigger] list[k].expires_at > now {
            let k = choose|k: int| 0 <= k < list.len() && #[trigger] list[k].expires_at > now;
            if k < list.len() - 1 {
                assert(rest[k] == list[k]);
            }
        }
    }
}

/// Local cache mapping PeerIds to known network endpoints.
pub struct PeerAddressCache {
    inner: DashMap<PeerId, Vec<CachedAddress>>,
}

impl PeerAddressCache {
    /// The cached entries of each peer.
    pub closed spec fn entries(&self) -> Map<PeerId, Seq<CachedAddress>> {
        cache_entries(&self.inner)
    }

    /// The cache's invariant: no peer lists an address twice.
    pub open spec fn wf(&self) -> bool {
        forall|k: PeerId| #[trigger] self.entries().contains_key(k) ==> distinct_addrs(self.entries()[k])
    }

    /// Create a new, empty cache.
    pub fn new() -> (c: Self)
        ensures
            c.wf(),
            c.entries() == Map::<PeerId, Seq<CachedAddress>>::empty(),
    {
        PeerAddressCache { inner: cache_map_new() }
    }

    /// The entries cached for a peer (empty when none).
    pub open spec fn list_of(&self, peer_id: PeerId) -> Seq<CachedAddress> {
        if self.entries().contains_key(peer_id) { self.entries()[peer_id] } else { Seq::empty() }
    }

    /// Add a discovered address for a peer with the default TTL.
    pub fn insert(&mut self, peer_id: PeerId, addr: SocketAddress, now: u64)
        requires
            now + DEFAULT_TTL_MS <= u64::MAX,
        ensures
            old(self).wf() ==> final(self).wf(),
            final(self).entries() == old(self).entries().insert(peer_id, spec_record(old(self).list_of(peer_id), addr, (now + DEFAULT_TTL_MS) as u64)),
    {
        self.insert_with_ttl(peer_id, addr, DEFAULT_TTL_MS, now);
    }

    /// Add a discovered address for a peer that expires `ttl_ms` after
    /// `now`; an earlier entry of the same address is replaced.
    pub fn insert_with_ttl(&mut self, peer_id: PeerId, addr: SocketAddress, ttl_ms: u64, now: u64)
        requires
            now + ttl_ms <= u64::MAX,
        ensures
            old(self).wf() ==> final(self).wf(),
            final(self).entries() == old(self).entries().insert(peer_id, spec_record(old(self).list_of(peer_id), addr, (now + ttl_ms) as u64)),
    {
        let entry = CachedAddress { addr, expires_at: now + ttl_ms };
        let list = match cache_map_get(&self.inner, &peer_id) {
            Some(l) => l,
            None => Vec::new(),
        };
        let mut kept = without_addr_exec(&list, &addr);
        kept.push(entry);
        cache_map_insert(&mut self.inner, peer_id, kept);
        proof {
            if old(self).wf() {
                assert(distinct_addrs(old(self).list_of(peer_id)));
                law_record_keeps_addrs_distinct(old(self).list_of(peer_id), addr, (now + ttl_ms) as u64);
            }
        }
    }

    /// Add several addresses for a peer, in order, each with the default TTL.
    pub fn insert_many(&mut self, peer_id: PeerId, addrs: Vec<SocketAddress>, now: u64)
        requires
            now + DEFAULT_TTL_MS <= u64::MAX,
        ensures
            old(self).wf() ==> final(self).wf(),
            final(self).entries() == (if addrs@.len() == 0 { old(self).entries() } else {
                old(self).entries().insert(peer_id, spec_record_all(old(self).list_of(peer_id), addrs@, (now + DEFAULT_TTL_MS) as u64))
            }),
            forall|i: int| 0 <= i < addrs@.len() ==> live_addrs(final(self).list_of(peer_id), now).contains(#[trigger] addrs@[i]),
    {
        let mut i: usize = 0;
        while i < addrs.len()
            invariant
                i <= addrs@.len(),
                now + DEFAULT_TTL_MS <= u64::MAX,
                old(self).wf() ==> self.wf(),
                self.entries() == (if i == 0 { old(self).entries() } else {
                    old(self).entries().insert(peer_id, spec_record_all(old(self).list_of(peer_id), addrs@.take(i as int), (now + DEFAULT_TTL_MS) as u64))
                }),
                forall|j: int| 0 <= j < i ==> live_addrs(self.list_of(peer_id), now).contains(#[trigger] addrs@[j]),
            decreases addrs@.len() - i,
        {
            let a = addrs[i];
            let ghost before = self.list_of(peer_id);
            self.insert(peer_id, a, now);
            proof {
                let exp = (now + DEFAULT_TTL_MS) as u64;
                assert(addrs@.take(i + 1).drop_last() =~= addrs@.take(i as int));
                assert(spec_record_all(old(self).list_of(peer_id), addrs@.take(0), exp) == old(self).list_of(peer_id));
                assert(self.entries() =~= old(self).entries().insert(peer_id, spec_record_all(old(self).list_of(peer_id), addrs@.take(i + 1), exp)));
                law_recorded_addr_is_live(before, a, exp, now);
                assert forall|j: int| 0 <= j < i + 1 implies live_addrs(self.list_of(peer_id), now).contains(#[trigger] addrs@[j]) by {
                    if j < i {
                        lemma_live_survives_record(before, addrs@[j], a, exp, now);
                    }
                }
            }
            i = i + 1;
        }
        assert(addrs@.take(addrs@.len() as int) =~= addrs@);
    }

    /// Get all unexpired addresses of a peer at `now`, oldest entry first.
    pub fn lookup(&self, peer_id: &PeerId, now: u64) -> (addrs: Vec<SocketAddress>)
        ensures
            addrs@ == live_addrs(self.list_of(*peer_id), now),
            self.wf() ==> forall|i: int, j: int| 0 <= i < j < addrs@.len() ==> #[trigger] addrs@[i] != #[trigger] addrs@[j],
    {
        proof {
            if self.wf() {
                if self.entries().contains_key(*peer_id) {
                    law_live_addrs_distinct(self.entries()[*peer_id], now);
                }
            }
        }
        match cache_map_get(&self.inner, peer_id) {
            Some(list) => live_addrs_exec(&list, now),
            None => Vec::new(),
        }
    }

    /// Remove a peer's cached records.
    pub fn remove(&mut self, peer_id: &PeerId)
        ensures
            old(self).wf() ==> final(self).wf(),
            final(self).entries() == old(self).entries().remove(*peer_id),
    {
        cache_map_remove(&mut self.inner, peer_id);
    }

    /// Drop expired addresses at `now`, and peers left without addresses.
    pub fn prune(&mut self, now: u64)
        ensures
            old(self).wf() ==> final(self).wf(),
            final(self).entries() == spec_pruned(old(self).entries(), now),
    {
        cache_map_prune(&mut self.inner, now);
        proof {
            if old(self).wf() {
                assert forall|k: PeerId| #[trigger] self.entries().contains_key(k) implies distinct_addrs(self.entries()[k]) by {
                    assert(old(self).entries().contains_key(k));
                    lemma_live_entries(old(self).entries()[k], now);
                }
            }
        }
    }

    /// Every peer with at least one unexpired address at `now`, with those
    /// addresses; each peer once.
    pub fn all_peers(&self, now: u64) -> (peers: Vec<(PeerId, Vec<SocketAddress>)>)
        ensures
            forall|i: int| 0 <= i < peers@.len() ==> self.entries().contains_key(#[trigger] peers@[i].0)
                && peers@[i].1@ == live_addrs(self.entries()[peers@[i].0], now) && peers@[i].1@.len() > 0,
            forall|k: PeerId| #[trigger] self.entries().contains_key(k) && live_addrs(self.entries()[k], now).len() > 0
                ==> exists|i: int| 0 <= i < peers@.len() && peers@[i].0 == k,
            forall|i: int, j: int| 0 <= i < j < peers@.len() ==> #[trigger] peers@[i].0 != #[trigger] peers@[j].0,
    {
        let all = cache_map_entries(&self.inner);
        let ghost views = all@.map_values(|e: (PeerId, Vec<CachedAddress>)| (e.0, e.1@));
        let mut peers: Vec<(PeerId, Vec<SocketAddress>)> = Vec::new();
        let mut i: usize = 0;
        while i < all.len()
            invariant
                i <= all@.len(),
                views == all@.map_values(|e: (PeerId, Vec<CachedAddress>)| (e.0, e.1@)),
                lists_entries(self.entries(), views),
                forall|a: int| 0 <= a < peers@.len() ==> self.entries().contains_key(#[trigger] peers@[a].0)
                    && peers@[a].1@ == live_addrs(self.entries()[peers@[a].0], now) && peers@[a].1@.len() > 0,
                forall|a: int| 0 <= a < peers@.len() ==> exists|t: int| 0 <= t < i && #[trigger] peers@[a].0 == all@[t].0,
                forall|t: int| 0 <= t < i && live_addrs(self.entries()[#[trigger] all@[t].0], now).len() > 0
                    ==> exists|a: int| 0 <= a < peers@.len() && peers@[a].0 == all@[t].0,
                forall|a: int, b: int| 0 <= a < b < peers@.len() ==> #[trigger] peers@[a].0 != #[trigger] peers@[b].0,
            decreases all@.len() - i,
        {
            let k = all[i].0;
            assert(views[i as int] == (all@[i as int].0, all@[i as int].1@));
            assert(self.entries().contains_key(views[i as int].0));
            assert(self.entries()[k] == all@[i as int].1@);
            let live = live_addrs_exec(&all[i].1, now);
            if live.len() > 0 {
                let ghost prev = peers@;
                proof {
                    assert forall|a: int| 0 <= a < prev.len() implies prev[a].0 != k by {
                        let t = choose|t: int| 0 <= t < i && #[trigger] prev[a].0 == all@[t].0;
                        assert(views[t].0 == all@[t].0);
                        assert(views[i as int].0 == k);
                    }
                }
                peers.push((k, live));
                proof {
                    assert forall|a: int| 0 <= a < peers@.len() implies exists|t: int| 0 <= t < i + 1 && #[trigger] peers@[a].0 == all@[t].0 by {
                        if a < prev.len() {
                            assert(peers@[a] == prev[a]);
                        } else {
                            assert(peers@[a].0 == all@[i as int].0);
                        }
                    }
                    assert forall|t: int| 0 <= t < i + 1 && live_addrs(self.entries()[#[trigger] all@[t].0], now).len() > 0
                        implies exists|a: int| 0 <= a < peers@.len() && peers@[a].0 == all@[t].0 by {
                        if t < i {
                            let a = choose|a: int| 0 <= a < prev.len() && prev[a].0 == all@[t].0;
                            assert(peers@[a] == prev[a]);
                        } else {
                            assert(peers@[prev.len() as int].0 == all@[t].0);
                        }
                    }
                }
            }
            i = i + 1;
        }
        proof {
            assert forall|k: PeerId| #[trigger] self.entries().contains_key(k) && live_addrs(self.entries()[k], now).len() > 0
                implies exists|i: int| 0 <= i < peers@.len() && peers@[i].0 == k by {
                let t = choose|t: int| 0 <= t < views.len() && views[t].0 == k;
                assert(all@[t].0 == k);
            }
        }
        peers
    }
}

/// The live entries of a list are entries of it, and keep its addresses
/// distinct.
proof fn lemma_live_entries(list: Seq<CachedAddress>, now: u64)
    ensures
        forall|e: CachedAddress| live_entries(list, now).contains(e) ==> list.contains(e),
        distinct_addrs(list) ==> distinct_addrs(live_entries(list, now)),
    decreases list.len(),
{
    if list.len() > 0 {
        let rest = list.drop_last();
        lemma_live_entries(rest, now);
        let l = live_entries(rest, now);
        assert forall|e: CachedAddress| l.contains(e) implies list.contains(e) by {
            assert(rest.contains(e));
            let j = choose|j: int| 0 <= j < rest.len() && rest[j] == e;
            assert(list[j] == e);
        }
        if list.last().expires_at > now {
            let l2 = l.push(list.last());
            assert forall|e: CachedAddress| l2.contains(e) implies list.contains(e) by {
                let i = choose|i: int| 0 <= i < l2.len() && l2[i] == e;
                if i < l.len() {
                    assert(l.contains(e));
                } else {
                    assert(list[list.len() - 1] == e);
                }
            }
            if distinct_addrs(list) {
                assert(distinct_addrs(rest));
                assert forall|i: int, j: int| 0 <= i < j < l2.len() implies #[trigger] l2[i].addr != #[trigger] l2[j].addr by {
                    if j == l2.len() - 1 {
                        assert(l.contains(l2[i]));
                        assert(rest.contains(l2[i]));
                        let k = choose|k: int| 0 <= k < rest.len() && rest[k] == l2[i];
                        assert(list[k] == rest[k]);
                        assert(list[list.len() - 1] == list.last());
                    } else {
                        assert(l2[i] == l[i] && l2[j] == l[j]);
                    }
                }
            }
        }
    }
}

/// An address live before another is recorded stays live afterwards.
proof fn lemma_live_survives_record(list: Seq<CachedAddress>, x: SocketAddress, addr: SocketAddress, expires_at: u64, now: u64)
    requires
        live_addrs(list, now).contains(x),
        expires_at > now,
    ensures
        live_addrs(spec_record(list, addr, expires_at), now).contains(x),
{
    law_recorded_addr_is_live(list, addr, expires_at, now);
    if x != addr {
        lemma_live_without(list, x, addr, now);
        let r = spec_record(list, addr, expires_at);
        assert(r.drop_last() =~= without_addr(list, addr));
        let l = live_addrs(without_addr(list, addr), now);
        let i = choose|i: int| 0 <= i < l.len() && l[i] == x;
        assert(live_addrs(r, now)[i] == x);
    }
}

/// Removing the entries of another address keeps `x` live.
proof fn lemma_live_without(list: Seq<CachedAddress>, x: SocketAddress, addr: SocketAddress, now: u64)
    requires
        live_addrs(list, now).contains(x),
        x != addr,
    ensures
        live_addrs(without_addr(list, addr), now).contains(x),
    decreases list.len(),
{
    let rest = list.drop_last();
    let lr = live_addrs(rest, now);
    let l = live_addrs(list, now);
    let w = without_addr(rest, addr);
    if lr.contains(x) {
        lemma_live_without(rest, x, addr, now);
        let lw = live_addrs(w, now);
        let i = choose|i: int| 0 <= i < lw.len() && lw[i] == x;
        if list.last().addr != addr {
            let w2 = w.push(list.last());
            assert(w2.drop_last() =~= w);
            if list.last().expires_at > now {
                assert(live_addrs(w2, now)[i] == x);
            }
        }
    } else {
        assert(list.last().expires_at > now && list.last().addr == x) by {
            if !(list.last().expires_at > now) {
                assert(l == lr);
            } else {
                let i = choose|i: int| 0 <= i < l.len() && l[i] == x;
                if i < lr.len() {
                    assert(l[i] == lr[i]);
                }
            }
        }
        let w2 = w.push(list.last());
        assert(w2.drop_last() =~= w);
        let lw2 = live_addrs(w2, now);
        assert(lw2[lw2.len() - 1] == x);
    }
}

} // verus!
