//! The route graph: the directed links of the mesh topology, each with the
//! metrics last measured for it. `M` is the metrics' type; the search for
//! the cheapest route over them is the caller's.

use vstd::prelude::*;

use crate::assoc::{
    assoc_map, has_key, keys_unique, lemma_assoc_dom, lemma_assoc_index, lemma_assoc_push,
    lemma_assoc_remove, lemma_assoc_update,
};
use crate::types::PeerId;

verus! {

/// Dynamic directed topology graph of mesh connections.
///
/// The links are a vector of `((from, to), metrics)` pairs, one per
/// directed link, in the order the links were first added. `M` is a link's
/// metrics, which the caller defines.
pub struct RouteGraph<M> {
    links: Vec<((PeerId, PeerId), M)>,
}

/// The links out of `from` among `s`, in order, as destination and
/// metrics.
pub open spec fn links_from<M>(s: Seq<((PeerId, PeerId), M)>, from: PeerId) -> Seq<(PeerId, M)>
    decreases s.len(),
{
    if s.len() == 0 {
        Seq::empty()
    } else {
        let rest = links_from(s.drop_last(), from);
        if s.last().0.0 == from {
            rest.push((s.last().0.1, s.last().1))
        } else {
            rest
        }
    }
}

/// Dropping the last entry keeps keys distinct.
proof fn lemma_unique_drop_last<K, V>(s: Seq<(K, V)>)
    requires
        keys_unique(s),
        s.len() > 0,
    ensures
        keys_unique(s.drop_last()),
{
    let d = s.drop_last();
    assert forall|a: int, b: int| 0 <= a < b < d.len() implies #[trigger] d[a].0 != #[trigger] d[b].0 by {
        assert(d[a] == s[a]);
        assert(d[b] == s[b]);
    }
}

/// The links out of `from` are exactly the map's links out of `from`, each
/// destination once.
proof fn lemma_links_from<M>(s: Seq<((PeerId, PeerId), M)>, from: PeerId)
    requires
        keys_unique(s),
    ensures
        forall|j: int| 0 <= j < links_from(s, from).len() ==>
            assoc_map(s).contains_key((from, #[trigger] links_from(s, from)[j].0))
            && assoc_map(s)[(from, links_from(s, from)[j].0)] == links_from(s, from)[j].1,
        forall|to: PeerId| #[trigger] assoc_map(s).contains_key((from, to)) ==>
            exists|j: int| 0 <= j < links_from(s, from).len() && #[trigger] links_from(s, from)[j].0 == to,
        forall|a: int, b: int| 0 <= a < b < links_from(s, from).len() ==>
            #[trigger] links_from(s, from)[a].0 != #[trigger] links_from(s, from)[b].0,
    decreases s.len(),
{
    if s.len() > 0 {
        let d = s.drop_last();
        let last = s.last();
        lemma_unique_drop_last(s);
        lemma_links_from(d, from);
        let rest = links_from(d, from);
        let nb = links_from(s, from);
        assert(assoc_map(s) == assoc_map(d).insert(last.0, last.1));
        // The last key is no key of the rest.
        lemma_assoc_dom(d, last.0);
        if has_key(d, last.0) {
            let k = choose|k: int| 0 <= k < d.len() && #[trigger] d[k].0 == last.0;
            assert(s[k].0 == s[s.len() - 1].0);
        }
        assert forall|j: int| 0 <= j < nb.len() implies
            assoc_map(s).contains_key((from, #[trigger] nb[j].0)) && assoc_map(s)[(from, nb[j].0)] == nb[j].1 by {
            if j < rest.len() {
                assert(nb[j] == rest[j]);
                assert(assoc_map(d).contains_key((from, rest[j].0)));
            }
        }
        assert forall|to: PeerId| #[trigger] assoc_map(s).contains_key((from, to)) implies
            exists|j: int| 0 <= j < nb.len() && #[trigger] nb[j].0 == to by {
            if last.0 == (from, to) {
                assert(nb[nb.len() - 1].0 == to);
            } else {
                assert(assoc_map(d).contains_key((from, to)));
                let j = choose|j: int| 0 <= j < rest.len() && #[trigger] rest[j].0 == to;
                assert(nb[j] == rest[j]);
            }
        }
        assert forall|a: int, b: int| 0 <= a < b < nb.len() implies #[trigger] nb[a].0 != #[trigger] nb[b].0 by {
            if b < rest.len() {
                assert(nb[a] == rest[a]);
                assert(nb[b] == rest[b]);
            } else {
                assert(nb[a] == rest[a]);
                assert(assoc_map(d).contains_key((from, rest[a].0)));
            }
        }
    }
}

/// The position of the link `(from, to)`, if any.
fn link_position<M>(links: &Vec<((PeerId, PeerId), M)>, from: &PeerId, to: &PeerId) -> (pos: Option<usize>)
    ensures
        match pos {
            Some(i) => i < links@.len() && links@[i as int].0 == (*from, *to),
            None => !has_key(links@, (*from, *to)),
        },
{
    let mut i: usize = 0;
    while i < links.len()
        invariant
            i <= links@.len(),
            forall|j: int| 0 <= j < i ==> #[trigger] links@[j].0 != (*from, *to),
        decreases links@.len() - i,
    {
        let key = &links[i].0;
        if key.0.same_as(from) && key.1.same_as(to) {
            return Some(i);
        }
        i = i + 1;
    }
    None
}

impl<M> RouteGraph<M> {
    /// The links of the graph, each with its metrics.
    pub closed spec fn links(&self) -> Map<(PeerId, PeerId), M> {
        assoc_map(self.links@)
    }

    #[verifier::type_invariant]
    closed spec fn inv(&self) -> bool {
        keys_unique(self.links@)
    }

    /// Create a new, empty route graph.
    pub fn new() -> (g: Self)
        ensures
            g.links() == Map::<(PeerId, PeerId), M>::empty(),
    {
        RouteGraph { links: Vec::new() }
    }

    /// Add or update a directed link in the graph.
    pub fn add_link(&mut self, from: PeerId, to: PeerId, metrics: M)
        ensures
            final(self).links() == old(self).links().insert((from, to), metrics),
    {
        proof { use_type_invariant(&*self); }
        let mut links = Vec::new();
        std::mem::swap(&mut links, &mut self.links);
        let ghost before = links@;
        match link_position(&links, &from, &to) {
            Some(i) => {
                proof { lemma_assoc_update(before, i as int, metrics); }
                links.remove(i);
                links.insert(i, ((from, to), metrics));
                assert(links@ =~= before.update(i as int, (before[i as int].0, metrics)));
            },
            None => {
                proof { lemma_assoc_push(before, (from, to), metrics); }
                links.push(((from, to), metrics));
            },
        }
        self.links = links;
    }

    /// Remove a directed link from the graph.
    pub fn remove_link(&mut self, from: &PeerId, to: &PeerId)
        ensures
            final(self).links() == old(self).links().remove((*from, *to)),
    {
        proof { use_type_invariant(&*self); }
        let mut links = Vec::new();
        std::mem::swap(&mut links, &mut self.links);
        let ghost before = links@;
        match link_position(&links, from, to) {
            Some(i) => {
                proof { lemma_assoc_remove(before, i as int); }
                links.remove(i);
            },
            None => {
                proof {
                    lemma_assoc_dom(before, (*from, *to));
                    assert(assoc_map(before).remove((*from, *to)) =~= assoc_map(before));
                }
            },
        }
        self.links = links;
    }

    /// The metrics of the directed link `(from, to)`, if it exists.
    pub fn get_link(&self, from: &PeerId, to: &PeerId) -> (m: Option<&M>)
        ensures
            match m {
                Some(v) => self.links().contains_key((*from, *to)) && *v == self.links()[(*from, *to)],
                None => !self.links().contains_key((*from, *to)),
            },
    {
        proof { use_type_invariant(self); }
        match link_position(&self.links, from, to) {
            Some(i) => {
                proof { lemma_assoc_index(self.links@, i as int); }
                Some(&self.links[i].1)
            },
            None => {
                proof { lemma_assoc_dom(self.links@, (*from, *to)); }
                None
            },
        }
    }
}

impl<M: Copy> RouteGraph<M> {
    /// The links out of `from`: each destination once, with its metrics.
    pub fn neighbours(&self, from: &PeerId) -> (out: Vec<(PeerId, M)>)
        ensures
            forall|j: int| 0 <= j < out@.len() ==>
                self.links().contains_key((*from, #[trigger] out@[j].0)) && self.links()[(*from, out@[j].0)] == out@[j].1,
            forall|to: PeerId| #[trigger] self.links().contains_key((*from, to)) ==>
                exists|j: int| 0 <= j < out@.len() && #[trigger] out@[j].0 == to,
            forall|a: int, b: int| 0 <= a < b < out@.len() ==> #[trigger] out@[a].0 != #[trigger] out@[b].0,
    {
        proof { use_type_invariant(self); }
        let mut out: Vec<(PeerId, M)> = Vec::new();
        let mut i: usize = 0;
        while i < self.links.len()
            invariant
                i <= self.links@.len(),
                out@ == links_from(self.links@.take(i as int), *from),
            decreases self.links@.len() - i,
        {
            assert(self.links@.take(i + 1).drop_last() =~= self.links@.take(i as int));
            let key = self.links[i].0;
            if key.0.same_as(from) {
                out.push((key.1, self.links[i].1));
            }
            i = i + 1;
        }
        assert(self.links@.take(self.links@.len() as int) =~= self.links@);
        proof { lemma_links_from(self.links@, *from); }
        out
    }
}

} // verus!
