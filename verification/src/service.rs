//! Messages of the built-in services: chat, remote procedure calls and
//! publish/subscribe. Their encoding to bytes is the caller's.

use vstd::prelude::*;
use vstd::string::*;

use crate::error::{spec_message, OmniMeshError};

use crate::assoc::{assoc_map, has_key, keys_unique, lemma_assoc_dom, lemma_assoc_index, lemma_assoc_push, lemma_assoc_remove, lemma_assoc_update};

verus! {

/// Chat message packet.
#[derive(Debug, Clone)]
pub struct ChatMessage {
    /// The text of the message.
    pub text: String,
}

/// RPC request/response packet.
#[derive(Debug)]
pub enum RpcMessage {
    /// A call of `method` with the request bytes.
    Request { request_id: u64, method: String, payload: Vec<u8> },
    /// The answer to request `request_id`: the result bytes or the error text.
    Response { request_id: u64, payload: Result<Vec<u8>, String> },
}

/// PubSub publication packet.
#[derive(Debug, Clone)]
pub struct PubSubMessage {
    /// The topic published to.
    pub topic: String,
    /// The published bytes.
    pub payload: Vec<u8>,
}

/// The response to request `request_id` for the handler's result: the
/// result bytes, or the error's text.
pub fn rpc_response(request_id: u64, result: Result<Vec<u8>, OmniMeshError>) -> (m: RpcMessage)
    ensures
        match m {
            RpcMessage::Response { request_id: id, payload } => id == request_id && match (result, payload) {
                (Ok(r), Ok(p)) => p@ == r@,
                (Err(e), Err(t)) => t@ == spec_message(e),
                _ => false,
            },
            _ => false,
        },
{
    match result {
        Ok(bytes) => RpcMessage::Response { request_id, payload: Ok(bytes) },
        Err(e) => RpcMessage::Response { request_id, payload: Err(e.to_string()) },
    }
}

/// What a call returns for the response it got: the result bytes, or a
/// service error naming the remote error.
pub fn rpc_call_result(response: Result<Vec<u8>, String>) -> (res: Result<Vec<u8>, OmniMeshError>)
    ensures
        match (response, res) {
            (Ok(b), Ok(r)) => r@ == b@,
            (Err(t), Err(OmniMeshError::Service(m))) => m@ == "RPC error: "@ + t@,
            _ => false,
        },
{
    match response {
        Ok(bytes) => Ok(bytes),
        Err(text) => {
            let mut m = "RPC error: ".to_owned();
            m.append(text.as_str());
            Err(OmniMeshError::Service(m))
        },
    }
}

/// The calls awaiting their response, each under its request id, and the
/// id the next call takes. `T` is what completes a call (the caller's
/// response channel).
///
/// The calls are a vector of `(request id, handle)` pairs, at most one per
/// id, in the order they were registered; [`PendingCalls::complete`] hands
/// back the very handle registered under the id.
pub struct PendingCalls<T> {
    next_request_id: u64,
    pending: Vec<(u64, T)>,
}

/// The position of the entry with key `id`, if any.
fn position_of<T>(entries: &Vec<(u64, T)>, id: u64) -> (pos: Option<usize>)
    ensures
        match pos {
            Some(i) => i < entries@.len() && entries@[i as int].0 == id,
            None => !has_key(entries@, id),
        },
{
    let mut i: usize = 0;
    while i < entries.len()
        invariant
            i <= entries@.len(),
            forall|j: int| 0 <= j < i ==> #[trigger] entries@[j].0 != id,
        decreases entries@.len() - i,
    {
        if entries[i].0 == id {
            return Some(i);
        }
        i = i + 1;
    }
    None
}

impl<T> PendingCalls<T> {
    /// The calls awaiting a response, by request id.
    pub closed spec fn calls(&self) -> Map<u64, T> {
        assoc_map(self.pending@)
    }

    /// The id the next call takes.
    pub closed spec fn spec_next_request_id(&self) -> u64 {
        self.next_request_id
    }

    #[verifier::type_invariant]
    closed spec fn inv(&self) -> bool {
        keys_unique(self.pending@)
    }

    /// No call pending; the first call takes id 1.
    pub fn new() -> (c: Self)
        ensures
            c.calls() == Map::<u64, T>::empty(),
            c.spec_next_request_id() == 1,
    {
        PendingCalls { next_request_id: 1, pending: Vec::new() }
    }

    /// Start a call: it takes the next id (ids then move on by one,
    /// wrapping as an atomic counter does) and waits under it, replacing a
    /// call that waited under the same id.
    pub fn register(&mut self, responder: T) -> (id: u64)
        ensures
            id == old(self).spec_next_request_id(),
            final(self).spec_next_request_id() == old(self).spec_next_request_id().wrapping_add(1),
            final(self).calls() == old(self).calls().insert(id, responder),
    {
        proof { use_type_invariant(&*self); }
        let id = self.next_request_id;
        let mut entries = Vec::new();
        std::mem::swap(&mut entries, &mut self.pending);
        match position_of(&entries, id) {
            Some(i) => {
                proof { lemma_assoc_remove(entries@, i as int); }
                entries.remove(i);
            },
            None => {},
        }
        proof {
            lemma_assoc_dom(entries@, id);
            lemma_assoc_push(entries@, id, responder);
        }
        entries.push((id, responder));
        self.pending = entries;
        self.next_request_id = self.next_request_id.wrapping_add(1);
        id
    }

    /// Complete the call waiting under `id`: it leaves the pending calls
    /// and its responder is handed back; `None` when no call waits under
    /// `id` (a response to an unknown or already answered call).
    pub fn complete(&mut self, id: u64) -> (responder: Option<T>)
        ensures
            responder == (if old(self).calls().contains_key(id) { Some(old(self).calls()[id]) } else { None::<T> }),
            final(self).calls() == old(self).calls().remove(id),
            final(self).spec_next_request_id() == old(self).spec_next_request_id(),
    {
        proof { use_type_invariant(&*self); }
        let mut entries = Vec::new();
        std::mem::swap(&mut entries, &mut self.pending);
        let res = match position_of(&entries, id) {
            Some(i) => {
                proof {
                    lemma_assoc_index(entries@, i as int);
                    lemma_assoc_remove(entries@, i as int);
                }
                let (_, r) = entries.remove(i);
                Some(r)
            },
            None => {
                proof {
                    lemma_assoc_dom(entries@, id);
                    assert(assoc_map(entries@).remove(id) =~= assoc_map(entries@));
                }
                None
            },
        };
        self.pending = entries;
        res
    }
}

/// The subscribers of each topic, in the order they subscribed. `T` is
/// what a publication is delivered to (a subscriber's channel).
///
/// The table is a vector of `(topic, subscribers)` pairs, one per topic,
/// in the order the topics were first subscribed to.
pub struct TopicTable<T> {
    topics: Vec<(String, Vec<T>)>,
}

/// The entries of a topic table, by the text of their topics.
pub open spec fn topic_entries<T>(topics: Seq<(String, Vec<T>)>) -> Seq<(Seq<char>, Seq<T>)> {
    topics.map_values(|e: (String, Vec<T>)| (e.0@, e.1@))
}

/// The position of the entry for `topic`, if any.
fn topic_position<T>(topics: &Vec<(String, Vec<T>)>, topic: &String) -> (pos: Option<usize>)
    ensures
        match pos {
            Some(i) => i < topics@.len() && topic_entries(topics@)[i as int].0 == topic@,
            None => !has_key(topic_entries(topics@), topic@),
        },
{
    let mut i: usize = 0;
    while i < topics.len()
        invariant
            i <= topics@.len(),
            forall|j: int| 0 <= j < i ==> #[trigger] topic_entries(topics@)[j].0 != topic@,
        decreases topics@.len() - i,
    {
        if topics[i].0 == *topic {
            return Some(i);
        }
        i = i + 1;
    }
    None
}

impl<T> TopicTable<T> {
    /// The subscribers of each topic.
    pub closed spec fn subscriptions(&self) -> Map<Seq<char>, Seq<T>> {
        assoc_map(topic_entries(self.topics@))
    }

    #[verifier::type_invariant]
    closed spec fn inv(&self) -> bool {
        keys_unique(topic_entries(self.topics@))
    }

    /// No topic has subscribers.
    pub fn new() -> (t: Self)
        ensures
            t.subscriptions() == Map::<Seq<char>, Seq<T>>::empty(),
    {
        let t = TopicTable { topics: Vec::new() };
        assert(topic_entries(t.topics@) =~= Seq::<(Seq<char>, Seq<T>)>::empty());
        t
    }

    /// Add a subscriber to `topic`, after those it already has.
    pub fn subscribe(&mut self, topic: &str, subscriber: T)
        ensures
            final(self).subscriptions() == old(self).subscriptions().insert(topic@,
                if old(self).subscriptions().contains_key(topic@) { old(self).subscriptions()[topic@].push(subscriber) } else { seq![subscriber] }),
    {
        proof { use_type_invariant(&*self); }
        let name = topic.to_owned();
        let mut topics = Vec::new();
        std::mem::swap(&mut topics, &mut self.topics);
        let ghost before = topics@;
        match topic_position(&topics, &name) {
            Some(i) => {
                proof {
                    lemma_assoc_index(topic_entries(before), i as int);
                }
                let (key, mut subs) = topics.remove(i);
                let ghost old_subs = subs@;
                subs.push(subscriber);
                topics.insert(i, (key, subs));
                proof {
                    assert(topic_entries(topics@) =~= topic_entries(before).update(i as int, (topic@, old_subs.push(subscriber))));
                    lemma_assoc_update(topic_entries(before), i as int, old_subs.push(subscriber));
                }
            },
            None => {
                proof {
                    lemma_assoc_dom(topic_entries(before), topic@);
                    lemma_assoc_push(topic_entries(before), topic@, seq![subscriber]);
                }
                let mut subs = Vec::new();
                subs.push(subscriber);
                topics.push((name, subs));
                proof {
                    assert(topic_entries(topics@) =~= topic_entries(before).push((topic@, seq![subscriber])));
                }
            },
        }
        self.topics = topics;
    }

    /// The subscribers of `topic`, if it has any entry.
    pub fn subscribers(&self, topic: &str) -> (subs: Option<&Vec<T>>)
        ensures
            match subs {
                Some(v) => self.subscriptions().contains_key(topic@) && v@ == self.subscriptions()[topic@],
                None => !self.subscriptions().contains_key(topic@),
            },
    {
        proof { use_type_invariant(self); }
        let name = topic.to_owned();
        match topic_position(&self.topics, &name) {
            Some(i) => {
                proof { lemma_assoc_index(topic_entries(self.topics@), i as int); }
                Some(&self.topics[i].1)
            },
            None => {
                proof { lemma_assoc_dom(topic_entries(self.topics@), topic@); }
                None
            },
        }
    }
}

/// A started call is completed by the first response to its id, which
/// hands back its responder, and by no later one; other pending calls are
/// untouched.
pub proof fn law_response_completes_call_once<T>(calls: Map<u64, T>, id: u64, responder: T, other: u64)
    requires
        other != id,
    ensures
        ({
            let started = calls.insert(id, responder);
            let answered = started.remove(id);
            &&& started.contains_key(id) && started[id] == responder
            &&& !answered.contains_key(id)
            &&& answered.remove(id) == answered
            &&& (answered.contains_key(other) <==> calls.contains_key(other))
            &&& (calls.contains_key(other) ==> answered[other] == calls[other])
        }),
{
    let started = calls.insert(id, responder);
    let answered = started.remove(id);
    assert(answered.remove(id) =~= answered);
}

} // verus!
