//! The state and answers behind the JSON-RPC interface: the registry of
//! peer-list subscriptions, the replies to `info`, `peers` and
//! `node_buckets`, and the errors the interface reports.

use vstd::prelude::*;
use std::collections::HashMap;
use crate::server::{BloomHandler, PeerId, PeerInfo};
use vstd::std_specs::iter::IteratorSpec;

verus! {

broadcast use vstd::std_specs::hash::group_hash_axioms;

/// The only parameter that a peer-list subscription accepts.
pub const PEERS_SUBSCRIPTION_PARAM: u64 = 10;

/// The errors that the interface reports; both are JSON-RPC "invalid
/// params" errors.
#[derive(Clone, Copy, Debug, PartialEq, Eq)]
pub enum RpcError {
    /// A subscription asked with a parameter other than 10.
    InvalidSubscriptionParams,
    /// An unsubscription from a subscription that is not active.
    InvalidSubscription,
}

impl RpcError {
    /// The message that goes with the error.
    pub fn message(&self) -> (text: &'static str)
        ensures
            text@ == (match self {
                RpcError::InvalidSubscriptionParams => "Rejecting subscription - invalid parameters provided."@,
                RpcError::InvalidSubscription => "Invalid subscription."@,
            }),
    {
        match self {
            RpcError::InvalidSubscriptionParams => "Rejecting subscription - invalid parameters provided.",
            RpcError::InvalidSubscription => "Invalid subscription.",
        }
    }
}

/// The identifier a client names a subscription by: a number, as this
/// server hands out, or a string.
#[derive(Clone, Debug)]
pub enum SubscriptionKey {
    Number(u64),
    Text(String),
}

/// The next number after `n`, wrapping to 0 past the largest.
pub open spec fn next_number(n: u64) -> u64 {
    if n == u64::MAX {
        0
    } else {
        (n + 1) as u64
    }
}

/// The active peer-list subscriptions, each with the sink its updates go
/// to, and the number the next one gets. Every active subscription has a
/// number already handed out: below the next number, or any number once the
/// counter has wrapped past the largest.
pub struct Subscriptions<S> {
    next_id: u64,
    wrapped: bool,
    active: HashMap<u64, S>,
}

impl<S> Subscriptions<S> {
    /// The number the next subscription gets.
    pub closed spec fn next_id(&self) -> u64 {
        self.next_id
    }

    /// Whether the counter has wrapped past the largest number.
    pub closed spec fn wrapped(&self) -> bool {
        self.wrapped
    }

    /// The active subscriptions.
    pub closed spec fn active(&self) -> Map<u64, S> {
        self.active@
    }

    /// Whether `id` has been handed out.
    pub open spec fn issued(&self, id: u64) -> bool {
        self.wrapped() || id < self.next_id()
    }

    /// Whether every active subscription has a number handed out.
    pub open spec fn active_issued(&self) -> bool {
        forall|k: u64| #[trigger] self.active().contains_key(k) ==> self.issued(k)
    }

    #[verifier::type_invariant]
    closed spec fn well_formed(self) -> bool {
        forall|k: u64| #[trigger] self.active@.contains_key(k) ==> self.wrapped || k < self.next_id
    }

    /// No subscriptions; the first gets number 0.
    pub fn new() -> (subs: Subscriptions<S>)
        ensures
            subs.next_id() == 0,
            !subs.wrapped(),
            subs.active() == Map::<u64, S>::empty(),
            subs.active_issued(),
    {
        Subscriptions { next_id: 0, wrapped: false, active: HashMap::new() }
    }

    /// Asks for a subscription with parameter `param`: refused unless it is
    /// 10, else it is given the next number. Until the counter wraps, that
    /// number is no active subscription's, so making it active replaces no
    /// sink.
    pub fn subscribe(&mut self, param: u64) -> (id: Result<u64, RpcError>)
        ensures
            param != PEERS_SUBSCRIPTION_PARAM ==> id == Err::<u64, RpcError>(
                RpcError::InvalidSubscriptionParams,
            ) && final(self).next_id() == old(self).next_id() && final(self).wrapped() == old(
                self,
            ).wrapped(),
            param == PEERS_SUBSCRIPTION_PARAM ==> id == Ok::<u64, RpcError>(old(self).next_id())
                && final(self).next_id() == next_number(old(self).next_id()) && final(self).wrapped()
                == (old(self).wrapped() || old(self).next_id() == u64::MAX),
            final(self).active() == old(self).active(),
            id matches Ok(n) ==> final(self).issued(n),
            !old(self).wrapped() ==> (id matches Ok(n) ==> !old(self).active().contains_key(n)),
            final(self).active_issued(),
    {
        proof {
            use_type_invariant(&*self);
        }
        if param != PEERS_SUBSCRIPTION_PARAM {
            return Err(RpcError::InvalidSubscriptionParams);
        }
        let id = self.next_id;
        if self.next_id == u64::MAX {
            self.wrapped = true;
            self.next_id = 0;
        } else {
            self.next_id = self.next_id + 1;
        }
        proof {
            use_type_invariant(&*self);
        }
        Ok(id)
    }

    /// Whether `id` has been handed out.
    pub fn issued_id(&self, id: u64) -> (handed_out: bool)
        ensures
            handed_out == self.issued(id),
    {
        self.wrapped || id < self.next_id
    }

    /// Makes subscription `id`, a number handed out, active, its updates
    /// going to `sink`.
    pub fn activate(&mut self, id: u64, sink: S)
        requires
            old(self).issued(id),
        ensures
            final(self).active() == old(self).active().insert(id, sink),
            final(self).next_id() == old(self).next_id(),
            final(self).wrapped() == old(self).wrapped(),
            final(self).active_issued(),
    {
        proof {
            use_type_invariant(&*self);
        }
        let mut current = Subscriptions::new();
        std::mem::swap(self, &mut current);
        let Subscriptions { next_id, wrapped, mut active } = current;
        active.insert(id, sink);
        *self = Subscriptions { next_id, wrapped, active };
    }

    /// Ends a subscription: `true` where it was active, an error where not.
    pub fn unsubscribe(&mut self, key: &SubscriptionKey) -> (res: Result<bool, RpcError>)
        ensures
            res == (match key {
                SubscriptionKey::Number(n) => if old(self).active().contains_key(*n) {
                    Ok::<bool, RpcError>(true)
                } else {
                    Err(RpcError::InvalidSubscription)
                },
                SubscriptionKey::Text(_) => Err(RpcError::InvalidSubscription),
            }),
            final(self).active() == (match key {
                SubscriptionKey::Number(n) => old(self).active().remove(*n),
                SubscriptionKey::Text(_) => old(self).active(),
            }),
            final(self).next_id() == old(self).next_id(),
            final(self).wrapped() == old(self).wrapped(),
            final(self).active_issued(),
    {
        proof {
            use_type_invariant(&*self);
        }
        let mut current = Subscriptions::new();
        std::mem::swap(self, &mut current);
        let Subscriptions { next_id, wrapped, mut active } = current;
        let res = match key {
            SubscriptionKey::Number(n) => match active.remove(n) {
                Some(_) => Ok(true),
                None => Err(RpcError::InvalidSubscription),
            },
            SubscriptionKey::Text(_) => Err(RpcError::InvalidSubscription),
        };
        *self = Subscriptions { next_id, wrapped, active };
        res
    }

    /// The active subscriptions, for sending updates.
    pub fn sinks(&self) -> (active: &HashMap<u64, S>)
        ensures
            active@ == self.active(),
            self.active_issued(),
    {
        proof {
            use_type_invariant(self);
        }
        &self.active
    }

    /// The subscriptions that a round of updates goes to: every active one,
    /// each once, in no fixed order.
    pub fn notify_targets(&self) -> (ids: Vec<u64>)
        ensures
            ids@.to_set() == self.active().dom(),
            ids@.no_duplicates(),
    {
        let mut out: Vec<u64> = Vec::new();
        let key_iter = self.active.keys();
        let ghost keys = key_iter.remaining().unref();
        for k in it: key_iter
            invariant
                it.seq().unref() == keys,
                keys.no_duplicates(),
                keys.to_set() == self.active@.dom(),
                out@ == keys.take(it.index()),
        {
            let ghost idx = it.index();
            out.push(*k);
            assert(out@ =~= keys.take(idx + 1));
        }
        proof {
            assert(keys.take(keys.len() as int) =~= keys);
        }
        out
    }
}

/// A subscription made active can be ended once: ending it succeeds, and
/// ending it again fails, as the table no longer holds it.
pub proof fn lemma_unsubscribe_once<S>(active: Map<u64, S>, id: u64, sink: S)
    ensures
        active.insert(id, sink).contains_key(id),
        !active.insert(id, sink).remove(id).contains_key(id),
        active.insert(id, sink).remove(id) == active.remove(id),
{
    assert(active.insert(id, sink).remove(id) =~= active.remove(id));
}

/// Subscribing, making the subscription active and ending it leaves the
/// table as it was, where the number was no active subscription's: so it is
/// for every number handed out before the counter wraps.
pub proof fn lemma_subscribe_round_trip<S>(active: Map<u64, S>, id: u64, sink: S)
    requires
        !active.contains_key(id),
    ensures
        active.insert(id, sink).remove(id) == active,
{
    assert(active.insert(id, sink).remove(id) =~= active);
}

/// The node's addresses, as the `info` call reports them.
#[derive(Clone, Debug)]
pub struct Info {
    external_url: Option<String>,
    local_url: Option<String>,
}

impl Info {
    /// The external address reported.
    pub closed spec fn external(&self) -> Option<String> {
        self.external_url
    }

    /// The local address reported.
    pub closed spec fn local(&self) -> Option<String> {
        self.local_url
    }

    /// The report of the given addresses.
    pub fn new(external_url: Option<String>, local_url: Option<String>) -> (info: Info)
        ensures
            info.external() == external_url,
            info.local() == local_url,
    {
        Info { external_url, local_url }
    }

    /// The address under which others reach the node, where known.
    pub fn external_url(&self) -> (url: &Option<String>)
        ensures
            *url == self.external(),
    {
        &self.external_url
    }

    /// The node's local address, where known.
    pub fn local_url(&self) -> (url: &Option<String>)
        ensures
            *url == self.local(),
    {
        &self.local_url
    }
}

/// The `peers` report: the peers that said hello, and the peers the network
/// layer has sessions with.
#[derive(Debug)]
pub struct Peers {
    sync_peers: HashMap<PeerId, PeerInfo>,
    service_peers: Vec<PeerId>,
}

impl Peers {
    /// The peers that said hello.
    pub closed spec fn sync_peer_table(&self) -> Map<PeerId, PeerInfo> {
        self.sync_peers@
    }

    /// The peers with sessions.
    pub closed spec fn service_peer_list(&self) -> Seq<PeerId> {
        self.service_peers@
    }

    /// The report of the given peers.
    pub fn new(sync_peers: HashMap<PeerId, PeerInfo>, service_peers: Vec<PeerId>) -> (report: Peers)
        ensures
            report.sync_peer_table() == sync_peers@,
            report.service_peer_list() == service_peers@,
    {
        Peers { sync_peers, service_peers }
    }

    /// The peers that said hello.
    pub fn sync_peers(&self) -> (peers: &HashMap<PeerId, PeerInfo>)
        ensures
            peers@ == self.sync_peer_table(),
    {
        &self.sync_peers
    }

    /// The peers with sessions.
    pub fn service_peers(&self) -> (peers: &Vec<PeerId>)
        ensures
            peers@ == self.service_peer_list(),
    {
        &self.service_peers
    }
}

impl BloomHandler {
    /// The `peers` report: the node's peer table as it stands, beside the
    /// peers with sessions that the network layer lists.
    pub fn peers_report(&self, service_peers: Vec<PeerId>) -> (report: Peers)
        ensures
            report.sync_peer_table() == self.peer_table(),
            report.service_peer_list() == service_peers@,
    {
        Peers { sync_peers: self.get_peers().clone(), service_peers }
    }
}

/// A node of the discovery table, as the `node_buckets` call reports it:
/// the bucket it sits in, its identifier and its address.
#[derive(Clone, Copy, Debug)]
pub struct Node<I, A> {
    pub buck_id: u8,
    pub node_id: I,
    pub address: A,
}

/// The number of buckets of the discovery table that are reported.
pub const BUCKET_COUNT: usize = 256;

/// The contents of a table of buckets.
pub open spec fn bucket_contents<E>(buckets: Seq<Vec<E>>) -> Seq<Seq<E>> {
    buckets.map_values(|b: Vec<E>| b@)
}

/// The nodes of the first `n` buckets, bucket by bucket, each in the order
/// its bucket holds it.
pub open spec fn bucket_nodes<I, A>(buckets: Seq<Seq<(I, A)>>, n: nat) -> Seq<Node<I, A>>
    decreases n,
{
    if n == 0 {
        Seq::empty()
    } else {
        let k = (n - 1) as nat;
        bucket_nodes(buckets, k) + buckets[k as int].map_values(
            |e: (I, A)| Node { buck_id: k as u8, node_id: e.0, address: e.1 },
        )
    }
}

/// The number of entries of the first `n` buckets.
pub open spec fn bucket_total<E>(buckets: Seq<Seq<E>>, n: nat) -> nat
    decreases n,
{
    if n == 0 {
        0
    } else {
        bucket_total(buckets, (n - 1) as nat) + buckets[n - 1].len()
    }
}

/// The report of the first `n` buckets holds one node per entry.
pub proof fn lemma_bucket_nodes_len<I, A>(buckets: Seq<Seq<(I, A)>>, n: nat)
    ensures
        bucket_nodes(buckets, n).len() == bucket_total(buckets, n),
    decreases n,
{
    if n > 0 {
        lemma_bucket_nodes_len(buckets, (n - 1) as nat);
    }
}

/// Every entry of the first `n` buckets is reported, with its bucket's
/// number, identifier and address.
pub proof fn lemma_bucket_nodes_complete<I, A>(buckets: Seq<Seq<(I, A)>>, n: nat)
    ensures
        forall|i: int, j: int|
            0 <= i < n && 0 <= j < buckets[i].len() ==> #[trigger] bucket_nodes(buckets, n).contains(
                Node { buck_id: i as u8, node_id: buckets[i][j].0, address: buckets[i][j].1 },
            ),
    decreases n,
{
    if n > 0 {
        let k = (n - 1) as nat;
        lemma_bucket_nodes_complete(buckets, k);
        let prefix = bucket_nodes(buckets, k);
        let whole = bucket_nodes(buckets, n);
        assert forall|i: int, j: int|
            0 <= i < n && 0 <= j < buckets[i].len() implies #[trigger] whole.contains(
                Node { buck_id: i as u8, node_id: buckets[i][j].0, address: buckets[i][j].1 },
            ) by {
            let node = Node { buck_id: i as u8, node_id: buckets[i][j].0, address: buckets[i][j].1 };
            if i < k {
                assert(prefix.contains(node));
                let m = choose|m: int| 0 <= m < prefix.len() && prefix[m] == node;
                assert(whole[m] == node);
            } else {
                assert(whole[prefix.len() + j] == node);
            }
        }
    }
}

/// Every reported node is an entry of the bucket its number names, one of
/// the first `n`.
pub proof fn lemma_bucket_nodes_sound<I, A>(buckets: Seq<Seq<(I, A)>>, n: nat)
    requires
        n <= 256,
    ensures
        forall|m: int|
            0 <= m < bucket_nodes(buckets, n).len() ==> {
                let node = #[trigger] bucket_nodes(buckets, n)[m];
                &&& (node.buck_id as int) < n
                &&& buckets[node.buck_id as int].contains((node.node_id, node.address))
            },
    decreases n,
{
    if n > 0 {
        let k = (n - 1) as nat;
        lemma_bucket_nodes_sound(buckets, k);
        let prefix = bucket_nodes(buckets, k);
        let whole = bucket_nodes(buckets, n);
        assert forall|m: int| 0 <= m < whole.len() implies {
            let node = #[trigger] whole[m];
            &&& (node.buck_id as int) < n
            &&& buckets[node.buck_id as int].contains((node.node_id, node.address))
        } by {
            if m < prefix.len() {
                assert(whole[m] == prefix[m]);
            } else {
                let j = m - prefix.len();
                let i = k as int;
                assert(whole[m] == (Node {
                    buck_id: i as u8,
                    node_id: buckets[i][j].0,
                    address: buckets[i][j].1,
                }));
                assert(buckets[i][j] == (buckets[i][j].0, buckets[i][j].1));
            }
        }
    }
}

/// The `node_buckets` report: every node of the first 256 buckets of the
/// discovery table, with its bucket's number; nothing where the network
/// layer has no table.
pub fn node_buckets<I: Copy, A: Copy>(buckets: Option<&Vec<Vec<(I, A)>>>) -> (nodes: Vec<Node<I, A>>)
    requires
        buckets matches Some(b) ==> b@.len() >= BUCKET_COUNT,
    ensures
        nodes@ == (match buckets {
            Some(b) => bucket_nodes(bucket_contents(b@), BUCKET_COUNT as nat),
            None => Seq::empty(),
        }),
        buckets is None ==> nodes@.len() == 0,
        buckets matches Some(b) ==> {
            &&& nodes@.len() == bucket_total(bucket_contents(b@), BUCKET_COUNT as nat)
            &&& forall|i: int, j: int|
                0 <= i < BUCKET_COUNT && 0 <= j < b@[i]@.len() ==> #[trigger] nodes@.contains(
                    Node { buck_id: i as u8, node_id: b@[i]@[j].0, address: b@[i]@[j].1 },
                )
            &&& forall|m: int|
                0 <= m < nodes@.len() ==> {
                    let node = #[trigger] nodes@[m];
                    &&& (node.buck_id as int) < BUCKET_COUNT
                    &&& b@[node.buck_id as int]@.contains((node.node_id, node.address))
                }
        },
{
    let mut res: Vec<Node<I, A>> = Vec::new();
    if let Some(table) = buckets {
        let ghost contents = bucket_contents(table@);
        let mut i: usize = 0;
        while i < BUCKET_COUNT
            invariant
                table@.len() >= BUCKET_COUNT,
                contents == bucket_contents(table@),
                0 <= i <= BUCKET_COUNT,
                res@ == bucket_nodes(contents, i as nat),
            decreases BUCKET_COUNT - i,
        {
            let bucket = &table[i];
            let ghost start = res@;
            let mut j: usize = 0;
            while j < bucket.len()
                invariant
                    i < BUCKET_COUNT,
                    contents[i as int] == bucket@,
                    0 <= j <= bucket@.len(),
                    res@ == start + bucket@.take(j as int).map_values(
                        |e: (I, A)| Node { buck_id: i as u8, node_id: e.0, address: e.1 },
                    ),
                decreases bucket@.len() - j,
            {
                let entry = bucket[j];
                res.push(Node { buck_id: i as u8, node_id: entry.0, address: entry.1 });
                proof {
                    assert(bucket@.take(j + 1) =~= bucket@.take(j as int).push(entry));
                    assert(res@ =~= start + bucket@.take(j + 1).map_values(
                        |e: (I, A)| Node { buck_id: i as u8, node_id: e.0, address: e.1 },
                    ));
                }
                j = j + 1;
            }
            proof {
                assert(bucket@.take(bucket@.len() as int) =~= bucket@);
                assert(res@ =~= bucket_nodes(contents, (i + 1) as nat));
            }
            i = i + 1;
        }
        proof {
            lemma_bucket_nodes_len(contents, BUCKET_COUNT as nat);
            lemma_bucket_nodes_complete(contents, BUCKET_COUNT as nat);
            lemma_bucket_nodes_sound(contents, BUCKET_COUNT as nat);
            let b = table@;
            assert forall|i: int, j: int|
                0 <= i < BUCKET_COUNT && 0 <= j < b[i]@.len() implies #[trigger] res@.contains(
                (Node { buck_id: i as u8, node_id: b[i]@[j].0, address: b[i]@[j].1 }),
            ) by {
                assert(contents[i] == b[i]@);
                assert(bucket_nodes(contents, BUCKET_COUNT as nat).contains(
                    Node { buck_id: i as u8, node_id: contents[i][j].0, address: contents[i][j].1 },
                ));
            }
            assert forall|m: int| 0 <= m < res@.len() implies {
                let node = #[trigger] res@[m];
                &&& (node.buck_id as int) < BUCKET_COUNT
                &&& b[node.buck_id as int]@.contains((node.node_id, node.address))
            } by {
                let node = res@[m];
                assert(contents[node.buck_id as int] == b[node.buck_id as int]@);
            }
        }
    }
    res
}

} // verus!
