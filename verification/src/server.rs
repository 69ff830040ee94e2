//! The node's state and its handling of the `blo` protocol: the table of
//! peers that have said hello, the transaction pool, and the decisions taken
//! on each packet and on each transaction submitted locally.

use vstd::prelude::*;
use std::collections::HashMap;
use crate::hash::{keccak256, keccak_256};
use crate::hello::{
    decode_hello, genesis_marker, greeting, hello_bytes, hello_message, lemma_hello_is_small,
    rlp_list_string, rlp_string_pair, small_pair,
};
use crate::hex::{hex_bytes, is_hex_text, lemma_plain_text_body, text_body, tx_body_from_text};
use crate::text::opt_text;
use crate::txpool::{holds_id, ids_distinct, lemma_offer_by_digest, offer, tx_id, TxPool};
use vstd::string::StringSliceAdditionalSpecFns;
use vstd::std_specs::iter::IteratorSpec;

verus! {

broadcast use vstd::std_specs::hash::group_hash_axioms;

/// The number by which the network layer knows a connected peer.
pub type PeerId = usize;

/// The protocol's three-letter identifier, `blo`.
pub const PROTOCAL: [u8; 3] = [0x62, 0x6c, 0x6f];

/// The packet that greets a peer.
pub const PACKET_HELLO: u8 = 0x01;

/// The packet that carries a transaction.
pub const PACKET_TX: u8 = 0x02;

/// What the node knows of a peer that said hello.
#[derive(Clone, Debug)]
pub struct PeerInfo {
    pub address: String,
}

/// A transaction to pass on: the bytes to send, and the peers to send them
/// to, each once.
#[derive(Debug)]
pub struct Broadcast {
    pub payload: Vec<u8>,
    pub recipients: Vec<PeerId>,
}

/// Why a hello packet was not taken.
#[derive(Clone, Copy, Debug, PartialEq, Eq)]
pub enum HelloError {
    /// The packet does not hold an RLP list of two strings.
    Malformed,
    /// The network layer has no session for the peer.
    NoSession,
}

/// The peers in `peers` but `skip`.
pub open spec fn targets(peers: Set<PeerId>, skip: Option<PeerId>) -> Set<PeerId> {
    match skip {
        Some(p) => peers.remove(p),
        None => peers,
    }
}

/// The node: the peers that said hello, each with the address of its
/// session, and the transaction pool.
#[derive(Debug)]
pub struct BloomHandler {
    peers: HashMap<PeerId, PeerInfo>,
    tx_pool: TxPool,
}

impl BloomHandler {
    /// The peer table.
    pub closed spec fn peer_table(&self) -> Map<PeerId, PeerInfo> {
        self.peers@
    }

    /// The transaction bodies in the pool, in the order they were accepted.
    pub closed spec fn pool(&self) -> Seq<Seq<u8>> {
        self.tx_pool@
    }

    /// A node with no peers and an empty pool.
    pub fn new() -> (handler: BloomHandler)
        ensures
            handler.peer_table() == Map::<PeerId, PeerInfo>::empty(),
            handler.pool() == Seq::<Seq<u8>>::empty(),
    {
        BloomHandler { peers: HashMap::new(), tx_pool: TxPool::new() }
    }

    /// The peer table.
    pub fn get_peers(&self) -> (peers: &HashMap<PeerId, PeerInfo>)
        ensures
            peers@ == self.peer_table(),
    {
        &self.peers
    }

    /// The pool, for reading.
    pub fn tx_pool(&self) -> (pool: &TxPool)
        ensures
            pool@ == self.pool(),
    {
        &self.tx_pool
    }

    /// Empties the pool.
    pub fn clear_tx_pool(&mut self)
        ensures
            final(self).pool() == Seq::<Seq<u8>>::empty(),
            final(self).peer_table() == old(self).peer_table(),
    {
        self.tx_pool.clear();
    }

    /// Hands out the pool and leaves it empty.
    pub fn get_tx_pool(&mut self) -> (pool: TxPool)
        ensures
            pool@ == old(self).pool(),
            final(self).pool() == Seq::<Seq<u8>>::empty(),
            final(self).peer_table() == old(self).peer_table(),
    {
        let mut taken = TxPool::new();
        std::mem::swap(&mut taken, &mut self.tx_pool);
        taken
    }

    /// The hello packet that greets `peer` once its session is up.
    pub fn hello_packet(&self, peer: PeerId) -> (data: Vec<u8>)
        ensures
            data@ == hello_bytes(peer as nat),
    {
        hello_message(peer)
    }

    /// Takes a hello packet from `peer`, whose session has the address
    /// `remote_address` where the network layer knows one: the peer enters
    /// the table with that address, or has it updated. A packet that is not
    /// an RLP list with strings at indexes 0 and 1 is answered with
    /// `Err(Malformed)`, and a peer without a session with `Err(NoSession)`;
    /// the table is then left as it was. (A node stops there: the program
    /// around the library panics on either error.) Every hello that
    /// `hello_packet` builds is taken.
    pub fn handle_hello(&mut self, peer: PeerId, data: &[u8], remote_address: Option<String>)
        -> (res: Result<(), HelloError>)
        ensures
            res == (if rlp_list_string(data@, 0) is None || rlp_list_string(data@, 1) is None {
                Err(HelloError::Malformed)
            } else if remote_address is None {
                Err(HelloError::NoSession)
            } else {
                Ok(())
            }),
            res is Ok ==> final(self).peer_table() == old(self).peer_table().insert(
                peer,
                PeerInfo { address: remote_address->Some_0 },
            ),
            res is Err ==> final(self).peer_table() == old(self).peer_table(),
            final(self).pool() == old(self).pool(),
            forall|a: Seq<char>, b: Seq<char>|
                small_pair(a, b) && #[trigger] rlp_string_pair(a, b) == data@ && remote_address is Some
                    ==> res is Ok,
            forall|q: PeerId| #[trigger] hello_bytes(q as nat) == data@ && remote_address is Some
                ==> res is Ok,
    {
        proof {
            assert forall|q: PeerId| #[trigger] hello_bytes(q as nat) == data@ implies small_pair(
                greeting(q as nat),
                genesis_marker(),
            ) by {
                lemma_hello_is_small(q as nat);
            }
        }
        match decode_hello(data) {
            None => Err(HelloError::Malformed),
            Some(_) => match remote_address {
                None => Err(HelloError::NoSession),
                Some(address) => {
                    self.peers.insert(peer, PeerInfo { address });
                    Ok(())
                },
            },
        }
    }

    /// Forgets a peer whose session ended.
    pub fn disconnected(&mut self, peer: PeerId)
        ensures
            final(self).peer_table() == old(self).peer_table().remove(peer),
            final(self).pool() == old(self).pool(),
    {
        self.peers.remove(&peer);
    }

    /// Takes a transaction packet from `peer`: a transaction whose
    /// identifier the pool does not hold yet enters the pool and is passed on
    /// to every other peer of the table; one already held changes nothing.
    pub fn handle_new_tx(&mut self, peer: PeerId, data: &[u8]) -> (out: Option<Broadcast>)
        ensures
            out is Some <==> !holds_id(old(self).pool(), tx_id(data@)),
            final(self).pool() == offer(old(self).pool(), data@),
            final(self).peer_table() == old(self).peer_table(),
            out matches Some(b) ==> {
                &&& b.payload@ == data@
                &&& b.recipients@.to_set() == targets(old(self).peer_table().dom(), Some(peer))
                &&& b.recipients@.no_duplicates()
            },
            out is Some <==> (forall|i: int|
                0 <= i < old(self).pool().len() ==> #[trigger] keccak256(old(self).pool()[i])
                    != keccak256(data@)),
            out is Some ==> final(self).pool() == old(self).pool().push(data@),
            out is None ==> final(self).pool() == old(self).pool(),
    {
        proof {
            lemma_offer_by_digest(self.pool(), data@);
        }
        let body = vstd::slice::slice_to_vec(data);
        if self.tx_pool.insert(body) {
            let recipients = self.peers_except(Some(peer));
            Some(Broadcast { payload: vstd::slice::slice_to_vec(data), recipients })
        } else {
            None
        }
    }

    /// Takes a transaction submitted locally as text, hex when `is_hex`: one
    /// that decodes and whose identifier the pool does not hold yet enters
    /// the pool and is passed on to every peer of the table; `None` tells
    /// that it was refused, for bad hex or as already held.
    pub fn receive_tx_from_local(&mut self, body: &str, is_hex: bool) -> (out: Option<Broadcast>)
        ensures
            out is Some <==> (text_body(body.spec_bytes(), is_hex) matches Some(raw) && !holds_id(
                old(self).pool(),
                tx_id(raw),
            )),
            final(self).pool() == (match text_body(body.spec_bytes(), is_hex) {
                Some(raw) => offer(old(self).pool(), raw),
                None => old(self).pool(),
            }),
            final(self).peer_table() == old(self).peer_table(),
            out matches Some(b) ==> {
                &&& Some(b.payload@) == text_body(body.spec_bytes(), is_hex)
                &&& b.recipients@.to_set() == old(self).peer_table().dom()
                &&& b.recipients@.no_duplicates()
            },
            !is_hex ==> (out matches Some(b) ==> b.payload@ == body.spec_bytes()),
            !is_hex ==> (out is Some <==> (forall|i: int|
                0 <= i < old(self).pool().len() ==> #[trigger] keccak256(old(self).pool()[i])
                    != keccak256(body.spec_bytes()))),
            is_hex ==> (out matches Some(b) ==> is_hex_text(body.spec_bytes()) && b.payload@
                == hex_bytes(body.spec_bytes())),
            is_hex && !is_hex_text(body.spec_bytes()) ==> out is None,
            out matches Some(b) ==> {
                &&& final(self).pool() == old(self).pool().push(b.payload@)
                &&& forall|i: int|
                    0 <= i < old(self).pool().len() ==> #[trigger] keccak256(old(self).pool()[i])
                        != keccak256(b.payload@)
            },
            out is None ==> final(self).pool() == old(self).pool(),
    {
        proof {
            lemma_plain_text_body(body.spec_bytes());
            lemma_offer_by_digest(self.pool(), body.spec_bytes());
            if is_hex_text(body.spec_bytes()) {
                lemma_offer_by_digest(self.pool(), hex_bytes(body.spec_bytes()));
            }
        }
        let raw = match tx_body_from_text(body, is_hex) {
            Some(raw) => raw,
            None => return None,
        };
        let id = keccak_256(raw.as_slice());
        if self.tx_pool.contains(&id) {
            return None;
        }
        let payload = vstd::slice::slice_to_vec(raw.as_slice());
        let added = self.tx_pool.insert(raw);
        assert(added);
        let recipients = self.peers_except(None);
        Some(Broadcast { payload, recipients })
    }

    /// Takes a packet from `peer`: a hello, a transaction, or one of another
    /// kind, which is ignored. A hello that is not taken is answered with
    /// the error of `handle_hello`, with nothing changed.
    pub fn read(&mut self, peer: PeerId, packet_id: u8, data: &[u8], remote_address: Option<String>)
        -> (out: Result<Option<Broadcast>, HelloError>)
        ensures
            packet_id == PACKET_HELLO ==> {
                &&& out is Ok <==> (rlp_list_string(data@, 0) is Some && rlp_list_string(data@, 1) is Some
                    && remote_address is Some)
                &&& out matches Ok(b) ==> b is None && final(self).peer_table() == old(
                    self,
                ).peer_table().insert(peer, PeerInfo { address: remote_address->Some_0 })
                &&& out matches Err(e) ==> final(self).peer_table() == old(self).peer_table() && e == (
                    if remote_address is Some || rlp_list_string(data@, 0) is None || rlp_list_string(data@, 1) is None {
                        HelloError::Malformed
                    } else {
                        HelloError::NoSession
                    })
                &&& final(self).pool() == old(self).pool()
            },
            packet_id == PACKET_TX ==> {
                &&& out matches Ok(b) && (b is Some <==> !holds_id(old(self).pool(), tx_id(data@)))
                &&& final(self).pool() == offer(old(self).pool(), data@)
                &&& final(self).peer_table() == old(self).peer_table()
                &&& out matches Ok(Some(b)) ==> {
                    &&& b.payload@ == data@
                    &&& b.recipients@.to_set() == targets(old(self).peer_table().dom(), Some(peer))
                    &&& b.recipients@.no_duplicates()
                }
            },
            packet_id != PACKET_HELLO && packet_id != PACKET_TX ==> {
                &&& out matches Ok(b) && b is None
                &&& final(self).pool() == old(self).pool()
                &&& final(self).peer_table() == old(self).peer_table()
            },
    {
        if packet_id == PACKET_HELLO {
            match self.handle_hello(peer, data, remote_address) {
                Ok(()) => Ok(None),
                Err(e) => Err(e),
            }
        } else if packet_id == PACKET_TX {
            Ok(self.handle_new_tx(peer, data))
        } else {
            Ok(None)
        }
    }

    /// The peers of the table but `skip`, each once, in no fixed order.
    fn peers_except(&self, skip: Option<PeerId>) -> (out: Vec<PeerId>)
        ensures
            out@.to_set() == targets(self.peer_table().dom(), skip),
            out@.no_duplicates(),
    {
        let mut out: Vec<PeerId> = Vec::new();
        let key_iter = self.peers.keys();
        let ghost keys = key_iter.remaining().unref();
        for p in it: key_iter
            invariant
                it.seq().unref() == keys,
                it.seq().unref().no_duplicates(),
                it.seq().unref().to_set() == self.peers@.dom(),
                forall|j: int| 0 <= j < out@.len() ==> it.seq().unref().take(it.index()).contains(#[trigger] out@[j]),
                forall|j: int| 0 <= j < out@.len() ==> Some(#[trigger] out@[j]) != skip,
                forall|i: int| 0 <= i < it.index() && Some(#[trigger] keys[i]) != skip ==> out@.contains(keys[i]),
                out@.no_duplicates(),
        {
            let ghost idx = it.index();
            let ghost before = out@;
            assert(*p == keys[idx]);
            assert(!keys.take(idx).contains(*p)) by {
                if keys.take(idx).contains(*p) {
                    let k = choose|k: int| 0 <= k < idx && keys.take(idx)[k] == *p;
                    assert(keys[k] == keys[idx]);
                }
            }
            if skip != Some(*p) {
                out.push(*p);
            }
            assert forall|i: int| 0 <= i < idx + 1 && Some(#[trigger] keys[i]) != skip implies out@.contains(keys[i]) by {
                if i < idx {
                    let j = choose|j: int| 0 <= j < before.len() && before[j] == keys[i];
                    assert(out@[j] == keys[i]);
                } else {
                    assert(out@[out@.len() - 1] == keys[i]);
                }
            }
            assert forall|j: int| 0 <= j < out@.len() implies keys.take(idx + 1).contains(#[trigger] out@[j]) by {
                if j < out@.len() - 1 || skip == Some(*p) {
                    let k = choose|k: int| 0 <= k < idx && keys.take(idx)[k] == out@[j];
                    assert(keys.take(idx + 1)[k] == out@[j]);
                } else {
                    assert(keys.take(idx + 1)[idx] == out@[j]);
                }
            }
        }
        proof {
            assert forall|x: PeerId| out@.to_set().contains(x) <==> targets(self.peer_table().dom(), skip).contains(x) by {
                if out@.to_set().contains(x) {
                    let j = choose|j: int| 0 <= j < out@.len() && out@[j] == x;
                    assert(keys.take(keys.len() as int).contains(out@[j]));
                    assert(keys.take(keys.len() as int) =~= keys);
                    assert(keys.to_set().contains(x));
                }
                if targets(self.peer_table().dom(), skip).contains(x) {
                    assert(keys.to_set().contains(x));
                    let i = choose|i: int| 0 <= i < keys.len() && keys[i] == x;
                    assert(Some(keys[i]) != skip);
                    assert(out@.contains(keys[i]));
                }
            }
            assert(out@.to_set() =~= targets(self.peer_table().dom(), skip));
        }
        out
    }
}

/// The node that every server also boots from.
pub open spec fn reserve_node() -> Seq<char> {
    "enode://a1337fd03a00d8b656c639819d7d88cd5aaf7eaf5c46b78de5538b4449ae1c43ad22f029d7a56063999ae4cfe01a722f884e1af54a6195a0e41c350874fef089@203.195.218.114:33030"@
}

/// The distance between the p2p port and the port of the RPC server.
pub const RPC_PORT_OFFSET: u16 = 10000;

/// The path of `leaf` under the directory `dir`, as `PathBuf::push` joins
/// a relative leaf on Unix: a separator goes between them unless `dir` is
/// empty or already ends in one.
pub open spec fn joined_path(dir: Seq<char>, leaf: Seq<char>) -> Seq<char> {
    if dir.len() == 0 {
        leaf
    } else if dir.last() == '/' {
        dir + leaf
    } else {
        dir + seq!['/'] + leaf
    }
}

/// The boot nodes of a server: the one given, if any, then the reserve
/// node.
pub open spec fn boot_list(boot_node: Option<Seq<char>>) -> Seq<Seq<char>> {
    match boot_node {
        Some(b) => seq![b, reserve_node()],
        None => seq![reserve_node()],
    }
}

/// The texts of a list of strings.
pub open spec fn texts(v: Seq<String>) -> Seq<Seq<char>> {
    v.map_values(|s: String| s@)
}

/// How a server is to be set up: its logging, its network configuration,
/// and the port of its RPC server, which exists only where the p2p port is
/// at least 10000.
pub struct ServerPlan {
    pub log_level: String,
    pub port: u16,
    pub boot_nodes: Vec<String>,
    pub config_path: String,
    pub net_config_path: String,
    pub client_version: String,
    pub rpc_port: Option<u16>,
}

/// Whether `plan` is the set-up of a server on `port` with data in
/// `data_dir`, booting from `boot_node` and logging at `log_level`.
pub open spec fn is_server_plan(
    plan: ServerPlan,
    port: u16,
    data_dir: Seq<char>,
    boot_node: Option<Seq<char>>,
    log_level: Seq<char>,
) -> bool {
    &&& plan.log_level@ == log_level
    &&& plan.port == port
    &&& texts(plan.boot_nodes@) == boot_list(boot_node)
    &&& plan.config_path@ == joined_path(data_dir, "enr"@)
    &&& plan.net_config_path@ == joined_path(data_dir, "nodes"@)
    &&& plan.client_version@ == "Bloom-network"@
    &&& plan.rpc_port == (if port >= RPC_PORT_OFFSET {
        Some((port - RPC_PORT_OFFSET) as u16)
    } else {
        None
    })
}

/// Whether `s` ends in a `/`.
fn ends_with_separator(s: &str) -> (ends: bool)
    ensures
        ends == (s@.len() > 0 && s@.last() == '/'),
{
    let mut last: Option<char> = None;
    let chars = s.chars();
    let ghost cs = chars.remaining();
    assert(cs == s@);
    for c in it: chars
        invariant
            it.seq() == cs,
            cs == s@,
            last == (if it.index() == 0 {
                None::<char>
            } else {
                Some(cs[it.index() - 1])
            }),
    {
        last = Some(c);
    }
    match last {
        Some(c) => c == '/',
        None => false,
    }
}

/// The path of `leaf` under the directory `dir`.
fn join_path(dir: &str, leaf: &str) -> (path: String)
    ensures
        path@ == joined_path(dir@, leaf@),
{
    if dir.is_empty() {
        return String::from_str(leaf);
    }
    let mut path = String::from_str(dir);
    if !ends_with_separator(dir) {
        path.append("/");
        proof {
            reveal_strlit("/");
        }
    }
    path.append(leaf);
    path
}

/// Decides how a server on `port`, keeping its data in `data_dir`, booting
/// from `boot_node` and logging at `log_level`, is set up. The RPC server
/// listens on the port 10000 below `port`; where `port` is below 10000 there
/// is none.
pub fn run(port: u16, data_dir: &str, boot_node: &Option<String>, log_level: &str) -> (plan:
    ServerPlan)
    ensures
        is_server_plan(plan, port, data_dir@, opt_text(*boot_node), log_level@),
        plan.log_level@ == log_level@,
        plan.port == port,
        port >= RPC_PORT_OFFSET ==> plan.rpc_port == Some((port - RPC_PORT_OFFSET) as u16),
        port < RPC_PORT_OFFSET ==> plan.rpc_port is None,
        boot_node matches Some(b) ==> plan.boot_nodes@.len() == 2 && plan.boot_nodes@[0]@ == b@,
        boot_node is None ==> plan.boot_nodes@.len() == 1,
{
    let mut boot_nodes: Vec<String> = Vec::new();
    if let Some(b) = boot_node {
        boot_nodes.push(b.clone());
    }
    boot_nodes.push(String::from_str(
        "enode://a1337fd03a00d8b656c639819d7d88cd5aaf7eaf5c46b78de5538b4449ae1c43ad22f029d7a56063999ae4cfe01a722f884e1af54a6195a0e41c350874fef089@203.195.218.114:33030",
    ));
    let plan = ServerPlan {
        log_level: String::from_str(log_level),
        port,
        boot_nodes,
        config_path: join_path(data_dir, "enr"),
        net_config_path: join_path(data_dir, "nodes"),
        client_version: String::from_str("Bloom-network"),
        rpc_port: port.checked_sub(RPC_PORT_OFFSET),
    };
    proof {
        assert(texts(plan.boot_nodes@) =~= boot_list(opt_text(*boot_node)));
    }
    plan
}

/// A server plan keeps the log level, the port and the boot node it was
/// given, puts the RPC server 10000 below the port where there is room, and
/// files its data under the given directory.
pub proof fn lemma_server_plan_follows_options(
    plan: ServerPlan,
    port: u16,
    data_dir: Seq<char>,
    boot_node: Option<Seq<char>>,
    log_level: Seq<char>,
)
    requires
        is_server_plan(plan, port, data_dir, boot_node, log_level),
    ensures
        plan.log_level@ == log_level,
        plan.port == port,
        port >= 10000 ==> plan.rpc_port == Some((port - 10000) as u16),
        port < 10000 ==> plan.rpc_port is None,
        boot_node matches Some(b) ==> plan.boot_nodes@.len() == 2 && plan.boot_nodes@[0]@ == b,
        boot_node is None ==> plan.boot_nodes@.len() == 1,
        plan.config_path@.len() >= data_dir.len(),
        plan.config_path@.subrange(0, data_dir.len() as int) == data_dir,
{
    reveal_strlit("enr");
    lemma_joined_path_extends(data_dir, "enr"@);
    let t = texts(plan.boot_nodes@);
    assert(t.len() == plan.boot_nodes@.len());
    if boot_node is Some {
        assert(t[0] == plan.boot_nodes@[0]@);
    }
}

/// A path joined under a directory starts with the directory and ends with
/// the leaf, with at most one separator between them.
pub proof fn lemma_joined_path_extends(dir: Seq<char>, leaf: Seq<char>)
    ensures
        joined_path(dir, leaf).len() >= dir.len() + leaf.len(),
        joined_path(dir, leaf).len() <= dir.len() + leaf.len() + 1,
        joined_path(dir, leaf).subrange(0, dir.len() as int) == dir,
        joined_path(dir, leaf).subrange(
            joined_path(dir, leaf).len() - leaf.len(),
            joined_path(dir, leaf).len() as int,
        ) == leaf,
{
    let j = joined_path(dir, leaf);
    assert(j.subrange(0, dir.len() as int) =~= dir);
    assert(j.subrange(j.len() - leaf.len(), j.len() as int) =~= leaf);
}

/// Offering a transaction a second time changes nothing: once offered,
/// its identifier is held.
pub proof fn lemma_offer_twice(bodies: Seq<Seq<u8>>, body: Seq<u8>)
    ensures
        holds_id(offer(bodies, body), tx_id(body)),
        offer(offer(bodies, body), body) == offer(bodies, body),
{
    if !holds_id(bodies, tx_id(body)) {
        let grown = bodies.push(body);
        assert(tx_id(grown[bodies.len() as int]) == tx_id(body));
    }
}

/// Offering keeps the identifiers of a pool distinct.
pub proof fn lemma_offer_keeps_ids_distinct(bodies: Seq<Seq<u8>>, body: Seq<u8>)
    requires
        ids_distinct(bodies),
    ensures
        ids_distinct(offer(bodies, body)),
{
    if !holds_id(bodies, tx_id(body)) {
        let grown = bodies.push(body);
        assert forall|i: int, j: int|
            0 <= i < grown.len() && 0 <= j < grown.len() && i != j implies #[trigger] tx_id(grown[i])
            != #[trigger] tx_id(grown[j]) by {
            if i == bodies.len() {
                assert(tx_id(bodies[j]) == tx_id(grown[j]));
            } else if j == bodies.len() {
                assert(tx_id(bodies[i]) == tx_id(grown[i]));
            }
        }
    }
}

} // verus!
