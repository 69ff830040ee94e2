//! The transaction pool: transactions in arrival order, each known by the
//! Keccak-256 digest of its body, with no digest held twice.

use vstd::prelude::*;
use crate::hash::{keccak256, keccak_256};

verus! {

/// The identifier of a transaction: the Keccak-256 digest of its body.
pub open spec fn tx_id(body: Seq<u8>) -> Seq<u8> {
    keccak256(body)
}

/// Whether some transaction of `bodies` has the identifier `id`.
pub open spec fn holds_id(bodies: Seq<Seq<u8>>, id: Seq<u8>) -> bool {
    exists|i: int| 0 <= i < bodies.len() && #[trigger] tx_id(bodies[i]) == id
}

/// No two transactions of `bodies` share an identifier.
pub open spec fn ids_distinct(bodies: Seq<Seq<u8>>) -> bool {
    forall|i: int, j: int|
        0 <= i < bodies.len() && 0 <= j < bodies.len() && i != j
            ==> #[trigger] tx_id(bodies[i]) != #[trigger] tx_id(bodies[j])
}

/// The pool that results from offering `body` to a pool holding `bodies`:
/// the body is appended unless a transaction with its identifier is there.
pub open spec fn offer(bodies: Seq<Seq<u8>>, body: Seq<u8>) -> Seq<Seq<u8>> {
    if holds_id(bodies, tx_id(body)) {
        bodies
    } else {
        bodies.push(body)
    }
}

/// A transaction: an opaque byte string.
#[derive(Clone, Debug)]
pub struct Tx {
    pub body: Vec<u8>,
}

impl View for Tx {
    type V = Seq<u8>;

    open spec fn view(&self) -> Seq<u8> {
        self.body@
    }
}

/// The pool: the transactions in the order they were accepted, and beside
/// them their identifiers.
#[derive(Debug)]
pub struct TxPool {
    txs: Vec<Tx>,
    ids: Vec<[u8; 32]>,
}

impl View for TxPool {
    type V = Seq<Seq<u8>>;

    closed spec fn view(&self) -> Seq<Seq<u8>> {
        self.txs@.map_values(|t: Tx| t.body@)
    }
}

impl TxPool {
    #[verifier::type_invariant]
    closed spec fn well_formed(self) -> bool {
        &&& self.ids@.len() == self.txs@.len()
        &&& forall|i: int|
            0 <= i < self.ids@.len() ==> (#[trigger] self.ids@[i])@ == tx_id(self.txs@[i].body@)
        &&& ids_distinct(self@)
    }

    /// An empty pool.
    pub fn new() -> (pool: TxPool)
        ensures
            pool@ == Seq::<Seq<u8>>::empty(),
    {
        let pool = TxPool { txs: Vec::new(), ids: Vec::new() };
        assert(pool@ =~= Seq::<Seq<u8>>::empty());
        pool
    }

    /// The number of transactions held.
    pub fn len(&self) -> (n: usize)
        ensures
            n == self@.len(),
    {
        self.txs.len()
    }

    /// Whether a transaction with identifier `id` is held.
    pub fn contains(&self, id: &[u8; 32]) -> (found: bool)
        ensures
            found == holds_id(self@, id@),
    {
        proof {
            use_type_invariant(self);
        }
        let n = self.ids.len();
        let mut i: usize = 0;
        while i < n
            invariant
                n == self.ids@.len(),
                n == self@.len(),
                0 <= i <= n,
                forall|j: int| 0 <= j < self.ids@.len() ==> (#[trigger] self.ids@[j])@ == tx_id(self@[j]),
                forall|j: int| 0 <= j < i ==> tx_id(#[trigger] self@[j]) != id@,
            decreases n - i,
        {
            if same_digest(&self.ids[i], id) {
                assert(tx_id(self@[i as int]) == id@);
                return true;
            }
            i = i + 1;
        }
        false
    }

    /// Offers a transaction body: it is appended, and `true` returned, unless
    /// a transaction with the same identifier is already held.
    pub fn insert(&mut self, body: Vec<u8>) -> (added: bool)
        ensures
            added == !holds_id(old(self)@, tx_id(body@)),
            final(self)@ == offer(old(self)@, body@),
            ids_distinct(final(self)@),
            added <==> (forall|i: int|
                0 <= i < old(self)@.len() ==> #[trigger] keccak256(old(self)@[i]) != keccak256(body@)),
            added ==> final(self)@ == old(self)@.push(body@),
            !added ==> final(self)@ == old(self)@,
    {
        proof {
            lemma_offer_by_digest(self@, body@);
        }
        let id = keccak_256(body.as_slice());
        self.insert_with_id(body, id)
    }

    /// As `insert`, where `id` is already known to be the body's identifier.
    fn insert_with_id(&mut self, body: Vec<u8>, id: [u8; 32]) -> (added: bool)
        requires
            id@ == tx_id(body@),
        ensures
            added == !holds_id(old(self)@, tx_id(body@)),
            final(self)@ == offer(old(self)@, body@),
            ids_distinct(final(self)@),
    {
        proof {
            use_type_invariant(&*self);
        }
        if self.contains(&id) {
            return false;
        }
        let ghost old_view = self@;
        let mut current = TxPool::new();
        std::mem::swap(self, &mut current);
        let TxPool { mut txs, mut ids } = current;
        txs.push(Tx { body });
        ids.push(id);
        assert(txs@.map_values(|t: Tx| t.body@) =~= old_view.push(body@));
        *self = TxPool { txs, ids };
        true
    }

    /// Drops every transaction.
    pub fn clear(&mut self)
        ensures
            final(self)@ == Seq::<Seq<u8>>::empty(),
    {
        let mut empty = TxPool::new();
        std::mem::swap(self, &mut empty);
    }

    /// The transactions held, in the order they were accepted.
    pub fn txs(&self) -> (txs: &Vec<Tx>)
        ensures
            txs@.map_values(|t: Tx| t.body@) == self@,
    {
        &self.txs
    }

    /// The identifiers of the transactions held, in the same order.
    pub fn ids(&self) -> (ids: &Vec<[u8; 32]>)
        ensures
            ids@.len() == self@.len(),
            ids_distinct(self@),
            forall|i: int| 0 <= i < ids@.len() ==> (#[trigger] ids@[i])@ == tx_id(self@[i]),
            forall|i: int| 0 <= i < ids@.len() ==> (#[trigger] ids@[i])@ == keccak256(self@[i]),
    {
        proof {
            use_type_invariant(self);
        }
        &self.ids
    }
}

impl Default for TxPool {
    fn default() -> (pool: TxPool)
        ensures
            pool@ == Seq::<Seq<u8>>::empty(),
    {
        TxPool::new()
    }
}

/// A transaction's identifier is the Keccak-256 digest of its whole body.
pub proof fn lemma_tx_id_is_digest(body: Seq<u8>)
    ensures
        tx_id(body) == keccak256(body),
{
}

/// Offering a body appends it exactly when no body held has the same
/// Keccak-256 digest, and otherwise leaves the pool as it was.
pub proof fn lemma_offer_by_digest(bodies: Seq<Seq<u8>>, body: Seq<u8>)
    ensures
        (forall|i: int| 0 <= i < bodies.len() ==> #[trigger] keccak256(bodies[i]) != keccak256(body))
            ==> offer(bodies, body) == bodies.push(body),
        (exists|i: int| 0 <= i < bodies.len() && #[trigger] keccak256(bodies[i]) == keccak256(body))
            ==> offer(bodies, body) == bodies,
        holds_id(bodies, tx_id(body)) <==> (exists|i: int|
            0 <= i < bodies.len() && #[trigger] keccak256(bodies[i]) == keccak256(body)),
{
    if holds_id(bodies, tx_id(body)) {
        let i = choose|i: int| 0 <= i < bodies.len() && #[trigger] tx_id(bodies[i]) == tx_id(body);
        assert(keccak256(bodies[i]) == keccak256(body));
    }
    if exists|i: int| 0 <= i < bodies.len() && #[trigger] keccak256(bodies[i]) == keccak256(body) {
        let i = choose|i: int| 0 <= i < bodies.len() && #[trigger] keccak256(bodies[i]) == keccak256(body);
        assert(tx_id(bodies[i]) == tx_id(body));
    }
}

/// Whether two digests hold the same bytes.
fn same_digest(a: &[u8; 32], b: &[u8; 32]) -> (same: bool)
    ensures
        same == (a@ == b@),
{
    let mut i: usize = 0;
    while i < 32
        invariant
            0 <= i <= 32,
            a@.len() == 32,
            b@.len() == 32,
            forall|j: int| 0 <= j < i ==> a@[j] == b@[j],
        decreases 32 - i,
    {
        if a[i] != b[i] {
            return false;
        }
        i = i + 1;
    }
    assert(a@ =~= b@);
    true
}

} // verus!
