//! Transactions as the consensus core sees them, and the bounded cache of
//! those waiting for a block.

use vstd::prelude::*;

verus! {

/// An accepted transaction: its hash and when it was created. Its body
/// stays with the transaction queue, which finds it by hash.
#[derive(Clone, Copy, Debug, PartialEq, Eq, Structural)]
pub struct Transaction {
    pub hash: u64,
    pub creation_time_ms: u64,
}

/// At time `now_ms`, `tx` has outlived `ttl_ms`.
pub open spec fn expired(tx: Transaction, now_ms: u64, ttl_ms: u64) -> bool {
    now_ms as int - tx.creation_time_ms as int > ttl_ms as int
}

/// Some transaction of `s` has hash `h`.
pub open spec fn holds_hash(s: Seq<Transaction>, h: u64) -> bool {
    exists|i: int| 0 <= i < s.len() && #[trigger] s[i].hash == h
}

/// `tx` stays in the cache at `now_ms`: it has not expired and is not
/// among the `committed` ones.
pub open spec fn stays(tx: Transaction, now_ms: u64, ttl_ms: u64, committed: Seq<Transaction>) -> bool {
    !expired(tx, now_ms, ttl_ms) && !holds_hash(committed, tx.hash)
}

/// Among the transactions of `s`, no two share a hash.
pub open spec fn hashes_distinct(s: Seq<Transaction>) -> bool {
    forall|i: int, j: int|
        0 <= i < s.len() && 0 <= j < s.len() && i != j ==> s[i].hash != s[j].hash
}

impl Transaction {
    /// Whether the transaction has outlived `ttl_ms` at time `now_ms`.
    pub fn is_expired(&self, now_ms: u64, ttl_ms: u64) -> (r: bool)
        ensures
            r == expired(*self, now_ms, ttl_ms),
    {
        now_ms > self.creation_time_ms && now_ms - self.creation_time_ms > ttl_ms
    }
}

/// Whether some transaction of `txs` has hash `h`.
pub fn contains_hash(txs: &Vec<Transaction>, h: u64) -> (r: bool)
    ensures
        r == holds_hash(txs@, h),
{
    let mut i: usize = 0;
    while i < txs.len()
        invariant
            0 <= i <= txs@.len(),
            forall|j: int| 0 <= j < i ==> txs@[j].hash != h,
        decreases txs@.len() - i,
    {
        if txs[i].hash == h {
            assert(txs@[i as int].hash == h);
            return true;
        }
        i = i + 1;
    }
    false
}

/// Transactions that wait for a block, oldest first, at most `capacity`
/// of them, no two with one hash.
#[derive(Debug)]
pub struct TransactionCache {
    pub transactions: Vec<Transaction>,
    pub capacity: usize,
}

impl TransactionCache {
    /// At most `capacity` transactions, with distinct hashes.
    pub open spec fn wf(&self) -> bool {
        self.transactions@.len() <= self.capacity && hashes_distinct(self.transactions@)
    }

    /// Empty cache for `capacity` transactions.
    pub fn new(capacity: usize) -> (r: TransactionCache)
        ensures
            r.wf(),
            r.capacity == capacity,
            r.transactions@.len() == 0,
    {
        TransactionCache { transactions: Vec::new(), capacity }
    }

    /// Number of cached transactions.
    pub fn len(&self) -> (r: usize)
        ensures
            r == self.transactions@.len(),
    {
        self.transactions.len()
    }

    /// Whether no transaction is cached.
    pub fn is_empty(&self) -> (r: bool)
        ensures
            r == (self.transactions@.len() == 0),
    {
        self.transactions.len() == 0
    }

    /// Whether the cache holds `capacity` transactions.
    pub fn is_full(&self) -> (r: bool)
        ensures
            r == (self.transactions@.len() >= self.capacity),
    {
        self.transactions.len() >= self.capacity
    }

    /// Adds `tx` at the end, unless the cache is full or already holds its
    /// hash.
    pub fn push(&mut self, tx: Transaction) -> (r: bool)
        requires
            old(self).wf(),
        ensures
            final(self).wf(),
            final(self).capacity == old(self).capacity,
            r == (old(self).transactions@.len() < old(self).capacity && !holds_hash(
                old(self).transactions@,
                tx.hash,
            )),
            r ==> final(self).transactions@ == old(self).transactions@.push(tx),
            !r ==> final(self).transactions@ == old(self).transactions@,
    {
        if self.transactions.len() >= self.capacity || contains_hash(&self.transactions, tx.hash) {
            return false;
        }
        proof {
            assert forall|j: int| 0 <= j < self.transactions@.len() implies self.transactions@[j].hash
                != tx.hash by {
                if self.transactions@[j].hash == tx.hash {
                    assert(holds_hash(self.transactions@, tx.hash));
                }
            }
        }
        self.transactions.push(tx);
        true
    }

    /// Drops the transactions that have outlived `ttl_ms` at `now_ms`, and
    /// those whose hash is in `committed`, keeping the order of the rest.
    pub fn prune(&mut self, now_ms: u64, ttl_ms: u64, committed: &Vec<Transaction>)
        requires
            old(self).wf(),
        ensures
            final(self).wf(),
            final(self).capacity == old(self).capacity,
            final(self).transactions@ == old(self).transactions@.filter(
                |t: Transaction| stays(t, now_ms, ttl_ms, committed@),
            ),
    {
        let ghost old_txs = self.transactions@;
        let ghost pred = |t: Transaction| stays(t, now_ms, ttl_ms, committed@);
        let mut kept: Vec<Transaction> = Vec::new();
        let mut i: usize = 0;
        while i < self.transactions.len()
            invariant
                self.transactions@ == old_txs,
                self.capacity == old(self).capacity,
                old_txs.len() <= self.capacity,
                hashes_distinct(old_txs),
                pred == (|t: Transaction| stays(t, now_ms, ttl_ms, committed@)),
                0 <= i <= old_txs.len(),
                kept@ == old_txs.subrange(0, i as int).filter(pred),
                kept@.len() <= i,
                hashes_distinct(kept@),
                forall|j: int|
                    0 <= j < kept@.len() ==> exists|m: int|
                        0 <= m < i && #[trigger] old_txs[m] == #[trigger] kept@[j],
            decreases old_txs.len() - i,
        {
            let tx = self.transactions[i];
            proof {
                assert(old_txs.subrange(0, i + 1) =~= old_txs.subrange(0, i as int).push(tx));
                crate::topology::lemma_filter_push(old_txs.subrange(0, i as int), tx, pred);
            }
            if !tx.is_expired(now_ms, ttl_ms) && !contains_hash(committed, tx.hash) {
                proof {
                    assert forall|j: int| 0 <= j < kept@.len() implies kept@[j].hash != tx.hash by {
                        let m = choose|m: int| 0 <= m < i && #[trigger] old_txs[m] == kept@[j];
                        assert(m != i);
                    }
                }
                kept.push(tx);
                proof {
                    assert forall|j: int| 0 <= j < kept@.len() implies exists|m: int|
                        0 <= m < i + 1 && #[trigger] old_txs[m] == #[trigger] kept@[j] by {
                        if j == kept@.len() - 1 {
                            assert(old_txs[i as int] == kept@[j]);
                        } else {
                            let m = choose|m: int| 0 <= m < i && #[trigger] old_txs[m] == kept@[j];
                            assert(old_txs[m] == kept@[j]);
                        }
                    }
                }
            }
            i = i + 1;
        }
        proof {
            assert(old_txs.subrange(0, old_txs.len() as int) =~= old_txs);
        }
        self.transactions = kept;
    }

    /// The oldest cached transactions, at most `batch_size` of them: what a
    /// gossip round sends.
    pub fn gossip_batch(&self, batch_size: u32) -> (r: Vec<Transaction>)
        ensures
            r@.len() == if self.transactions@.len() < batch_size {
                self.transactions@.len()
            } else {
                batch_size as nat
            },
            r@ == self.transactions@.subrange(0, r@.len() as int),
    {
        let mut r: Vec<Transaction> = Vec::new();
        let mut i: usize = 0;
        while i < self.transactions.len() && (i as u64) < (batch_size as u64)
            invariant
                0 <= i <= self.transactions@.len(),
                i <= batch_size,
                r@ =~= self.transactions@.subrange(0, i as int),
            decreases self.transactions@.len() - i,
        {
            r.push(self.transactions[i]);
            i = i + 1;
        }
        r
    }
}

} // verus!
