//! The immutable record unit the chain produces: an id, the number of chain
//! iterations since the previous entry, and the transactions mixed in.

use vstd::prelude::*;
use crate::hashing::{digest_of, HashValue};

verus! {

/// An externally submitted transaction, reduced to the payload bytes the
/// chain mixes in. Signature checking is assumed complete before recording.
pub struct Transaction {
    pub payload: Vec<u8>,
}

/// One record unit of the chain. A tick is the distinguished form with empty
/// transactions.
pub struct Entry {
    pub id: HashValue,
    pub num_hashes: u64,
    pub transactions: Vec<Transaction>,
}

/// The payloads of a batch of transactions, laid end to end: the byte string
/// whose digest the chain mixes in.
pub open spec fn payloads_of(txs: Seq<Transaction>) -> Seq<u8>
    decreases txs.len(),
{
    if txs.len() == 0 {
        Seq::<u8>::empty()
    } else {
        txs.first().payload@ + payloads_of(txs.drop_first())
    }
}

/// The digest a batch of transactions contributes to the chain.
pub open spec fn transactions_digest(txs: Seq<Transaction>) -> Seq<u8> {
    digest_of(payloads_of(txs))
}

impl Entry {
    pub open spec fn is_tick_spec(&self) -> bool {
        self.transactions@.len() == 0
    }

    /// Whether this entry is a cadence checkpoint rather than a transaction
    /// record.
    pub fn is_tick(&self) -> (r: bool)
        ensures
            r == self.is_tick_spec(),
    {
        self.transactions.len() == 0
    }
}

proof fn lemma_payloads_of_push(txs: Seq<Transaction>, tx: Transaction)
    ensures
        payloads_of(txs.push(tx)) == payloads_of(txs) + tx.payload@,
    decreases txs.len(),
{
    if txs.len() == 0 {
        assert(txs.push(tx).drop_first() =~= txs);
        assert(payloads_of(txs.push(tx)) =~= payloads_of(txs) + tx.payload@);
    } else {
        assert(txs.push(tx).drop_first() =~= txs.drop_first().push(tx));
        lemma_payloads_of_push(txs.drop_first(), tx);
        assert(payloads_of(txs.push(tx)) =~= payloads_of(txs) + tx.payload@);
    }
}

/// The flattened payload bytes of a batch, computed for mixing into the chain.
pub fn flatten_payloads(txs: &Vec<Transaction>) -> (r: Vec<u8>)
    ensures
        r@ == payloads_of(txs@),
{
    let mut out: Vec<u8> = Vec::new();
    let n = txs.len();
    let mut i: usize = 0;
    while i < n
        invariant
            n == txs@.len(),
            0 <= i <= n,
            out@ == payloads_of(txs@.subrange(0, i as int)),
        decreases n - i,
    {
        let p = &txs[i].payload;
        let m = p.len();
        let mut j: usize = 0;
        while j < m
            invariant
                m == p@.len(),
                0 <= j <= m,
                p == &txs@[i as int].payload,
                i < n == txs@.len(),
                out@ == payloads_of(txs@.subrange(0, i as int)) + p@.subrange(0, j as int),
            decreases m - j,
        {
            out.push(p[j]);
            j = j + 1;
        }
        proof {
            lemma_payloads_of_push(txs@.subrange(0, i as int), txs@[i as int]);
            assert(txs@.subrange(0, i as int).push(txs@[i as int]) =~= txs@.subrange(
                0,
                i as int + 1,
            ));
            assert(p@.subrange(0, m as int) =~= p@);
        }
        i = i + 1;
    }
    proof {
        assert(txs@.subrange(0, n as int) =~= txs@);
    }
    out
}

} // verus!
