//! The recorder serializes mutation of the chain state: idle advances,
//! recording externally submitted transactions, and cadence ticks. A caller
//! (the mutual-exclusion guard around it) admits one mutation at a time; each
//! call here sees a clean prior state or reports a definite conflict.

use vstd::prelude::*;
use crate::entry::{transactions_digest, Entry, Transaction};
use crate::hashing::{mixed_digest, next_digest, HashValue};

verus! {

/// The recorder's expected prior id was stale: the chain already advanced
/// past the caller's expectation, and the caller must retry with fresh state.
#[derive(Debug, PartialEq, Eq, Structural)]
pub enum RecordError {
    Conflict,
}

/// Chain state plus the entries accumulated since the previous tick.
pub struct PohRecorder {
    /// The current chain id.
    pub id: HashValue,
    /// Idle advances since the previous tick (or since the start).
    pub hashes_since_tick: u64,
    /// Cadence checkpoints produced so far.
    pub tick_height: u64,
    /// Entries recorded since the previous tick, in chain order, awaiting
    /// delivery at the next tick.
    pub pending: Vec<Entry>,
}

impl PohRecorder {
    pub open spec fn wf(&self) -> bool {
        self.id.wf()
    }

    pub fn new(start_id: HashValue) -> (r: PohRecorder)
        requires
            start_id.wf(),
        ensures
            r.id.bytes@ == start_id.bytes@,
            r.hashes_since_tick == 0,
            r.tick_height == 0,
            r.pending@.len() == 0,
            r.wf(),
    {
        PohRecorder { id: start_id, hashes_since_tick: 0, tick_height: 0, pending: Vec::new() }
    }

    /// One idle advance: id := H(id), representing elapsed time with no
    /// external input.
    pub fn advance_hash(&mut self)
        requires
            old(self).wf(),
            old(self).hashes_since_tick < u64::MAX,
        ensures
            final(self).id.bytes@ == next_digest(old(self).id.bytes@),
            final(self).hashes_since_tick == old(self).hashes_since_tick + 1,
            final(self).tick_height == old(self).tick_height,
            final(self).pending@ == old(self).pending@,
            final(self).wf(),
    {
        self.id = crate::hashing::extend_id(&self.id);
        self.hashes_since_tick = self.hashes_since_tick + 1;
    }

    /// Records a batch of transactions against an expected prior chain id.
    /// Succeeds exactly when the expectation still matches the current id; on
    /// success the chain mixes in the transactions' digest and the new entry
    /// joins the batch to be delivered at the next tick. On a conflict the
    /// state is untouched.
    pub fn record(&mut self, expected_prior_id: &HashValue, transactions: Vec<Transaction>) -> (r:
        Result<(), RecordError>)
        requires
            old(self).wf(),
        ensures
            r is Ok <==> expected_prior_id.bytes@ == old(self).id.bytes@,
            r is Err ==> *final(self) == *old(self),
            r is Err ==> r == Result::<(), RecordError>::Err(RecordError::Conflict),
            r is Ok ==> final(self).id.bytes@ == mixed_digest(
                old(self).id.bytes@,
                transactions_digest(transactions@),
            ),
            r is Ok ==> final(self).pending@.len() == old(self).pending@.len() + 1,
            r is Ok ==> final(self).pending@ == old(self).pending@.push(
                final(self).pending@.last(),
            ),
            r is Ok ==> final(self).pending@.last().id.bytes@ == final(self).id.bytes@,
            r is Ok ==> final(self).pending@.last().num_hashes == 1,
            r is Ok ==> final(self).pending@.last().transactions@ == transactions@,
            final(self).hashes_since_tick == old(self).hashes_since_tick,
            final(self).tick_height == old(self).tick_height,
            final(self).wf(),
    {
        if !expected_prior_id.same_as(&self.id) {
            return Err(RecordError::Conflict);
        }
        let flat = crate::entry::flatten_payloads(&transactions);
        let mixin = crate::hashing::digest_bytes(&flat);
        let new_id = crate::hashing::extend_id_with(&self.id, &mixin);
        self.id = new_id;
        let entry = Entry {
            id: self.id.clone_value(),
            num_hashes: 1,
            transactions,
        };
        self.pending.push(entry);
        Ok(())
    }

    /// Appends the cadence checkpoint entry and delivers the whole batch
    /// accumulated since the previous tick, in chain order: the recorded
    /// entries first, the tick entry last. Resets the idle-advance counter
    /// and raises the tick height; the tick entry's num_hashes equals exactly
    /// the number of idle advances since the previous tick.
    pub fn tick(&mut self) -> (batch: Vec<Entry>)
        requires
            old(self).wf(),
            old(self).tick_height < u64::MAX,
        ensures
            batch@.len() == old(self).pending@.len() + 1,
            forall|i: int| 0 <= i < old(self).pending@.len() ==> batch@[i] == old(self).pending@[i],
            batch@.last().is_tick_spec(),
            batch@.last().id.bytes@ == old(self).id.bytes@,
            batch@.last().num_hashes == old(self).hashes_since_tick,
            final(self).id.bytes@ == old(self).id.bytes@,
            final(self).hashes_since_tick == 0,
            final(self).tick_height == old(self).tick_height + 1,
            final(self).pending@.len() == 0,
            final(self).wf(),
    {
        let tick_entry = Entry {
            id: self.id.clone_value(),
            num_hashes: self.hashes_since_tick,
            transactions: Vec::new(),
        };
        let mut batch: Vec<Entry> = Vec::new();
        core::mem::swap(&mut batch, &mut self.pending);
        batch.push(tick_entry);
        self.hashes_since_tick = 0;
        self.tick_height = self.tick_height + 1;
        batch
    }
}

/// How many entries of a delivered batch carry exactly this transaction
/// batch.
pub open spec fn entries_carrying(batch: Seq<Entry>, txs: Seq<Transaction>) -> nat
    decreases batch.len(),
{
    if batch.len() == 0 {
        0
    } else {
        (if batch.first().transactions@ == txs {
            1nat
        } else {
            0nat
        }) + entries_carrying(batch.drop_first(), txs)
    }
}

proof fn lemma_carrying_none(batch: Seq<Entry>, txs: Seq<Transaction>)
    requires
        forall|i: int| 0 <= i < batch.len() ==> batch[i].transactions@ != txs,
    ensures
        entries_carrying(batch, txs) == 0,
    decreases batch.len(),
{
    if batch.len() > 0 {
        lemma_carrying_none(batch.drop_first(), txs);
    }
}

proof fn lemma_carrying_unique(batch: Seq<Entry>, txs: Seq<Transaction>, k: int)
    requires
        0 <= k < batch.len(),
        batch[k].transactions@ == txs,
        forall|i: int| 0 <= i < batch.len() && i != k ==> batch[i].transactions@ != txs,
    ensures
        entries_carrying(batch, txs) == 1,
    decreases batch.len(),
{
    if k == 0 {
        lemma_carrying_none(batch.drop_first(), txs);
    } else {
        lemma_carrying_unique(batch.drop_first(), txs, k - 1);
    }
}

/// Law: a nonempty transaction batch handed to `record` after the previous
/// tick is delivered in exactly one entry of the batch the next `tick`
/// returns, and that entry stands strictly before the tick entry that closes
/// the batch. The premises are exactly what `record` ensures of the entry it
/// appends and what `tick` ensures of the batch it delivers, plus that the
/// same transactions were not already recorded since the previous tick.
pub proof fn lemma_record_then_tick_delivers_once(
    pending_before: Seq<Entry>,
    e: Entry,
    batch: Seq<Entry>,
    txs: Seq<Transaction>,
)
    requires
        txs.len() > 0,
        forall|i: int| 0 <= i < pending_before.len() ==> pending_before[i].transactions@ != txs,
        e.transactions@ == txs,
        batch.len() == pending_before.len() + 2,
        forall|i: int| 0 <= i < pending_before.len() ==> batch[i] == pending_before[i],
        batch[pending_before.len() as int] == e,
        batch.last().is_tick_spec(),
    ensures
        entries_carrying(batch, txs) == 1,
        batch[pending_before.len() as int].transactions@ == txs,
        pending_before.len() < batch.len() - 1,
        batch.last().is_tick_spec(),
{
    let k = pending_before.len() as int;
    assert forall|i: int| 0 <= i < batch.len() && i != k implies batch[i].transactions@
        != txs by {
        if i < k {
            assert(batch[i] == pending_before[i]);
        } else {
            assert(i == batch.len() - 1);
            assert(batch[i].transactions@.len() == 0);
        }
    }
    lemma_carrying_unique(batch, txs, k);
}

} // verus!
