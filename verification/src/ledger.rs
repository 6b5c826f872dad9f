//! The ledger surface this core reads and writes: the bounded status window
//! of recently accepted chain ids (with per-id acceptance timestamp and
//! consumed signatures, for replay rejection), the read-only stake table, and
//! the published finality state.

use vstd::prelude::*;
use crate::hashing::HashValue;
use crate::vote_state::Pubkey;

verus! {

/// How many accepted chain ids the status window retains; the oldest is
/// evicted first.
pub const MAX_ENTRY_IDS: usize = 1024;

/// One resident entry of the status window: an accepted chain id, the tick
/// height and timestamp of its acceptance, and the signatures consumed while
/// it is resident.
pub struct WindowSlot {
    pub tick_height: u64,
    pub id: HashValue,
    pub timestamp: u64,
    pub signatures: Vec<u64>,
}

/// A bounded ring of the last accepted chain ids, oldest first. A signature
/// is valid for replay rejection only while its id remains resident.
pub struct StatusWindow {
    pub slots: Vec<WindowSlot>,
    pub tick_height: u64,
}

impl StatusWindow {
    /// The slots hold the most recent tick heights, consecutively, ending at
    /// the window's tick height, and never more than the capacity.
    pub open spec fn wf(&self) -> bool {
        &&& self.slots@.len() <= MAX_ENTRY_IDS
        &&& self.slots@.len() <= self.tick_height
        &&& forall|i: int|
            0 <= i < self.slots@.len() ==> (#[trigger] self.slots@[i]).tick_height
                == self.tick_height - self.slots@.len() + 1 + i
    }

    /// Whether a tick height is still resident in the window.
    pub open spec fn resident(&self, h: u64) -> bool {
        self.tick_height - self.slots@.len() < h <= self.tick_height
    }

    /// The slot index of a resident tick height.
    pub open spec fn slot_index(&self, h: u64) -> int {
        self.slots@.len() - 1 - (self.tick_height - h)
    }

    pub fn new() -> (r: StatusWindow)
        ensures
            r.slots@.len() == 0,
            r.tick_height == 0,
            r.wf(),
    {
        StatusWindow { slots: Vec::new(), tick_height: 0 }
    }

    /// Accepts a new chain id at the next tick height, stamped with the
    /// caller's clock reading; evicts the oldest resident id when the window
    /// is full.
    pub fn register_tick(&mut self, id: HashValue, now: u64)
        requires
            old(self).wf(),
            old(self).tick_height < u64::MAX,
        ensures
            final(self).wf(),
            final(self).tick_height == old(self).tick_height + 1,
            final(self).slots@.len() == if old(self).slots@.len() < MAX_ENTRY_IDS {
                old(self).slots@.len() as int + 1
            } else {
                MAX_ENTRY_IDS as int
            },
            final(self).slots@.last().tick_height == old(self).tick_height + 1,
            final(self).slots@.last().id.bytes@ == id.bytes@,
            final(self).slots@.last().timestamp == now,
            final(self).slots@.last().signatures@.len() == 0,
            forall|i: int|
                0 <= i < final(self).slots@.len() - 1 ==> final(self).slots@[i] == old(
                    self,
                ).slots@[i + old(self).slots@.len() - final(self).slots@.len() + 1],
    {
        if self.slots.len() == MAX_ENTRY_IDS {
            self.slots.remove(0);
        }
        let slot = WindowSlot {
            tick_height: self.tick_height + 1,
            id,
            timestamp: now,
            signatures: Vec::new(),
        };
        self.slots.push(slot);
        self.tick_height = self.tick_height + 1;
    }

    /// The acceptance timestamp recorded for a tick height, while it remains
    /// resident.
    pub fn get_tick_timestamp(&self, h: u64) -> (r: Option<u64>)
        requires
            self.wf(),
        ensures
            r is Some <==> self.resident(h),
            self.resident(h) ==> r == Some(self.slots@[self.slot_index(h)].timestamp),
    {
        let len = self.slots.len();
        if h > self.tick_height || self.tick_height - h >= len as u64 {
            return None;
        }
        let idx = len - 1 - (self.tick_height - h) as usize;
        Some(self.slots[idx].timestamp)
    }

    /// Consumes a signature against a resident chain id: succeeds exactly
    /// when the id is still resident and the signature was not consumed there
    /// before. On success the signature joins the id's consumed set; on
    /// failure (expired id, or replayed signature) nothing changes.
    #[verifier::loop_isolation(false)]
    pub fn record_signature(&mut self, id: &HashValue, signature: u64) -> (r: bool)
        requires
            old(self).wf(),
        ensures
            final(self).wf(),
            final(self).tick_height == old(self).tick_height,
            final(self).slots@.len() == old(self).slots@.len(),
            ({
                let k = first_slot_with_id(old(self).slots@, id.bytes@);
                if k < 0 {
                    r == false && *final(self) == *old(self)
                } else if old(self).slots@[k].signatures@.contains(signature) {
                    r == false && *final(self) == *old(self)
                } else {
                    r == true && final(self).slots@[k].signatures@ == old(
                        self,
                    ).slots@[k].signatures@.push(signature) && final(self).slots@[k].tick_height
                        == old(self).slots@[k].tick_height && final(self).slots@[k].id.bytes@
                        == old(self).slots@[k].id.bytes@ && final(self).slots@[k].timestamp == old(
                        self,
                    ).slots@[k].timestamp && forall|i: int|
                        0 <= i < old(self).slots@.len() && i != k ==> final(self).slots@[i] == old(
                            self,
                        ).slots@[i]
                }
            }),
    {
        let ghost orig = *self;
        let len = self.slots.len();
        let mut i: usize = 0;
        while i < len
            invariant
                *self == orig,
                len == self.slots@.len(),
                0 <= i <= len,
                forall|j: int| 0 <= j < i ==> (#[trigger] self.slots@[j]).id.bytes@ != id.bytes@,
            decreases len - i,
        {
            if self.slots[i].id.same_as(id) {
                proof {
                    lemma_first_slot_with_id(self.slots@, id.bytes@, i as int);
                }
                let ns = self.slots[i].signatures.len();
                let mut j: usize = 0;
                while j < ns
                    invariant
                        *self == orig,
                        i < self.slots@.len(),
                        ns == self.slots@[i as int].signatures@.len(),
                        self.slots@[i as int].id.bytes@ == id.bytes@,
                        forall|m: int| 0 <= m < i ==> (#[trigger] self.slots@[m]).id.bytes@ != id.bytes@,
                        0 <= j <= ns,
                        forall|m: int|
                            0 <= m < j ==> self.slots@[i as int].signatures@[m] != signature,
                    decreases ns - j,
                {
                    if self.slots[i].signatures[j] == signature {
                        assert(self.slots@[i as int].signatures@.contains(signature));
                        return false;
                    }
                    j = j + 1;
                }
                assert(!self.slots@[i as int].signatures@.contains(signature));
                let slot = &mut self.slots[i];
                slot.signatures.push(signature);
                return true;
            }
            i = i + 1;
        }
        proof {
            lemma_no_slot_with_id(self.slots@, id.bytes@);
        }
        false
    }
}

/// The index of the first resident slot holding this chain id, or -1 where
/// none does.
pub open spec fn first_slot_with_id(slots: Seq<WindowSlot>, id: Seq<u8>) -> int
    decreases slots.len(),
{
    if slots.len() == 0 {
        -1
    } else if slots.first().id.bytes@ == id {
        0
    } else {
        let rest = first_slot_with_id(slots.drop_first(), id);
        if rest < 0 {
            -1
        } else {
            rest + 1
        }
    }
}

proof fn lemma_first_slot_with_id(slots: Seq<WindowSlot>, id: Seq<u8>, k: int)
    requires
        0 <= k < slots.len(),
        slots[k].id.bytes@ == id,
        forall|j: int| 0 <= j < k ==> (#[trigger] slots[j]).id.bytes@ != id,
    ensures
        first_slot_with_id(slots, id) == k,
    decreases slots.len(),
{
    if k > 0 {
        lemma_first_slot_with_id(slots.drop_first(), id, k - 1);
    }
}

proof fn lemma_no_slot_with_id(slots: Seq<WindowSlot>, id: Seq<u8>)
    requires
        forall|j: int| 0 <= j < slots.len() ==> (#[trigger] slots[j]).id.bytes@ != id,
    ensures
        first_slot_with_id(slots, id) == -1,
    decreases slots.len(),
{
    if slots.len() > 0 {
        lemma_no_slot_with_id(slots.drop_first(), id);
    }
}

/// One row of the read-only stake table.
pub struct StakeEntry {
    pub node_id: Pubkey,
    pub stake: u64,
}

/// The economic weight of a node's vote, by the first row naming it; a node
/// the table does not name weighs nothing.
pub open spec fn stake_of(entries: Seq<StakeEntry>, node_id: Pubkey) -> u64
    decreases entries.len(),
{
    if entries.len() == 0 {
        0u64
    } else if entries.first().node_id == node_id {
        entries.first().stake
    } else {
        stake_of(entries.drop_first(), node_id)
    }
}

/// A read-only mapping from validator identity to stake weight.
pub struct StakeTable {
    pub entries: Vec<StakeEntry>,
}

impl StakeTable {
    pub fn get_stake(&self, node_id: Pubkey) -> (r: u64)
        ensures
            r == stake_of(self.entries@, node_id),
    {
        let n = self.entries.len();
        proof {
            assert(self.entries@.subrange(0, n as int) =~= self.entries@);
        }
        let mut i: usize = 0;
        while i < n
            invariant
                n == self.entries@.len(),
                0 <= i <= n,
                stake_of(self.entries@, node_id) == stake_of(
                    self.entries@.subrange(i as int, n as int),
                    node_id,
                ),
            decreases n - i,
        {
            if self.entries[i].node_id.key == node_id.key {
                assert(self.entries@.subrange(i as int, n as int).first() == self.entries@[i as int]);
                return self.entries[i].stake;
            }
            proof {
                assert(self.entries@.subrange(i as int, n as int).drop_first() =~= self.entries@.subrange(
                    i as int + 1,
                    n as int,
                ));
            }
            i = i + 1;
        }
        proof {
            assert(self.entries@.subrange(n as int, n as int).len() == 0);
        }
        0
    }
}

/// The published outcome of the finality computation. On a cycle with no
/// valid supermajority the previous confirmed values are retained; rising
/// staleness signals the gap.
pub struct FinalityState {
    pub last_confirmed_tick_height: Option<u64>,
    pub last_confirmed_timestamp: Option<u64>,
    pub staleness_ms: u64,
}

impl FinalityState {
    /// Before any supermajority is observed: nothing confirmed, staleness at
    /// its largest value.
    pub fn new() -> (r: FinalityState)
        ensures
            r.last_confirmed_tick_height is None,
            r.last_confirmed_timestamp is None,
            r.staleness_ms == u64::MAX,
    {
        FinalityState {
            last_confirmed_tick_height: None,
            last_confirmed_timestamp: None,
            staleness_ms: u64::MAX,
        }
    }

    /// Publishes a staleness measurement, leaving the confirmed checkpoint as
    /// it is.
    pub fn set_finality(&mut self, staleness_ms: u64)
        ensures
            final(self).staleness_ms == staleness_ms,
            final(self).last_confirmed_tick_height == old(self).last_confirmed_tick_height,
            final(self).last_confirmed_timestamp == old(self).last_confirmed_timestamp,
    {
        self.staleness_ms = staleness_ms;
    }

    /// The staleness of the last confirmed checkpoint, as last published.
    pub fn finality(&self) -> (r: u64)
        ensures
            r == self.staleness_ms,
    {
        self.staleness_ms
    }
}

} // verus!
