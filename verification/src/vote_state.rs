//! Bounded per-validator vote history, and the vote program's two
//! instructions (register a vote account, append a new vote) in their decoded
//! form. The byte encoding of instructions and account data belongs to a
//! serialization collaborator; this module works on the decoded values.

use vstd::prelude::*;
use std::collections::VecDeque;

verus! {

/// A validator's public-key identifier, reduced to the plain value the logic
/// compares.
#[derive(Clone, Copy, Debug, PartialEq, Eq, Structural)]
pub struct Pubkey {
    pub key: u64,
}

/// The identity that owns every vote account.
pub const VOTE_PROGRAM_KEY: u64 = 0x5653;

/// Whether an identifier is the vote program's owner identity.
pub fn check_id(owner: &Pubkey) -> (r: bool)
    ensures
        r == (owner.key == VOTE_PROGRAM_KEY),
{
    owner.key == VOTE_PROGRAM_KEY
}

/// One vote: an acknowledgement of a chain checkpoint.
#[derive(Clone, Copy, Debug, PartialEq, Eq, Structural)]
pub struct Vote {
    pub tick_height: u64,
}

/// How many votes a vote account retains; older votes are evicted first.
pub const MAX_VOTE_HISTORY: usize = 32;

/// A vote account's state: who votes, and the bounded history of their votes
/// in submission order, oldest first.
pub struct VoteAccountState {
    pub node_id: Pubkey,
    pub votes: VecDeque<Vote>,
}

/// The vote queue after one insertion: appended at the tail, evicting the
/// oldest vote first when the queue is at capacity.
pub open spec fn pushed(votes: Seq<Vote>, vote: Vote) -> Seq<Vote> {
    if votes.len() < MAX_VOTE_HISTORY {
        votes.push(vote)
    } else {
        votes.subrange(1, votes.len() as int).push(vote)
    }
}

impl VoteAccountState {
    pub open spec fn wf(&self) -> bool {
        self.votes@.len() <= MAX_VOTE_HISTORY
    }

    /// A fresh state for a registering validator: no votes yet.
    pub fn new(node_id: Pubkey) -> (r: VoteAccountState)
        ensures
            r.node_id == node_id,
            r.votes@.len() == 0,
            r.wf(),
    {
        VoteAccountState { node_id, votes: VecDeque::new() }
    }

    /// Appends a vote, evicting the oldest one first when the history is at
    /// capacity. Insertion order is preserved.
    pub fn push_vote(&mut self, vote: Vote)
        requires
            old(self).wf(),
        ensures
            final(self).votes@ == pushed(old(self).votes@, vote),
            final(self).node_id == old(self).node_id,
            final(self).wf(),
    {
        if self.votes.len() == MAX_VOTE_HISTORY {
            self.votes.pop_front();
        }
        self.votes.push_back(vote);
    }

    /// The most recent vote, if any.
    pub fn last_vote(&self) -> (r: Option<Vote>)
        ensures
            self.votes@.len() == 0 ==> r is None,
            self.votes@.len() > 0 ==> r == Some(self.votes@.last()),
    {
        let n = self.votes.len();
        if n == 0 {
            None
        } else {
            Some(self.votes[n - 1])
        }
    }
}

/// How a sequence of votes, inserted in order into a queue, leaves it.
pub open spec fn pushed_all(votes: Seq<Vote>, incoming: Seq<Vote>) -> Seq<Vote>
    decreases incoming.len(),
{
    if incoming.len() == 0 {
        votes
    } else {
        pushed_all(pushed(votes, incoming.first()), incoming.drop_first())
    }
}

proof fn lemma_pushed_all_bounded(votes: Seq<Vote>, incoming: Seq<Vote>)
    requires
        votes.len() <= MAX_VOTE_HISTORY,
        votes.len() + incoming.len() == MAX_VOTE_HISTORY + 1,
    ensures
        pushed_all(votes, incoming) == (votes + incoming).subrange(
            1,
            MAX_VOTE_HISTORY as int + 1,
        ),
    decreases incoming.len(),
{
    if votes.len() == MAX_VOTE_HISTORY {
        assert(incoming.len() == 1);
        assert(pushed(votes, incoming.first()) =~= (votes + incoming).subrange(
            1,
            MAX_VOTE_HISTORY as int + 1,
        ));
        assert(pushed_all(pushed(votes, incoming.first()), incoming.drop_first()) == pushed(
            votes,
            incoming.first(),
        ));
    } else {
        lemma_pushed_all_bounded(votes.push(incoming.first()), incoming.drop_first());
        assert(votes.push(incoming.first()) + incoming.drop_first() =~= votes + incoming);
    }
}

/// Law: inserting one vote more than the capacity into an empty vote account
/// leaves exactly the most recent `MAX_VOTE_HISTORY` votes, in original
/// submission order; the oldest submitted vote is absent unless it was
/// submitted again later.
pub proof fn lemma_capacity_eviction(incoming: Seq<Vote>)
    requires
        incoming.len() == MAX_VOTE_HISTORY + 1,
    ensures
        pushed_all(Seq::<Vote>::empty(), incoming) == incoming.subrange(
            1,
            MAX_VOTE_HISTORY as int + 1,
        ),
        (forall|j: int|
            1 <= j < incoming.len() ==> #[trigger] incoming[j] != incoming[0]) ==> !pushed_all(
            Seq::<Vote>::empty(),
            incoming,
        ).contains(incoming[0]),
{
    lemma_pushed_all_bounded(Seq::<Vote>::empty(), incoming);
    assert(Seq::<Vote>::empty() + incoming =~= incoming);
    let kept = incoming.subrange(1, MAX_VOTE_HISTORY as int + 1);
    if forall|j: int| 1 <= j < incoming.len() ==> #[trigger] incoming[j] != incoming[0] {
        assert forall|k: int| 0 <= k < kept.len() implies kept[k] != incoming[0] by {
            assert(kept[k] == incoming[k + 1]);
        }
        assert(!kept.contains(incoming[0]));
    }
}

/// A decoded vote instruction; the wire format is a tagged union decoded by a
/// serialization collaborator before it reaches this module.
pub enum VoteInstruction {
    RegisterAccount,
    NewVote(Vote),
}

/// Why an instruction was rejected. A rejected instruction leaves every
/// account untouched.
#[derive(Debug, PartialEq, Eq, Structural)]
pub enum VoteError {
    /// A required signer is missing, or an account is not owned by the vote
    /// program's owner identity.
    Authorization,
    /// Stored bytes (instruction data or account data) do not decode.
    Deserialization,
}

/// An account as the vote program sees it: its owner, and its stored vote
/// state in decoded form. `state` is `None` where the stored bytes do not
/// parse as a vote account state.
pub struct VoteAccount {
    pub owner: Pubkey,
    pub state: Option<VoteAccountState>,
}

impl VoteAccount {
    pub open spec fn wf(&self) -> bool {
        self.state is Some ==> self.state->0.wf()
    }
}

/// Dispatches one decoded vote instruction against the accounts it names:
/// `signer` is the first account's signer key if it signed, `first_account`
/// is the first account's stored data, and `target_account` is the account a
/// registration initializes. `instruction` is `None` where the instruction
/// bytes did not decode. A rejected instruction leaves both accounts exactly
/// as they were; on success the result says the instruction's whole effect.
/// Returns whether a new vote was accepted, so a caller can emit its
/// best-effort counter metric without that sink ever failing the instruction.
pub fn process_vote_instruction(
    signer: Option<Pubkey>,
    first_account: &mut VoteAccount,
    target_account: &mut VoteAccount,
    instruction: Option<VoteInstruction>,
) -> (r: Result<bool, VoteError>)
    requires
        old(first_account).wf(),
        old(target_account).wf(),
    ensures
        final(first_account).wf(),
        final(target_account).wf(),
        r is Err ==> *final(first_account) == *old(first_account) && *final(target_account)
            == *old(target_account),
        signer is None ==> r == Result::<bool, VoteError>::Err(VoteError::Authorization),
        signer is Some && instruction is None ==> r == Result::<bool, VoteError>::Err(
            VoteError::Deserialization,
        ),
        (signer is Some && instruction matches Some(VoteInstruction::RegisterAccount)) ==> {
            &&& old(target_account).owner.key != VOTE_PROGRAM_KEY ==> r == Result::<
                bool,
                VoteError,
            >::Err(VoteError::Authorization)
            &&& old(target_account).owner.key == VOTE_PROGRAM_KEY ==> {
                &&& r == Result::<bool, VoteError>::Ok(false)
                &&& final(target_account).owner == old(target_account).owner
                &&& final(target_account).state matches Some(s) && s.node_id == signer->0
                    && s.votes@.len() == 0
                &&& *final(first_account) == *old(first_account)
            }
        },
        signer is Some ==> (match instruction {
            Some(VoteInstruction::NewVote(v)) => {
                &&& old(first_account).owner.key != VOTE_PROGRAM_KEY ==> r == Result::<
                    bool,
                    VoteError,
                >::Err(VoteError::Authorization)
                &&& old(first_account).owner.key == VOTE_PROGRAM_KEY ==> (match old(
                    first_account,
                ).state {
                    None => r == Result::<bool, VoteError>::Err(VoteError::Deserialization),
                    Some(s0) => {
                        &&& r == Result::<bool, VoteError>::Ok(true)
                        &&& final(first_account).owner == old(first_account).owner
                        &&& (match final(first_account).state {
                            Some(s1) => s1.node_id == s0.node_id && s1.votes@ == pushed(
                                s0.votes@,
                                v,
                            ),
                            None => false,
                        })
                        &&& *final(target_account) == *old(target_account)
                    },
                })
            },
            _ => true,
        }),
{
    let signer_key = match signer {
        None => {
            return Err(VoteError::Authorization);
        },
        Some(k) => k,
    };
    match instruction {
        None => Err(VoteError::Deserialization),
        Some(VoteInstruction::RegisterAccount) => {
            if !check_id(&target_account.owner) {
                return Err(VoteError::Authorization);
            }
            target_account.state = Some(VoteAccountState::new(signer_key));
            Ok(false)
        },
        Some(VoteInstruction::NewVote(vote)) => {
            if !check_id(&first_account.owner) {
                return Err(VoteError::Authorization);
            }
            let state = match first_account.state.take() {
                None => {
                    return Err(VoteError::Deserialization);
                },
                Some(s) => s,
            };
            let mut state = state;
            state.push_vote(vote);
            first_account.state = Some(state);
            Ok(true)
        },
    }
}

} // verus!
