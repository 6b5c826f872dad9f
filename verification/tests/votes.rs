//! Tests of the bounded vote history and the vote instructions.

use poh_finality::vote_state::{
    check_id, process_vote_instruction, Pubkey, Vote, VoteAccount, VoteAccountState, VoteError,
    VoteInstruction, MAX_VOTE_HISTORY, VOTE_PROGRAM_KEY,
};

fn vote_owned_account(state: Option<VoteAccountState>) -> VoteAccount {
    VoteAccount { owner: Pubkey { key: VOTE_PROGRAM_KEY }, state }
}

fn foreign_account() -> VoteAccount {
    VoteAccount { owner: Pubkey { key: 1 }, state: None }
}

#[test]
fn check_id_recognizes_only_the_vote_program_owner() {
    assert!(check_id(&Pubkey { key: VOTE_PROGRAM_KEY }));
    assert!(!check_id(&Pubkey { key: 7 }));
}

#[test]
fn capacity_eviction_keeps_the_most_recent_votes_in_order() {
    let mut state = VoteAccountState::new(Pubkey { key: 9 });
    for h in 0..(MAX_VOTE_HISTORY as u64 + 1) {
        state.push_vote(Vote { tick_height: h });
    }
    assert_eq!(state.votes.len(), MAX_VOTE_HISTORY);
    // Exactly the most recent votes remain, in submission order; the oldest
    // (tick height 0) is absent.
    for (i, v) in state.votes.iter().enumerate() {
        assert_eq!(v.tick_height, i as u64 + 1);
    }
    assert!(state.votes.iter().all(|v| v.tick_height != 0));
    assert_eq!(state.last_vote(), Some(Vote { tick_height: MAX_VOTE_HISTORY as u64 }));
}

#[test]
fn unsigned_instruction_is_rejected() {
    let mut first = vote_owned_account(None);
    let mut target = vote_owned_account(None);
    let r = process_vote_instruction(
        None,
        &mut first,
        &mut target,
        Some(VoteInstruction::RegisterAccount),
    );
    assert_eq!(r, Err(VoteError::Authorization));
    assert!(target.state.is_none());
}

#[test]
fn undecodable_instruction_is_rejected() {
    let mut first = vote_owned_account(None);
    let mut target = vote_owned_account(None);
    let r = process_vote_instruction(Some(Pubkey { key: 3 }), &mut first, &mut target, None);
    assert_eq!(r, Err(VoteError::Deserialization));
}

#[test]
fn register_requires_the_vote_program_owner() {
    let mut first = vote_owned_account(None);
    let mut target = foreign_account();
    let r = process_vote_instruction(
        Some(Pubkey { key: 3 }),
        &mut first,
        &mut target,
        Some(VoteInstruction::RegisterAccount),
    );
    assert_eq!(r, Err(VoteError::Authorization));
    assert!(target.state.is_none());
}

#[test]
fn register_initializes_an_empty_vote_state_for_the_signer() {
    let mut first = vote_owned_account(None);
    let mut target = vote_owned_account(None);
    let r = process_vote_instruction(
        Some(Pubkey { key: 3 }),
        &mut first,
        &mut target,
        Some(VoteInstruction::RegisterAccount),
    );
    assert_eq!(r, Ok(false));
    let state = target.state.expect("Expected successful creation of account");
    assert_eq!(state.node_id, Pubkey { key: 3 });
    assert!(state.votes.is_empty());
}

#[test]
fn new_vote_appends_to_the_history() {
    let mut first = vote_owned_account(Some(VoteAccountState::new(Pubkey { key: 3 })));
    let mut target = vote_owned_account(None);
    let r = process_vote_instruction(
        Some(Pubkey { key: 3 }),
        &mut first,
        &mut target,
        Some(VoteInstruction::NewVote(Vote { tick_height: 5 })),
    );
    assert_eq!(r, Ok(true));
    let state = first.state.unwrap();
    assert_eq!(state.last_vote(), Some(Vote { tick_height: 5 }));
    assert_eq!(state.votes.len(), 1);
}

#[test]
fn new_vote_on_unreadable_state_is_rejected() {
    let mut first = vote_owned_account(None);
    let mut target = vote_owned_account(None);
    let r = process_vote_instruction(
        Some(Pubkey { key: 3 }),
        &mut first,
        &mut target,
        Some(VoteInstruction::NewVote(Vote { tick_height: 5 })),
    );
    assert_eq!(r, Err(VoteError::Deserialization));
    assert!(first.state.is_none());
}

#[test]
fn new_vote_requires_the_vote_program_owner() {
    let mut first = foreign_account();
    let mut target = vote_owned_account(None);
    let r = process_vote_instruction(
        Some(Pubkey { key: 3 }),
        &mut first,
        &mut target,
        Some(VoteInstruction::NewVote(Vote { tick_height: 5 })),
    );
    assert_eq!(r, Err(VoteError::Authorization));
}
