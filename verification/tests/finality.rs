//! Tests of the status window, the stake table and the finality computation.

use poh_finality::finality::{
    compute_finality, confirmed_tick_height, get_finality_timestamp,
    get_last_supermajority_timestamp, sum_stake_at_or_above, FinalityError, COMPUTE_FINALITY_MS,
};
use poh_finality::hashing::HashValue;
use poh_finality::ledger::{FinalityState, StakeEntry, StakeTable, StatusWindow, MAX_ENTRY_IDS};
use poh_finality::vote_state::{Pubkey, Vote, VoteAccount, VoteAccountState, VOTE_PROGRAM_KEY};

fn id_of(byte: u8) -> HashValue {
    HashValue { bytes: vec![byte; 32] }
}

/// A window whose tick heights 1..=n carry timestamps 1000 + height.
fn window_with_ticks(n: u64) -> StatusWindow {
    let mut w = StatusWindow::new();
    for h in 1..=n {
        w.register_tick(id_of(h as u8), 1000 + h);
    }
    w
}

fn voter(key: u64, votes: &[u64]) -> VoteAccount {
    let mut state = VoteAccountState::new(Pubkey { key });
    for &h in votes {
        state.push_vote(Vote { tick_height: h });
    }
    VoteAccount { owner: Pubkey { key: VOTE_PROGRAM_KEY }, state: Some(state) }
}

fn unit_stakes(keys: std::ops::Range<u64>) -> StakeTable {
    StakeTable {
        entries: keys.map(|key| StakeEntry { node_id: Pubkey { key }, stake: 1 }).collect(),
    }
}

#[test]
fn window_timestamps_are_resident_until_evicted() {
    let w = window_with_ticks(3);
    assert_eq!(w.get_tick_timestamp(1), Some(1001));
    assert_eq!(w.get_tick_timestamp(3), Some(1003));
    assert_eq!(w.get_tick_timestamp(0), None);
    assert_eq!(w.get_tick_timestamp(4), None);
}

#[test]
fn window_evicts_the_oldest_height_beyond_capacity() {
    let w = window_with_ticks(MAX_ENTRY_IDS as u64 + 1);
    assert_eq!(w.get_tick_timestamp(1), None);
    assert_eq!(w.get_tick_timestamp(2), Some(1002));
    assert_eq!(w.get_tick_timestamp(MAX_ENTRY_IDS as u64 + 1), Some(1000 + MAX_ENTRY_IDS as u64 + 1));
}

#[test]
fn signatures_are_consumed_once_while_their_id_is_resident() {
    let mut w = window_with_ticks(2);
    assert!(w.record_signature(&id_of(1), 77));
    // A replayed signature is rejected while the id is resident.
    assert!(!w.record_signature(&id_of(1), 77));
    // A different signature against the same id is fine.
    assert!(w.record_signature(&id_of(1), 78));
    // An id the window never accepted is rejected.
    assert!(!w.record_signature(&id_of(9), 79));
}

#[test]
fn stake_lookup_takes_the_first_row_and_defaults_to_zero() {
    let stakes = StakeTable {
        entries: vec![
            StakeEntry { node_id: Pubkey { key: 1 }, stake: 5 },
            StakeEntry { node_id: Pubkey { key: 1 }, stake: 9 },
        ],
    };
    assert_eq!(stakes.get_stake(Pubkey { key: 1 }), 5);
    assert_eq!(stakes.get_stake(Pubkey { key: 2 }), 0);
}

#[test]
fn cumulative_stake_counts_votes_at_or_above_a_height() {
    let pairs: Vec<(u64, u64)> = vec![(1, 1), (2, 1), (3, 1), (4, 1), (5, 1), (6, 1)];
    assert_eq!(sum_stake_at_or_above(&pairs, 6), 1);
    assert_eq!(sum_stake_at_or_above(&pairs, 4), 3);
    assert_eq!(sum_stake_at_or_above(&pairs, 1), 6);
    assert_eq!(sum_stake_at_or_above(&pairs, 7), 0);
}

#[test]
fn confirmed_height_is_the_highest_meeting_the_threshold() {
    let pairs: Vec<(u64, u64)> = vec![(1, 1), (2, 1), (3, 1), (4, 1), (5, 1), (6, 1)];
    assert_eq!(confirmed_tick_height(&pairs, 6), Some(1));
    assert_eq!(confirmed_tick_height(&pairs, 4), Some(3));
    assert_eq!(confirmed_tick_height(&pairs, 7), None);
    let empty: Vec<(u64, u64)> = Vec::new();
    assert_eq!(confirmed_tick_height(&empty, 0), None);
}

#[test]
fn no_supermajority_without_stake_or_below_threshold() {
    let window = window_with_ticks(8);
    let leader = Pubkey { key: 999 };

    // No vote accounts at all: total eligible stake is zero.
    let accounts: Vec<VoteAccount> = Vec::new();
    let stakes = unit_stakes(0..0);
    let r = get_last_supermajority_timestamp(&window, &accounts, &stakes, leader);
    assert_eq!(r, Err(FinalityError::NoValidSupermajority));

    // Voters exist but carry no stake: total is still zero.
    let accounts = vec![voter(1, &[3])];
    let stakes = StakeTable { entries: vec![] };
    let r = get_last_supermajority_timestamp(&window, &accounts, &stakes, leader);
    assert_eq!(r, Err(FinalityError::NoValidSupermajority));

    // Six of ten staked validators voted nothing: the best cumulative stake
    // stays below the threshold of floor(2*10/3) = 6.
    let mut accounts: Vec<VoteAccount> = (0..10).map(|k| voter(k, &[])).collect();
    accounts[0] = voter(0, &[1]);
    let stakes = unit_stakes(0..10);
    let r = get_last_supermajority_timestamp(&window, &accounts, &stakes, leader);
    assert_eq!(r, Err(FinalityError::NoValidSupermajority));
}

#[test]
fn test_compute_finality() {
    // Ten validators with stake 1 each: total 10, threshold floor(20/3) = 6.
    // The first six vote for tick heights 1..=6.
    let window = window_with_ticks(10);
    let leader = Pubkey { key: 999 };
    let stakes = unit_stakes(0..10);
    let mut accounts: Vec<VoteAccount> = (0..10)
        .map(|k| if k < 6 { voter(k, &[k + 1]) } else { voter(k, &[]) })
        .collect();

    // Summed from the highest height downward the cumulative stakes are
    // 1,2,3,4,5,6 at heights 6,5,4,3,2,1: the threshold is first met at
    // height 1.
    let r = get_last_supermajority_timestamp(&window, &accounts, &stakes, leader);
    assert_eq!(r, Ok((1, 1001)));

    let mut finality = FinalityState::new();
    let now = 5000u64;
    let metric = compute_finality(&window, &accounts, &stakes, leader, now, &mut finality);
    assert_eq!(finality.last_confirmed_tick_height, Some(1));
    assert_eq!(finality.last_confirmed_timestamp, Some(1001));
    assert_eq!(finality.staleness_ms, 5000 - 1001);
    assert_eq!(metric, Some(5000 - 1001));

    // A seventh validator votes tick height 7: cumulative stakes from height
    // 7 downward become 1..=7, and the threshold is first met at height 2.
    accounts[6] = voter(6, &[7]);
    let r = get_last_supermajority_timestamp(&window, &accounts, &stakes, leader);
    assert_eq!(r, Ok((2, 1002)));

    let metric = compute_finality(&window, &accounts, &stakes, leader, now, &mut finality);
    assert_eq!(finality.last_confirmed_tick_height, Some(2));
    assert_eq!(finality.last_confirmed_timestamp, Some(1002));
    assert_eq!(metric, Some(5000 - 1002));
}

#[test]
fn leader_votes_are_excluded_and_state_is_kept_on_a_gap() {
    let window = window_with_ticks(10);
    // Three validators, stake 1 each; two vote, but one of them is the
    // leader, whose account is excluded entirely: total 2, threshold 1.
    let leader = Pubkey { key: 2 };
    let stakes = unit_stakes(0..3);
    let accounts = vec![voter(0, &[4]), voter(1, &[]), voter(2, &[9])];
    let r = get_last_supermajority_timestamp(&window, &accounts, &stakes, leader);
    assert_eq!(r, Ok((4, 1004)));

    // After confirming once, a cycle with no supermajority leaves the
    // published state untouched and measures staleness against it.
    let mut finality = FinalityState::new();
    let metric = compute_finality(&window, &accounts, &stakes, leader, 2000, &mut finality);
    assert_eq!(metric, Some(2000 - 1004));

    let empty_accounts: Vec<VoteAccount> = Vec::new();
    let metric = compute_finality(&window, &empty_accounts, &stakes, leader, 3000, &mut finality);
    assert_eq!(finality.last_confirmed_tick_height, Some(4));
    assert_eq!(finality.last_confirmed_timestamp, Some(1004));
    assert_eq!(finality.staleness_ms, 2000 - 1004);
    assert_eq!(metric, Some(3000 - 1004));

    // Before anything is confirmed there is nothing to measure against.
    let mut fresh = FinalityState::new();
    let metric = compute_finality(&window, &empty_accounts, &stakes, leader, 3000, &mut fresh);
    assert_eq!(metric, None);
    assert_eq!(fresh.finality(), u64::MAX);
    fresh.set_finality(250);
    assert_eq!(fresh.finality(), 250);
    assert_eq!(fresh.last_confirmed_tick_height, None);
    assert!(COMPUTE_FINALITY_MS > 0);
}

#[test]
fn confirmed_checkpoint_must_still_be_resident() {
    // One voter confirms height 1, but the window only retains heights above
    // it after eviction.
    let window = window_with_ticks(MAX_ENTRY_IDS as u64 + 1);
    let leader = Pubkey { key: 999 };
    let stakes = unit_stakes(0..1);
    let accounts = vec![voter(0, &[1])];
    let r = get_last_supermajority_timestamp(&window, &accounts, &stakes, leader);
    assert_eq!(r, Err(FinalityError::NoValidSupermajority));

    // The timestamp mapping step alone reports the same absence.
    let pairs: Vec<(u64, u64)> = vec![(1, 1)];
    assert_eq!(get_finality_timestamp(&window, &pairs, 0), None);
    let resident_pairs: Vec<(u64, u64)> = vec![(2, 1)];
    assert_eq!(get_finality_timestamp(&window, &resident_pairs, 0), Some(1002));
}
