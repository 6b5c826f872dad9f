//! The stake-weighted supermajority computation: a pure function from a
//! snapshot of per-voter (most recent vote, stake) pairs to the most recent
//! chain checkpoint a supermajority of stake has acknowledged, and the cycle
//! step the polling service runs against it.

use vstd::prelude::*;
use crate::ledger::{stake_of, FinalityState, StakeEntry, StakeTable, StatusWindow};
use crate::vote_state::{Pubkey, VoteAccount, VOTE_PROGRAM_KEY};

verus! {

/// The expected, frequent outcome of a cycle before consensus is reached:
/// no checkpoint is acknowledged by a supermajority of stake.
#[derive(Debug, PartialEq, Eq, Structural)]
pub enum FinalityError {
    NoValidSupermajority,
}

/// The polling interval of the finality service, in milliseconds.
pub const COMPUTE_FINALITY_MS: u64 = 100;

/// The total stake of voters whose most recent vote acknowledges tick height
/// `t` or later. Pairs are (most recent vote's tick height, stake).
pub open spec fn stake_at_or_above(pairs: Seq<(u64, u64)>, t: u64) -> int
    decreases pairs.len(),
{
    if pairs.len() == 0 {
        0
    } else {
        (if pairs.first().0 >= t {
            pairs.first().1 as int
        } else {
            0
        }) + stake_at_or_above(pairs.drop_first(), t)
    }
}

proof fn lemma_stake_at_or_above_push(pairs: Seq<(u64, u64)>, p: (u64, u64), t: u64)
    ensures
        stake_at_or_above(pairs.push(p), t) == stake_at_or_above(pairs, t) + (if p.0 >= t {
            p.1 as int
        } else {
            0
        }),
    decreases pairs.len(),
{
    if pairs.len() == 0 {
        assert(pairs.push(p).drop_first() =~= pairs);
    } else {
        assert(pairs.push(p).drop_first() =~= pairs.drop_first().push(p));
        lemma_stake_at_or_above_push(pairs.drop_first(), p, t);
    }
}

proof fn lemma_stake_at_or_above_bounds(pairs: Seq<(u64, u64)>, t: u64)
    ensures
        0 <= stake_at_or_above(pairs, t) <= pairs.len() * (u64::MAX as int),
    decreases pairs.len(),
{
    if pairs.len() > 0 {
        lemma_stake_at_or_above_bounds(pairs.drop_first(), t);
    }
}

/// The total stake acknowledging tick height `t` or later, computed from the
/// snapshot.
pub fn sum_stake_at_or_above(pairs: &Vec<(u64, u64)>, t: u64) -> (r: u128)
    ensures
        r == stake_at_or_above(pairs@, t),
{
    let n = pairs.len();
    let mut acc: u128 = 0;
    let mut i: usize = 0;
    proof {
        assert(pairs@.subrange(0, 0) =~= Seq::<(u64, u64)>::empty());
    }
    while i < n
        invariant
            n == pairs@.len(),
            0 <= i <= n,
            acc == stake_at_or_above(pairs@.subrange(0, i as int), t),
        decreases n - i,
    {
        proof {
            lemma_stake_at_or_above_bounds(pairs@.subrange(0, i as int), t);
            lemma_stake_at_or_above_push(pairs@.subrange(0, i as int), pairs@[i as int], t);
            assert(pairs@.subrange(0, i as int).push(pairs@[i as int]) =~= pairs@.subrange(
                0,
                i as int + 1,
            ));
        }
        let (h, s) = pairs[i];
        if h >= t {
            acc = acc + s as u128;
        }
        i = i + 1;
    }
    proof {
        assert(pairs@.subrange(0, n as int) =~= pairs@);
    }
    acc
}

/// The checkpoint a supermajority confirms: `t` is among the voted heights,
/// the stake acknowledging `t` or later reaches the threshold, and no higher
/// voted height does.
pub open spec fn confirmed_height_ok(pairs: Seq<(u64, u64)>, threshold: int, t: u64) -> bool {
    &&& exists|j: int| 0 <= j < pairs.len() && (#[trigger] pairs[j]).0 == t
    &&& stake_at_or_above(pairs, t) >= threshold
    &&& forall|j: int|
        0 <= j < pairs.len() && (#[trigger] pairs[j]).0 > t ==> stake_at_or_above(
            pairs,
            pairs[j].0,
        ) < threshold
}

/// At most one height can be confirmed: a higher confirmed height would have
/// to fall below the threshold by the lower one's maximality.
pub proof fn lemma_confirmed_unique(pairs: Seq<(u64, u64)>, threshold: int, t1: u64, t2: u64)
    requires
        confirmed_height_ok(pairs, threshold, t1),
        confirmed_height_ok(pairs, threshold, t2),
    ensures
        t1 == t2,
{
    if t1 < t2 {
        let j = choose|j: int| 0 <= j < pairs.len() && (#[trigger] pairs[j]).0 == t2;
        assert(stake_at_or_above(pairs, pairs[j].0) < threshold);
    }
    if t2 < t1 {
        let j = choose|j: int| 0 <= j < pairs.len() && (#[trigger] pairs[j]).0 == t1;
        assert(stake_at_or_above(pairs, pairs[j].0) < threshold);
    }
}

/// The most recent voted tick height whose at-or-above stake reaches the
/// threshold — the smallest suffix of voters, taken from the highest vote
/// downward, whose stake sum meets the supermajority. `None` exactly when no
/// voted height reaches the threshold.
pub fn confirmed_tick_height(pairs: &Vec<(u64, u64)>, threshold: u64) -> (r: Option<u64>)
    ensures
        match r {
            Some(t) => confirmed_height_ok(pairs@, threshold as int, t),
            None => forall|j: int|
                0 <= j < pairs@.len() ==> stake_at_or_above(pairs@, (#[trigger] pairs@[j]).0)
                    < threshold,
        },
{
    let n = pairs.len();
    let mut best: Option<u64> = None;
    let mut i: usize = 0;
    while i < n
        invariant
            n == pairs@.len(),
            0 <= i <= n,
            match best {
                None => forall|j: int|
                    0 <= j < i ==> stake_at_or_above(pairs@, (#[trigger] pairs@[j]).0) < threshold,
                Some(b) => {
                    &&& exists|j: int| 0 <= j < n && (#[trigger] pairs@[j]).0 == b
                    &&& stake_at_or_above(pairs@, b) >= threshold
                    &&& forall|j: int|
                        0 <= j < i && (#[trigger] pairs@[j]).0 > b ==> stake_at_or_above(
                            pairs@,
                            pairs@[j].0,
                        ) < threshold
                },
            },
        decreases n - i,
    {
        let (h, _s) = pairs[i];
        let acc = sum_stake_at_or_above(pairs, h);
        let reaches = acc >= threshold as u128;
        match best {
            None => {
                if reaches {
                    best = Some(h);
                }
            },
            Some(b) => {
                if reaches && h > b {
                    best = Some(h);
                }
            },
        }
        i = i + 1;
    }
    best
}

/// A vote account whose voter the computation counts: owned by the vote
/// program, readable, and not the active chain producer's own account.
pub open spec fn eligible(a: VoteAccount, leader_id: Pubkey) -> bool {
    a.owner.key == VOTE_PROGRAM_KEY && a.state is Some && a.state->0.node_id != leader_id
}

/// A counted account whose voter has acknowledged at least one checkpoint.
pub open spec fn has_voted(a: VoteAccount, leader_id: Pubkey) -> bool {
    eligible(a, leader_id) && a.state->0.votes@.len() > 0
}

/// The total stake behind all counted vote accounts, whether or not their
/// voter has voted yet.
pub open spec fn total_stake_spec(
    accounts: Seq<VoteAccount>,
    stakes: Seq<StakeEntry>,
    leader_id: Pubkey,
) -> int
    decreases accounts.len(),
{
    if accounts.len() == 0 {
        0
    } else {
        (if eligible(accounts.first(), leader_id) {
            stake_of(stakes, accounts.first().state->0.node_id) as int
        } else {
            0
        }) + total_stake_spec(accounts.drop_first(), stakes, leader_id)
    }
}

/// The (most recent vote's tick height, stake) pair of one counted account
/// that has voted, as a one-element sequence; empty for the rest.
pub open spec fn pair_of(a: VoteAccount, stakes: Seq<StakeEntry>, leader_id: Pubkey) -> Seq<
    (u64, u64),
> {
    if has_voted(a, leader_id) {
        seq![(a.state->0.votes@.last().tick_height, stake_of(stakes, a.state->0.node_id))]
    } else {
        Seq::empty()
    }
}

/// The snapshot the computation runs on: one (most recent vote, stake) pair
/// per counted voter with at least one vote, in account order.
pub open spec fn pairs_spec(
    accounts: Seq<VoteAccount>,
    stakes: Seq<StakeEntry>,
    leader_id: Pubkey,
) -> Seq<(u64, u64)>
    decreases accounts.len(),
{
    if accounts.len() == 0 {
        Seq::empty()
    } else {
        pair_of(accounts.first(), stakes, leader_id) + pairs_spec(
            accounts.drop_first(),
            stakes,
            leader_id,
        )
    }
}

proof fn lemma_total_stake_push(
    accounts: Seq<VoteAccount>,
    a: VoteAccount,
    stakes: Seq<StakeEntry>,
    leader_id: Pubkey,
)
    ensures
        total_stake_spec(accounts.push(a), stakes, leader_id) == total_stake_spec(
            accounts,
            stakes,
            leader_id,
        ) + (if eligible(a, leader_id) {
            stake_of(stakes, a.state->0.node_id) as int
        } else {
            0
        }),
    decreases accounts.len(),
{
    if accounts.len() == 0 {
        assert(accounts.push(a).drop_first() =~= accounts);
    } else {
        assert(accounts.push(a).drop_first() =~= accounts.drop_first().push(a));
        lemma_total_stake_push(accounts.drop_first(), a, stakes, leader_id);
    }
}

proof fn lemma_pairs_push(
    accounts: Seq<VoteAccount>,
    a: VoteAccount,
    stakes: Seq<StakeEntry>,
    leader_id: Pubkey,
)
    ensures
        pairs_spec(accounts.push(a), stakes, leader_id) == pairs_spec(accounts, stakes, leader_id)
            + pair_of(a, stakes, leader_id),
    decreases accounts.len(),
{
    if accounts.len() == 0 {
        assert(accounts.push(a).drop_first() =~= accounts);
        assert(pairs_spec(accounts.push(a), stakes, leader_id) =~= pairs_spec(
            accounts,
            stakes,
            leader_id,
        ) + pair_of(a, stakes, leader_id));
    } else {
        assert(accounts.push(a).drop_first() =~= accounts.drop_first().push(a));
        lemma_pairs_push(accounts.drop_first(), a, stakes, leader_id);
        assert(pairs_spec(accounts.push(a), stakes, leader_id) =~= pairs_spec(
            accounts,
            stakes,
            leader_id,
        ) + pair_of(a, stakes, leader_id));
    }
}

/// Copies the minimal tuples out of the account table: one (most recent vote,
/// stake) pair per counted voter with a vote, and the total stake behind all
/// counted voters. A caller holds the table's read acquisition only for this
/// copy; everything after runs on the snapshot.
pub fn snapshot_votes(accounts: &Vec<VoteAccount>, stakes: &StakeTable, leader_id: Pubkey) -> (r: (
    Vec<(u64, u64)>,
    u64,
))
    requires
        total_stake_spec(accounts@, stakes.entries@, leader_id) <= u64::MAX,
    ensures
        r.0@ == pairs_spec(accounts@, stakes.entries@, leader_id),
        r.1 == total_stake_spec(accounts@, stakes.entries@, leader_id),
{
    let ghost sentries = stakes.entries@;
    let n = accounts.len();
    let mut pairs: Vec<(u64, u64)> = Vec::new();
    let mut total: u128 = 0;
    let mut i: usize = 0;
    proof {
        assert(accounts@.subrange(0, 0) =~= Seq::<VoteAccount>::empty());
    }
    while i < n
        invariant
            n == accounts@.len(),
            0 <= i <= n,
            sentries == stakes.entries@,
            total_stake_spec(accounts@, sentries, leader_id) <= u64::MAX,
            pairs@ == pairs_spec(accounts@.subrange(0, i as int), sentries, leader_id),
            total == total_stake_spec(accounts@.subrange(0, i as int), sentries, leader_id),
            total <= u64::MAX,
        decreases n - i,
    {
        proof {
            lemma_total_stake_push(
                accounts@.subrange(0, i as int),
                accounts@[i as int],
                sentries,
                leader_id,
            );
            lemma_pairs_push(
                accounts@.subrange(0, i as int),
                accounts@[i as int],
                sentries,
                leader_id,
            );
            assert(accounts@.subrange(0, i as int).push(accounts@[i as int]) =~= accounts@.subrange(
                0,
                i as int + 1,
            ));
            lemma_total_stake_prefix_bound(accounts@, sentries, leader_id, i as int + 1);
        }
        let account = &accounts[i];
        if account.owner.key == VOTE_PROGRAM_KEY {
            match &account.state {
                None => {},
                Some(state) => {
                    if !(state.node_id == leader_id) {
                        let stake = stakes.get_stake(state.node_id);
                        total = total + stake as u128;
                        match state.last_vote() {
                            None => {},
                            Some(vote) => {
                                pairs.push((vote.tick_height, stake));
                            },
                        }
                    }
                },
            }
        }
        proof {
            if pairs@ != pairs_spec(accounts@.subrange(0, i as int + 1), sentries, leader_id) {
                assert(pairs@ =~= pairs_spec(accounts@.subrange(0, i as int + 1), sentries, leader_id));
            }
        }
        i = i + 1;
    }
    proof {
        assert(accounts@.subrange(0, n as int) =~= accounts@);
    }
    (pairs, total as u64)
}

/// A prefix of the accounts never carries more total stake than the whole:
/// the remaining accounts contribute nonnegative stake.
proof fn lemma_total_stake_prefix_bound(
    accounts: Seq<VoteAccount>,
    stakes: Seq<StakeEntry>,
    leader_id: Pubkey,
    k: int,
)
    requires
        0 <= k <= accounts.len(),
    ensures
        total_stake_spec(accounts.subrange(0, k), stakes, leader_id) <= total_stake_spec(
            accounts,
            stakes,
            leader_id,
        ),
    decreases accounts.len() - k,
{
    if k < accounts.len() {
        lemma_total_stake_push(accounts.subrange(0, k), accounts[k], stakes, leader_id);
        assert(accounts.subrange(0, k).push(accounts[k]) =~= accounts.subrange(0, k + 1));
        lemma_total_stake_prefix_bound(accounts, stakes, leader_id, k + 1);
    } else {
        assert(accounts.subrange(0, k) =~= accounts);
    }
}

/// The supermajority threshold: the integer floor of two thirds of the total
/// stake; reaching it (inclusively) confirms.
pub open spec fn supermajority_threshold(total: int) -> int {
    2 * total / 3
}

/// Maps the confirmed checkpoint of a snapshot to its recorded acceptance
/// timestamp. `None` exactly when no voted height reaches the threshold or
/// the confirmed height is no longer resident in the window.
pub fn get_finality_timestamp(
    window: &StatusWindow,
    pairs: &Vec<(u64, u64)>,
    threshold: u64,
) -> (r: Option<u64>)
    requires
        window.wf(),
    ensures
        match r {
            Some(ts) => exists|t: u64|
                #[trigger] confirmed_height_ok(pairs@, threshold as int, t) && window.resident(t)
                    && ts == window.slots@[window.slot_index(t)].timestamp,
            None => forall|t: u64|
                #[trigger] confirmed_height_ok(pairs@, threshold as int, t) ==> !window.resident(
                    t,
                ),
        },
{
    match confirmed_tick_height(pairs, threshold) {
        None => {
            proof {
                assert forall|t: u64| confirmed_height_ok(
                    pairs@,
                    threshold as int,
                    t,
                ) implies !window.resident(t) by {
                    let j = choose|j: int|
                        0 <= j < pairs@.len() && (#[trigger] pairs@[j]).0 == t;
                    assert(stake_at_or_above(pairs@, pairs@[j].0) < threshold);
                }
            }
            None
        },
        Some(t) => {
            let ts = window.get_tick_timestamp(t);
            proof {
                if ts is None {
                    assert forall|t2: u64| confirmed_height_ok(
                        pairs@,
                        threshold as int,
                        t2,
                    ) implies !window.resident(t2) by {
                        lemma_confirmed_unique(pairs@, threshold as int, t, t2);
                    }
                }
            }
            ts
        },
    }
}

/// The full computation over one snapshot: total, threshold, confirmed
/// checkpoint, timestamp. Succeeds exactly when the total counted stake is
/// positive, some voted height's at-or-above stake reaches the floor of two
/// thirds of that total, and the confirmed height is still resident in the
/// window; the result is that height with its recorded timestamp. In every
/// other case — zero total stake, every voted height below the threshold, or
/// an evicted checkpoint — there is no valid supermajority.
pub fn get_last_supermajority_timestamp(
    window: &StatusWindow,
    accounts: &Vec<VoteAccount>,
    stakes: &StakeTable,
    leader_id: Pubkey,
) -> (r: Result<(u64, u64), FinalityError>)
    requires
        window.wf(),
        total_stake_spec(accounts@, stakes.entries@, leader_id) <= u64::MAX,
    ensures
        ({
            let pairs = pairs_spec(accounts@, stakes.entries@, leader_id);
            let total = total_stake_spec(accounts@, stakes.entries@, leader_id);
            let threshold = supermajority_threshold(total);
            match r {
                Ok((t, ts)) => total > 0 && confirmed_height_ok(pairs, threshold, t)
                    && window.resident(t) && ts == window.slots@[window.slot_index(t)].timestamp,
                Err(e) => e == FinalityError::NoValidSupermajority && (total == 0 || forall|
                    t: u64,
                |
                    #[trigger] confirmed_height_ok(pairs, threshold, t) ==> !window.resident(t)),
            }
        }),
        total_stake_spec(accounts@, stakes.entries@, leader_id) == 0 ==> r is Err,
        (forall|j: int|
            0 <= j < pairs_spec(accounts@, stakes.entries@, leader_id).len()
                ==> stake_at_or_above(
                pairs_spec(accounts@, stakes.entries@, leader_id),
                (#[trigger] pairs_spec(accounts@, stakes.entries@, leader_id)[j]).0,
            ) < supermajority_threshold(
                total_stake_spec(accounts@, stakes.entries@, leader_id),
            )) ==> r is Err,
    {
    let (pairs, total) = snapshot_votes(accounts, stakes, leader_id);
    if total == 0 {
        return Err(FinalityError::NoValidSupermajority);
    }
    let threshold = ((2 * (total as u128)) / 3) as u64;
    proof {
        assert(threshold == supermajority_threshold(total as int));
    }
    match confirmed_tick_height(&pairs, threshold) {
        None => {
            proof {
                assert forall|t: u64| confirmed_height_ok(
                    pairs@,
                    threshold as int,
                    t,
                ) implies !window.resident(t) by {
                    let j = choose|j: int|
                        0 <= j < pairs@.len() && (#[trigger] pairs@[j]).0 == t;
                    assert(stake_at_or_above(pairs@, pairs@[j].0) < threshold);
                }
            }
            Err(FinalityError::NoValidSupermajority)
        },
        Some(t) => {
            match window.get_tick_timestamp(t) {
                None => {
                    proof {
                        assert forall|t2: u64| confirmed_height_ok(
                            pairs@,
                            threshold as int,
                            t2,
                        ) implies !window.resident(t2) by {
                            lemma_confirmed_unique(pairs@, threshold as int, t, t2);
                        }
                    }
                    Err(FinalityError::NoValidSupermajority)
                },
                Some(ts) => Ok((t, ts)),
            }
        },
    }
}

/// One cycle of the finality service over a snapshot taken at clock reading
/// `now`. On a confirmed checkpoint, publishes it: confirmed tick height and
/// timestamp, staleness measured from `now`; the returned duration is the
/// measurement for the caller's fire-and-forget metrics sink. With no valid
/// supermajority the published state is left untouched — rising staleness
/// signals the gap — and the returned duration, if a checkpoint was ever
/// confirmed, measures against that earlier timestamp.
pub fn compute_finality(
    window: &StatusWindow,
    accounts: &Vec<VoteAccount>,
    stakes: &StakeTable,
    leader_id: Pubkey,
    now: u64,
    finality: &mut FinalityState,
) -> (metric: Option<u64>)
    requires
        window.wf(),
        total_stake_spec(accounts@, stakes.entries@, leader_id) <= u64::MAX,
        forall|i: int|
            0 <= i < window.slots@.len() ==> (#[trigger] window.slots@[i]).timestamp <= now,
        old(finality).last_confirmed_timestamp matches Some(pts) ==> pts <= now,
    ensures
        ({
            let pairs = pairs_spec(accounts@, stakes.entries@, leader_id);
            let total = total_stake_spec(accounts@, stakes.entries@, leader_id);
            let threshold = supermajority_threshold(total);
            let confirms = total > 0 && exists|t: u64|
                #[trigger] confirmed_height_ok(pairs, threshold, t) && window.resident(t);
            if confirms {
                exists|t: u64|
                    {
                        let ts = window.slots@[window.slot_index(t)].timestamp;
                        &&& #[trigger] confirmed_height_ok(pairs, threshold, t)
                        &&& window.resident(t)
                        &&& final(finality).last_confirmed_tick_height == Some(t)
                        &&& final(finality).last_confirmed_timestamp == Some(ts)
                        &&& final(finality).staleness_ms == now - ts
                        &&& metric == Some((now - ts) as u64)
                    }
            } else {
                &&& *final(finality) == *old(finality)
                &&& metric == (match old(finality).last_confirmed_timestamp {
                    Some(pts) => Some((now - pts) as u64),
                    None => None,
                })
            }
        }),
{
    match get_last_supermajority_timestamp(window, accounts, stakes, leader_id) {
        Ok((t, ts)) => {
            finality.last_confirmed_tick_height = Some(t);
            finality.last_confirmed_timestamp = Some(ts);
            finality.staleness_ms = now - ts;
            Some(now - ts)
        },
        Err(_) => {
            match finality.last_confirmed_timestamp {
                Some(pts) => Some(now - pts),
                None => None,
            }
        },
    }
}

} // verus!
