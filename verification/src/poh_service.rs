//! The cadence driver's verified core: the configured policy, one cadence
//! round (idle advances then a tick), and the service step machine with its
//! cooperative cancellation, observed only at tick boundaries. The thread
//! that runs the rounds, the inter-tick sleep and the delivery channel live
//! outside; they call these functions and perform the suspensions.

use vstd::prelude::*;
use crate::entry::Entry;
use crate::hashing::next_digest;
use crate::recorder::PohRecorder;

verus! {

/// The cadence of the clock: how many checkpoints each second should carry.
pub const NUM_TICKS_PER_SECOND: u64 = 10;

/// The cadence policy of one round.
#[derive(Clone, Copy, Debug, PartialEq, Eq, Structural)]
pub enum Config {
    /// Full-speed verifiable delay: roll this many hashes per round — the
    /// idle advances, plus the round's tick — then tick.
    Tick(usize),
    /// Low-power placeholder: suspend this many milliseconds, then tick with
    /// zero idle advances.
    Sleep(u64),
}

impl Default for Config {
    fn default() -> (r: Config)
        ensures
            r == Config::Sleep(1000u64 / NUM_TICKS_PER_SECOND),
    {
        Config::Sleep(1000u64 / NUM_TICKS_PER_SECOND)
    }
}

/// How many idle advances one round of a policy performs before its tick.
pub open spec fn idle_advances(config: Config) -> int {
    match config {
        Config::Tick(n) => if n == 0 {
            0
        } else {
            n - 1
        },
        Config::Sleep(_) => 0,
    }
}

/// A chain id after a number of idle advances.
pub open spec fn iterated_digest(id: Seq<u8>, n: nat) -> Seq<u8>
    decreases n,
{
    if n == 0 {
        id
    } else {
        next_digest(iterated_digest(id, (n - 1) as nat))
    }
}

/// One cadence round: the policy's idle advances, then the tick, whose batch
/// is delivered to the caller. The tick entry's num_hashes equals exactly the
/// number of idle advances since the previous tick — those of this round plus
/// any the recorder already counted.
pub fn cadence_round(recorder: &mut PohRecorder, config: Config) -> (batch: Vec<Entry>)
    requires
        old(recorder).wf(),
        old(recorder).hashes_since_tick + idle_advances(config) <= u64::MAX,
        old(recorder).tick_height < u64::MAX,
    ensures
        final(recorder).wf(),
        final(recorder).tick_height == old(recorder).tick_height + 1,
        final(recorder).hashes_since_tick == 0,
        final(recorder).pending@.len() == 0,
        final(recorder).id.bytes@ == iterated_digest(
            old(recorder).id.bytes@,
            idle_advances(config) as nat,
        ),
        batch@.len() == old(recorder).pending@.len() + 1,
        forall|i: int|
            0 <= i < old(recorder).pending@.len() ==> batch@[i] == old(recorder).pending@[i],
        batch@.last().is_tick_spec(),
        batch@.last().num_hashes == old(recorder).hashes_since_tick + idle_advances(config),
        batch@.last().id.bytes@ == final(recorder).id.bytes@,
{
    let ghost orig = *recorder;
    match config {
        Config::Tick(num) => {
            let mut k: usize = 1;
            while k < num
                invariant
                    orig.wf(),
                    1 <= k,
                    k <= num || k == 1,
                    orig.hashes_since_tick + idle_advances(Config::Tick(num)) <= u64::MAX,
                    recorder.wf(),
                    recorder.hashes_since_tick == orig.hashes_since_tick + k - 1,
                    recorder.tick_height == orig.tick_height,
                    recorder.pending@ == orig.pending@,
                    recorder.id.bytes@ == iterated_digest(orig.id.bytes@, (k - 1) as nat),
                decreases num - k,
            {
                recorder.advance_hash();
                k = k + 1;
            }
        },
        Config::Sleep(_) => {},
    }
    recorder.tick()
}

/// The cadence thread's lifecycle. `Exited` is terminal; it doubles as the
/// completion signal a caller that cannot block on the thread polls for.
#[derive(Clone, Copy, Debug, PartialEq, Eq, Structural)]
pub enum ServiceState {
    Idle,
    Running,
    Exited,
}

/// One step of the cadence service: an idle service starts running without
/// touching the chain; a running one performs a cadence round and then — and
/// only then, never mid-hash — observes the cancellation flag, so shutdown
/// latency is bounded by one cadence period; an exited one stays exited and
/// never delivers another entry. That the flag, once set, exits the service
/// at the very next tick boundary, after which no further tick is delivered,
/// is stated here and holds for every configuration and chain state.
pub fn cadence_step(
    recorder: &mut PohRecorder,
    config: Config,
    state: ServiceState,
    cancelled: bool,
) -> (r: (ServiceState, Vec<Entry>))
    requires
        old(recorder).wf(),
        state == ServiceState::Running ==> old(recorder).hashes_since_tick + idle_advances(config)
            <= u64::MAX && old(recorder).tick_height < u64::MAX,
    ensures
        final(recorder).wf(),
        state == ServiceState::Idle ==> r.0 == ServiceState::Running && r.1@.len() == 0
            && *final(recorder) == *old(recorder),
        state == ServiceState::Exited ==> r.0 == ServiceState::Exited && r.1@.len() == 0
            && *final(recorder) == *old(recorder),
        state == ServiceState::Running ==> {
            &&& r.0 == if cancelled {
                ServiceState::Exited
            } else {
                ServiceState::Running
            }
            &&& r.1@.len() == old(recorder).pending@.len() + 1
            &&& r.1@.last().is_tick_spec()
            &&& r.1@.last().num_hashes == old(recorder).hashes_since_tick + idle_advances(config)
            &&& final(recorder).tick_height == old(recorder).tick_height + 1
            &&& final(recorder).hashes_since_tick == 0
        },
{
    match state {
        ServiceState::Idle => (ServiceState::Running, Vec::new()),
        ServiceState::Exited => (ServiceState::Exited, Vec::new()),
        ServiceState::Running => {
            let batch = cadence_round(recorder, config);
            if cancelled {
                (ServiceState::Exited, batch)
            } else {
                (ServiceState::Running, batch)
            }
        },
    }
}

} // verus!
