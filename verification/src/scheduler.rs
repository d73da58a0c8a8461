//! The node's periodic work: every tick refreshes the chain data and
//! announces the decision maker; one tick in six runs the peg rounds, the
//! others check confirmations.
use vstd::prelude::*;

verus! {

/// Seconds between two ticks of the scheduler.
pub const TICK_SECONDS: u32 = 10;

/// Seconds between two peg rounds.
pub const PEG_PERIOD_SECONDS: u32 = 60;

/// The work of one tick besides the refresh that every tick does.
#[derive(PartialEq, Eq, Structural, Debug)]
pub enum TickWork {
    /// Start the peg rounds when this node is the decision maker.
    PegRound,
    /// Check the confirmations of recorded transfers.
    Confirmations,
}

/// The seconds counted after a tick that starts with `elapsed` counted, and
/// that tick's work: reaching the peg period resets the count and runs the
/// peg rounds.
pub open spec fn spec_tick(elapsed: int) -> (int, TickWork) {
    if elapsed + TICK_SECONDS == PEG_PERIOD_SECONDS {
        (0, TickWork::PegRound)
    } else {
        (elapsed + TICK_SECONDS, TickWork::Confirmations)
    }
}

/// One tick of the scheduler (see `spec_tick`).
pub fn scheduler_tick(elapsed: u32) -> (res: (u32, TickWork))
    requires
        elapsed + TICK_SECONDS <= u32::MAX,
    ensures
        (res.0 as int, res.1) == spec_tick(elapsed as int),
{
    let counted = elapsed + TICK_SECONDS;
    if counted == PEG_PERIOD_SECONDS {
        (0, TickWork::PegRound)
    } else {
        (counted, TickWork::Confirmations)
    }
}

/// The seconds counted after `k` ticks from a fresh start.
pub open spec fn counted_after(k: nat) -> int
    decreases k,
{
    if k == 0 {
        0
    } else {
        spec_tick(counted_after((k - 1) as nat)).0
    }
}

/// Law: from a fresh start, tick `k` (counting from 1) runs the peg rounds
/// exactly when `k` is a multiple of six, and the count never leaves
/// `0..PEG_PERIOD_SECONDS`.
pub proof fn lemma_peg_round_every_sixth_tick(k: nat)
    requires
        k >= 1,
    ensures
        counted_after((k - 1) as nat) == ((k - 1) % 6) * TICK_SECONDS,
        0 <= counted_after((k - 1) as nat) < PEG_PERIOD_SECONDS,
        (spec_tick(counted_after((k - 1) as nat)).1 == TickWork::PegRound) <==> k % 6 == 0,
    decreases k,
{
    if k > 1 {
        lemma_peg_round_every_sixth_tick((k - 1) as nat);
    }
}

} // verus!
