//! The control loop: a snapshot phase, then a leaderboard refresh, then a
//! pause, forever; a phase starts only once the one before it is over.
use crate::leaderboard::LeaderboardRefresh;
use crate::snapshots::{SnapshotOutcome, SnapshotPhase, writes};
use vstd::prelude::*;

verus! {

/// Pause between two cycles, in seconds.
pub const CYCLE_PAUSE_SECS: u64 = 900;

/// Pause between two roster page fetches, in seconds.
pub const ROSTER_PAUSE_SECS: u64 = 30;

/// The phase that the control loop is in.
#[derive(Clone, Copy, Debug, PartialEq, Eq, Structural)]
pub enum Stage {
    /// Fetching, comparing and storing every player's stats.
    Snapshots,
    /// Rebuilding the leaderboard cache.
    Leaderboard,
    /// Pausing before the next cycle.
    Waiting,
}

pub open spec fn stage_after(stage: Stage, snapshots: SnapshotPhase, refresh: LeaderboardRefresh) -> Stage {
    match stage {
        Stage::Snapshots => if snapshots.complete() {
            Stage::Leaderboard
        } else {
            Stage::Snapshots
        },
        Stage::Leaderboard => if refresh.finished() {
            Stage::Waiting
        } else {
            Stage::Leaderboard
        },
        Stage::Waiting => Stage::Snapshots,
    }
}

/// The stage to be in, given the progress of the current phase; a `Waiting`
/// stage is left once its pause is over.
pub fn next_stage(stage: Stage, snapshots: &SnapshotPhase, refresh: &LeaderboardRefresh) -> (r: Stage)
    ensures
        r == stage_after(stage, *snapshots, *refresh),
{
    match stage {
        Stage::Snapshots => if snapshots.is_complete() {
            Stage::Leaderboard
        } else {
            Stage::Snapshots
        },
        Stage::Leaderboard => if refresh.is_finished() {
            Stage::Waiting
        } else {
            Stage::Leaderboard
        },
        Stage::Waiting => Stage::Snapshots,
    }
}

/// With `k` players whose work all fails, the leaderboard phase begins exactly
/// once all `k` outcomes have settled, and no snapshot was written.
pub proof fn lemma_leaderboard_waits_for_fan_out(
    k: usize,
    outcomes: Seq<SnapshotOutcome>,
    refresh: LeaderboardRefresh,
)
    requires
        outcomes.len() == k,
        forall|i: int| 0 <= i < k ==> !writes(#[trigger] outcomes[i]),
    ensures
        stage_after(Stage::Snapshots, SnapshotPhase::fresh(k).settle_all(outcomes), refresh)
            == Stage::Leaderboard,
        SnapshotPhase::fresh(k).settle_all(outcomes).written == 0,
        forall|j: int|
            0 <= j < k ==> stage_after(
                Stage::Snapshots,
                SnapshotPhase::fresh(k).settle_all(#[trigger] outcomes.subrange(0, j)),
                refresh,
            ) == Stage::Snapshots,
{
    crate::snapshots::lemma_failed_fan_out_completes(k, outcomes);
}

} // verus!
