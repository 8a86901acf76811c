//! The stat-snapshot phase: deciding, per player, whether a fresh stat record
//! is stored, and waiting for every player's work to settle.
use crate::db_types::{StatEntry, StatEntryView};
use crate::osrs::{Hiscore, StatsView};
use vstd::prelude::*;

verus! {

/// The snapshot to store for `name` after fetching `fetched` at time `now`,
/// given the latest stored snapshot of `name`. The first snapshot is always
/// stored; after that, only stats that differ from the latest are, stamped
/// strictly after it.
pub open spec fn snapshot_spec(
    name: Seq<char>,
    fetched: StatsView,
    latest: Option<StatEntryView>,
    now: i64,
) -> Option<StatEntryView> {
    match latest {
        None => Some(StatEntryView { timestamp: now, display_name: name, stats: fetched }),
        Some(prev) => if prev.stats == fetched {
            None
        } else if now > prev.timestamp {
            Some(StatEntryView { timestamp: now, display_name: name, stats: fetched })
        } else if prev.timestamp < i64::MAX {
            Some(
                StatEntryView {
                    timestamp: (prev.timestamp + 1) as i64,
                    display_name: name,
                    stats: fetched,
                },
            )
        } else {
            None
        },
    }
}

/// Whether a fetched stat record differs from a stored one in any field.
pub fn stats_changed(stored: &Hiscore, fetched: &Hiscore) -> (r: bool)
    ensures
        r == (stored@ != fetched@),
{
    !stored.same_stats(fetched)
}

/// The snapshot to write for `display_name` after fetching `fetched` at `now`,
/// given the latest stored snapshot of that player; `None` when nothing is written.
pub fn snapshot_to_store(
    display_name: String,
    fetched: Hiscore,
    latest: &Option<StatEntry>,
    now: i64,
) -> (r: Option<StatEntry>)
    ensures
        match snapshot_spec(
            display_name@,
            fetched@,
            match latest {
                Some(e) => Some(e@),
                None => None,
            },
            now,
        ) {
            Some(e) => r matches Some(x) && x@ == e,
            None => r is None,
        },
{
    match latest {
        None => Some(StatEntry { timestamp: now, display_name, stats: fetched }),
        Some(prev) => {
            if !stats_changed(&prev.stats, &fetched) {
                None
            } else if now > prev.timestamp {
                Some(StatEntry { timestamp: now, display_name, stats: fetched })
            } else if prev.timestamp < i64::MAX {
                Some(StatEntry { timestamp: prev.timestamp + 1, display_name, stats: fetched })
            } else {
                None
            }
        },
    }
}

/// The latest snapshot of `name` in a history; snapshots are appended in time order.
pub open spec fn latest_of(h: Seq<StatEntryView>, name: Seq<char>) -> Option<StatEntryView>
    decreases h.len(),
{
    if h.len() == 0 {
        None
    } else if h.last().display_name == name {
        Some(h.last())
    } else {
        latest_of(h.drop_last(), name)
    }
}

/// The history after one fetch of `name`'s stats at `now`.
pub open spec fn record(h: Seq<StatEntryView>, name: Seq<char>, fetched: StatsView, now: i64) -> Seq<
    StatEntryView,
> {
    match snapshot_spec(name, fetched, latest_of(h, name), now) {
        Some(e) => h.push(e),
        None => h,
    }
}

/// A fetch either leaves the history alone or appends one snapshot of that
/// player; an appended snapshot is stamped strictly after, and differs in its
/// stats from, the player's latest one before it.
pub proof fn lemma_record_appends_fresh(
    h: Seq<StatEntryView>,
    name: Seq<char>,
    fetched: StatsView,
    now: i64,
)
    ensures
        ({
            let h1 = record(h, name, fetched, now);
            ||| h1 == h
            ||| {
                &&& h1.len() == h.len() + 1
                &&& h1.drop_last() == h
                &&& h1.last().display_name == name
                &&& h1.last().stats == fetched
                &&& latest_of(h1, name) == Some(h1.last())
                &&& (latest_of(h, name) matches Some(p) ==> (h1.last().timestamp > p.timestamp
                    && p.stats != fetched))
            }
        }),
{
    let h1 = record(h, name, fetched, now);
    if h1 != h {
        assert(h1.drop_last() =~= h);
    }
}

/// Fetching the same stats twice in a row stores at most one snapshot: the
/// second fetch leaves the history as the first left it, and for a player with
/// no history the first stores the baseline.
pub proof fn lemma_same_fetch_stored_once(
    h: Seq<StatEntryView>,
    name: Seq<char>,
    stats: StatsView,
    t1: i64,
    t2: i64,
)
    ensures
        record(record(h, name, stats, t1), name, stats, t2) == record(h, name, stats, t1),
        latest_of(h, name) is None ==> record(h, name, stats, t1) == h.push(
            StatEntryView { timestamp: t1, display_name: name, stats },
        ),
{
    let h1 = record(h, name, stats, t1);
    match snapshot_spec(name, stats, latest_of(h, name), t1) {
        Some(e) => {
            assert(h1.drop_last() =~= h);
            assert(latest_of(h1, name) == Some(e));
        },
        None => {},
    }
}

/// After a baseline, a fetch whose stats differ appends exactly one snapshot,
/// holding the new stats, stamped after the baseline.
pub proof fn lemma_changed_fetch_appends(
    h: Seq<StatEntryView>,
    name: Seq<char>,
    first: StatsView,
    second: StatsView,
    t1: i64,
    t2: i64,
)
    requires
        latest_of(h, name) is None,
        first != second,
        t1 < i64::MAX,
    ensures
        ({
            let h1 = record(h, name, first, t1);
            let h2 = record(h1, name, second, t2);
            &&& h1 == h.push(StatEntryView { timestamp: t1, display_name: name, stats: first })
            &&& h2.len() == h1.len() + 1
            &&& h2.drop_last() == h1
            &&& h2.last().display_name == name
            &&& h2.last().stats == second
            &&& h2.last().timestamp > t1
        }),
{
    let h1 = record(h, name, first, t1);
    assert(h1.drop_last() =~= h);
    let h2 = record(h1, name, second, t2);
    assert(h2.drop_last() =~= h1);
}

/// How one player's fetch-compare-write work ended.
#[derive(Clone, Copy, Debug, PartialEq, Eq, Structural)]
pub enum SnapshotOutcome {
    /// The stat fetch failed or returned nothing readable.
    FetchFailed,
    /// The service has no record of the player.
    NotFound,
    /// The latest stored snapshot could not be read.
    LookupFailed,
    /// The stats equal the latest stored snapshot; nothing was written.
    Unchanged,
    /// A new snapshot was written.
    Written,
    /// Writing the new snapshot failed.
    WriteFailed,
}

/// Progress of one snapshot phase over `total` players: the phase is
/// complete once every player's work has settled, successfully or not.
#[derive(Clone, Copy, Debug)]
pub struct SnapshotPhase {
    pub total: usize,
    pub settled: usize,
    pub written: usize,
}

impl SnapshotPhase {
    pub open spec fn wf(self) -> bool {
        self.written <= self.settled <= self.total
    }

    /// The phase after one more player's work settles with `outcome`.
    pub open spec fn settle_spec(self, outcome: SnapshotOutcome) -> SnapshotPhase {
        SnapshotPhase {
            total: self.total,
            settled: (self.settled + 1) as usize,
            written: if outcome == SnapshotOutcome::Written {
                (self.written + 1) as usize
            } else {
                self.written
            },
        }
    }

    /// The phase after the given outcomes settle in order.
    pub open spec fn settle_all(self, outcomes: Seq<SnapshotOutcome>) -> SnapshotPhase
        decreases outcomes.len(),
    {
        if outcomes.len() == 0 {
            self
        } else {
            self.settle_all(outcomes.drop_last()).settle_spec(outcomes.last())
        }
    }

    /// A phase over `total` players, none settled yet.
    pub open spec fn fresh(total: usize) -> SnapshotPhase {
        SnapshotPhase { total, settled: 0, written: 0 }
    }

    pub open spec fn complete(self) -> bool {
        self.settled == self.total
    }

    /// A phase over `total` players, none settled yet.
    pub fn new(total: usize) -> (r: SnapshotPhase)
        ensures
            r == SnapshotPhase::fresh(total),
            r.wf(),
    {
        SnapshotPhase { total, settled: 0, written: 0 }
    }

    /// Records that one more player's work has settled.
    pub fn settle(&mut self, outcome: SnapshotOutcome)
        requires
            old(self).wf(),
            old(self).settled < old(self).total,
        ensures
            *final(self) == old(self).settle_spec(outcome),
            final(self).wf(),
    {
        self.settled = self.settled + 1;
        if outcome == SnapshotOutcome::Written {
            self.written = self.written + 1;
        }
    }

    /// Whether every player's work has settled.
    pub fn is_complete(&self) -> (r: bool)
        ensures
            r == self.complete(),
    {
        self.settled == self.total
    }
}

/// Whether an outcome wrote a snapshot.
pub open spec fn writes(o: SnapshotOutcome) -> bool {
    o == SnapshotOutcome::Written
}

/// With `k` players whose work all fails, the phase completes exactly when the
/// `k`-th outcome settles, having written nothing; before that it is incomplete.
pub proof fn lemma_failed_fan_out_completes(k: usize, outcomes: Seq<SnapshotOutcome>)
    requires
        outcomes.len() == k,
        forall|i: int| 0 <= i < k ==> !writes(#[trigger] outcomes[i]),
    ensures
        SnapshotPhase::fresh(k).settle_all(outcomes).complete(),
        SnapshotPhase::fresh(k).settle_all(outcomes).written == 0,
        forall|j: int|
            0 <= j < k ==> !(SnapshotPhase::fresh(k).settle_all(
                #[trigger] outcomes.subrange(0, j),
            ).complete()),
{
    let start = SnapshotPhase::fresh(k);
    lemma_settle_all_counts(start, outcomes);
    assert forall|j: int| 0 <= j < k implies !(start.settle_all(
        #[trigger] outcomes.subrange(0, j),
    ).complete()) by {
        lemma_settle_all_counts(start, outcomes.subrange(0, j));
    }
}

proof fn lemma_settle_all_counts(start: SnapshotPhase, outcomes: Seq<SnapshotOutcome>)
    requires
        start.settled == 0,
        start.written == 0,
        outcomes.len() <= start.total,
    ensures
        start.settle_all(outcomes).total == start.total,
        start.settle_all(outcomes).settled == outcomes.len(),
        (forall|i: int| 0 <= i < outcomes.len() ==> !writes(#[trigger] outcomes[i]))
            ==> start.settle_all(outcomes).written == 0,
    decreases outcomes.len(),
{
    if outcomes.len() > 0 {
        let rest = outcomes.drop_last();
        lemma_settle_all_counts(start, rest);
        if forall|i: int| 0 <= i < outcomes.len() ==> !writes(#[trigger] outcomes[i]) {
            assert forall|i: int| 0 <= i < rest.len() implies !writes(#[trigger] rest[i]) by {
                assert(rest[i] == outcomes[i]);
            }
            assert(!writes(outcomes[outcomes.len() - 1]));
        }
    }
}

} // verus!
