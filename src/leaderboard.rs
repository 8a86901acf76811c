//! The leaderboard cache: rebuilt wholesale each cycle from the top pages of
//! the ranking.
use crate::db_types::TopPlayerEntry;
use crate::index::{HiscoresIndex, HiscoresUser, IndexView};
use crate::roster::outcome_view;
use vstd::prelude::*;

verus! {

/// First ranking page that feeds the cache.
pub const LEADERBOARD_FIRST_PAGE: usize = 1;

/// Ranking page after the last one that feeds the cache.
pub const LEADERBOARD_END_PAGE: usize = 5;

/// Pause between two page fetches, in seconds.
pub const LEADERBOARD_PAUSE_SECS: u64 = 5;

/// A change to the cache.
#[derive(Clone, Debug)]
pub enum CacheOp {
    /// Remove every row.
    Clear,
    /// Append these rows.
    Insert(Vec<TopPlayerEntry>),
    /// Leave the cache as it is (a page fetch failed).
    Skip,
}

pub enum CacheOpView {
    Clear,
    Insert(Seq<(Seq<char>, u32)>),
    Skip,
}

impl View for CacheOp {
    type V = CacheOpView;

    open spec fn view(&self) -> CacheOpView {
        match self {
            CacheOp::Clear => CacheOpView::Clear,
            CacheOp::Insert(rows) => CacheOpView::Insert(
                rows@.map_values(|e: TopPlayerEntry| e@),
            ),
            CacheOp::Skip => CacheOpView::Skip,
        }
    }
}

/// The cache after one change.
pub open spec fn apply_cache_op(cache: Seq<(Seq<char>, u32)>, op: CacheOpView) -> Seq<
    (Seq<char>, u32),
> {
    match op {
        CacheOpView::Clear => Seq::empty(),
        CacheOpView::Insert(rows) => cache + rows,
        CacheOpView::Skip => cache,
    }
}

/// The cache after the changes, in order.
pub open spec fn apply_cache_ops(cache: Seq<(Seq<char>, u32)>, ops: Seq<CacheOpView>) -> Seq<
    (Seq<char>, u32),
>
    decreases ops.len(),
{
    if ops.len() == 0 {
        cache
    } else {
        apply_cache_op(apply_cache_ops(cache, ops.drop_last()), ops.last())
    }
}

/// The change that a page fetch's outcome makes: its players, or nothing.
pub open spec fn page_op(outcome: Option<IndexView>) -> CacheOpView {
    match outcome {
        Some(p) => CacheOpView::Insert(p.users),
        None => CacheOpView::Skip,
    }
}

/// The changes of one refresh cycle whose page fetches had these outcomes.
pub open spec fn cycle_ops(outcomes: Seq<Option<IndexView>>) -> Seq<CacheOpView> {
    seq![CacheOpView::Clear] + outcomes.map_values(|o: Option<IndexView>| page_op(o))
}

/// The players of every page, in page order.
pub open spec fn all_rows(outcomes: Seq<Option<IndexView>>) -> Seq<(Seq<char>, u32)>
    decreases outcomes.len(),
{
    if outcomes.len() == 0 {
        Seq::empty()
    } else {
        all_rows(outcomes.drop_last()) + outcomes.last()->0.users
    }
}

/// The cache rows for a page's players.
pub fn top_player_entries(page: &HiscoresIndex) -> (r: Vec<TopPlayerEntry>)
    ensures
        r@.map_values(|e: TopPlayerEntry| e@) == page@.users,
{
    let mut rows: Vec<TopPlayerEntry> = Vec::new();
    let mut i: usize = 0;
    while i < page.users.len()
        invariant
            i <= page.users@.len(),
            rows@.map_values(|e: TopPlayerEntry| e@) =~= page@.users.subrange(0, i as int),
        decreases page.users@.len() - i,
    {
        let u: &HiscoresUser = &page.users[i];
        rows.push(TopPlayerEntry { display_name: u.name.clone(), league_points: u.score });
        assert(page@.users.subrange(0, i + 1) =~= page@.users.subrange(0, i as int).push(u@));
        i = i + 1;
    }
    assert(page@.users.subrange(0, i as int) =~= page@.users);
    rows
}

/// What a refresh cycle does next.
#[derive(Clone, Copy, Debug, PartialEq, Eq, Structural)]
pub enum RefreshAction {
    /// Empty the cache.
    Clear,
    /// Fetch this ranking page.
    Fetch(usize),
    /// The cycle is over.
    Finished,
}

/// Progress of one refresh cycle: first the cache is cleared, then the pages
/// `LEADERBOARD_FIRST_PAGE..LEADERBOARD_END_PAGE` are fetched in order.
#[derive(Clone, Copy, Debug)]
pub struct LeaderboardRefresh {
    pub cleared: bool,
    pub next_page: usize,
}

impl LeaderboardRefresh {
    pub open spec fn action(self) -> RefreshAction {
        if !self.cleared {
            RefreshAction::Clear
        } else if self.next_page < LEADERBOARD_END_PAGE {
            RefreshAction::Fetch(self.next_page)
        } else {
            RefreshAction::Finished
        }
    }

    pub open spec fn finished(self) -> bool {
        self.action() == RefreshAction::Finished
    }

    /// A cycle that has done nothing yet.
    pub fn new() -> (r: LeaderboardRefresh)
        ensures
            !r.cleared,
            r.next_page == LEADERBOARD_FIRST_PAGE,
    {
        LeaderboardRefresh { cleared: false, next_page: LEADERBOARD_FIRST_PAGE }
    }

    /// What to do next.
    pub fn next_action(&self) -> (r: RefreshAction)
        ensures
            r == self.action(),
    {
        if !self.cleared {
            RefreshAction::Clear
        } else if self.next_page < LEADERBOARD_END_PAGE {
            RefreshAction::Fetch(self.next_page)
        } else {
            RefreshAction::Finished
        }
    }

    /// Whether the cycle is over.
    pub fn is_finished(&self) -> (r: bool)
        ensures
            r == self.finished(),
    {
        self.next_action() == RefreshAction::Finished
    }

    /// Records that the cache was cleared; returns the change made.
    pub fn on_cleared(&mut self) -> (op: CacheOp)
        requires
            !old(self).cleared,
        ensures
            final(self).cleared,
            final(self).next_page == old(self).next_page,
            op@ == CacheOpView::Clear,
    {
        self.cleared = true;
        CacheOp::Clear
    }

    /// Takes in the outcome of fetching the current page (`None` for a failed
    /// fetch) and returns the change to make to the cache.
    pub fn on_page(&mut self, outcome: &Option<HiscoresIndex>) -> (op: CacheOp)
        requires
            old(self).cleared,
            old(self).next_page < LEADERBOARD_END_PAGE,
        ensures
            final(self).cleared,
            final(self).next_page == old(self).next_page + 1,
            op@ == page_op(outcome_view(*outcome)),
    {
        self.next_page = self.next_page + 1;
        match outcome {
            Some(p) => CacheOp::Insert(top_player_entries(p)),
            None => CacheOp::Skip,
        }
    }
}

/// A refresh replaces the cache: whatever it held before, after a cycle whose
/// page fetches all succeed it holds exactly the players of those pages, in
/// page order.
pub proof fn lemma_refresh_replaces(old_cache: Seq<(Seq<char>, u32)>, outcomes: Seq<Option<IndexView>>)
    requires
        forall|i: int| 0 <= i < outcomes.len() ==> (#[trigger] outcomes[i]) is Some,
    ensures
        apply_cache_ops(old_cache, cycle_ops(outcomes)) == all_rows(outcomes),
    decreases outcomes.len(),
{
    if outcomes.len() == 0 {
        assert(cycle_ops(outcomes).drop_last() =~= Seq::<CacheOpView>::empty());
    } else {
        let rest = outcomes.drop_last();
        assert forall|i: int| 0 <= i < rest.len() implies (#[trigger] rest[i]) is Some by {
            assert(rest[i] == outcomes[i]);
        }
        lemma_refresh_replaces(old_cache, rest);
        assert(cycle_ops(outcomes).drop_last() =~= cycle_ops(rest));
        assert(outcomes[outcomes.len() - 1] is Some);
    }
}

} // verus!
