//! Roster ingestion: walking the ranking page by page and collecting the
//! names that it lists.
use crate::index::{HiscoresIndex, HiscoresUser, IndexView};
use vstd::prelude::*;

verus! {

/// The page cursor of roster ingestion.
#[derive(Clone, Copy, Debug)]
pub struct RosterIngestor {
    pub cursor: usize,
}

/// What one fetched page asks of the store and of the cursor.
#[derive(Clone, Debug)]
pub struct IngestStep {
    /// Names to upsert into the roster (never deleted by ingestion).
    pub upserts: Vec<String>,
    /// Whether this page ended the cycle.
    pub cycle_done: bool,
}

pub open spec fn page_names(p: IndexView) -> Seq<Seq<char>> {
    p.users.map_values(|u: (Seq<char>, u32)| u.0)
}

/// Cursor, names to upsert and end of cycle after fetching page `cursor` with
/// outcome `outcome` (`None` for a failed fetch). A page without a further
/// page ends the cycle, and so does a failure; either way the next cycle
/// starts again at page 0.
pub open spec fn ingest_spec(cursor: usize, outcome: Option<IndexView>) -> (usize, Seq<Seq<char>>, bool) {
    match outcome {
        None => (0, Seq::empty(), true),
        Some(p) => if p.has_next && cursor < usize::MAX {
            ((cursor + 1) as usize, page_names(p), false)
        } else {
            (0, page_names(p), true)
        },
    }
}

pub open spec fn outcome_view(o: Option<HiscoresIndex>) -> Option<IndexView> {
    match o {
        Some(p) => Some(p@),
        None => None,
    }
}

impl RosterIngestor {
    /// An ingestor at the first page.
    pub fn new() -> (r: RosterIngestor)
        ensures
            r.cursor == 0,
    {
        RosterIngestor { cursor: 0 }
    }

    /// The page to fetch next.
    pub fn page_to_fetch(&self) -> (r: usize)
        ensures
            r == self.cursor,
    {
        self.cursor
    }

    /// Takes in the outcome of fetching the current page.
    pub fn on_page(&mut self, outcome: &Option<HiscoresIndex>) -> (r: IngestStep)
        ensures
            ({
                let (c, names, done) = ingest_spec(old(self).cursor, outcome_view(*outcome));
                &&& final(self).cursor == c
                &&& r.upserts@.map_values(|s: String| s@) == names
                &&& r.cycle_done == done
            }),
    {
        match outcome {
            None => {
                self.cursor = 0;
                IngestStep { upserts: Vec::new(), cycle_done: true }
            },
            Some(p) => {
                let mut names: Vec<String> = Vec::new();
                let mut i: usize = 0;
                while i < p.users.len()
                    invariant
                        i <= p.users@.len(),
                        names@.map_values(|s: String| s@) =~= page_names(p@).subrange(0, i as int),
                    decreases p.users@.len() - i,
                {
                    let u: &HiscoresUser = &p.users[i];
                    names.push(u.name.clone());
                    assert(page_names(p@)[i as int] == u.name@);
                    assert(page_names(p@).subrange(0, i + 1) =~= page_names(p@).subrange(0, i as int).push(u.name@));
                    i = i + 1;
                }
                assert(page_names(p@).subrange(0, i as int) =~= page_names(p@));
                if p.has_next && self.cursor < usize::MAX {
                    self.cursor = self.cursor + 1;
                    IngestStep { upserts: names, cycle_done: false }
                } else {
                    self.cursor = 0;
                    IngestStep { upserts: names, cycle_done: true }
                }
            },
        }
    }
}

/// Names collected, pages fetched, and whether the cycle ended, when a cycle
/// runs from page `cursor` against a source whose page `i` fetches as
/// `pages[i]`, for at most `fuel` fetches.
pub open spec fn run_cycle(pages: Seq<Option<IndexView>>, cursor: usize, fuel: nat) -> (
    Seq<Seq<char>>,
    nat,
    bool,
)
    decreases fuel,
{
    if fuel == 0 || cursor >= pages.len() {
        (Seq::empty(), 0, false)
    } else {
        let (next, names, done) = ingest_spec(cursor, pages[cursor as int]);
        if done {
            (names, 1, true)
        } else {
            let (rest, n, d) = run_cycle(pages, next, (fuel - 1) as nat);
            (names + rest, n + 1, d)
        }
    }
}

/// The names that pages `from` through `last` list, in order.
pub open spec fn names_through(pages: Seq<Option<IndexView>>, from: int, last: int) -> Seq<Seq<char>>
    decreases last + 1 - from,
{
    if from > last {
        Seq::empty()
    } else {
        page_names(pages[from]->0) + names_through(pages, from + 1, last)
    }
}

/// Ingestion stops at the first page that has no further page: when pages
/// `0..k` link onward and page `k` does not, a cycle fetches exactly pages
/// `0..=k` and collects the names of all of them.
pub proof fn lemma_pagination_stops(pages: Seq<Option<IndexView>>, k: int)
    requires
        0 <= k < pages.len(),
        k < usize::MAX,
        forall|i: int| 0 <= i < k ==> ((#[trigger] pages[i]) matches Some(p) && p.has_next),
        (pages[k] matches Some(p) && !p.has_next),
    ensures
        run_cycle(pages, 0, pages.len()) == (names_through(pages, 0, k), (k + 1) as nat, true),
{
    lemma_run_from(pages, k, 0, pages.len());
}

proof fn lemma_run_from(pages: Seq<Option<IndexView>>, k: int, c: usize, fuel: nat)
    requires
        0 <= k < pages.len(),
        k < usize::MAX,
        forall|i: int| 0 <= i < k ==> ((#[trigger] pages[i]) matches Some(p) && p.has_next),
        (pages[k] matches Some(p) && !p.has_next),
        c <= k,
        fuel >= k + 1 - c,
    ensures
        run_cycle(pages, c, fuel) == (names_through(pages, c as int, k), (k + 1 - c) as nat, true),
    decreases k - c,
{
    if (c as int) < k {
        lemma_run_from(pages, k, (c + 1) as usize, (fuel - 1) as nat);
    } else {
        assert(names_through(pages, c as int + 1, k) =~= Seq::empty());
        assert(names_through(pages, c as int, k) =~= page_names(pages[k]->0));
    }
}

} // verus!
