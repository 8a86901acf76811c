//! Reading one page of the public ranking: its players and whether the
//! ranking goes on past it.
use crate::scrape::{first_attr, first_match_attr, matched_rows, row_texts, selector_parses, selector_valid};
use crate::text::{
    chars_of, parse_u32_range, parse_u32_spec, parse_usize_range, parse_usize_spec, replace_char,
    replaced, string_of, trimmed, trimmed_without, without_char,
};
use vstd::prelude::*;

verus! {

/// Rows of the ranking table.
pub const ROW_SELECTOR: &'static str = "tr.personal-hiscores__row";

/// The player link inside a row.
pub const LINK_SELECTOR: &'static str = "a";

/// The numeric cells of a row; the second one holds the score.
pub const CELL_SELECTOR: &'static str = "td.right";

/// The link to the following page.
pub const NEXT_SELECTOR: &'static str = "a.personal-hiscores__pagination-arrow--down";

pub const HREF_ATTR: &'static str = "href";

/// Characters of the next-page link that come before the page number.
pub const HREF_PREFIX_LEN: usize = 37;

/// A player as the ranking lists them.
#[derive(Clone, Debug)]
pub struct HiscoresUser {
    pub name: String,
    pub score: u32,
}

/// One page of the ranking.
#[derive(Clone, Debug)]
pub struct HiscoresIndex {
    pub users: Vec<HiscoresUser>,
    /// Whether the page links to a page of a greater index.
    pub has_next: bool,
}

pub struct IndexView {
    pub users: Seq<(Seq<char>, u32)>,
    pub has_next: bool,
}

impl View for HiscoresUser {
    type V = (Seq<char>, u32);

    open spec fn view(&self) -> (Seq<char>, u32) {
        (self.name@, self.score)
    }
}

impl View for HiscoresIndex {
    type V = IndexView;

    open spec fn view(&self) -> IndexView {
        IndexView { users: self.users@.map_values(|u: HiscoresUser| u@), has_next: self.has_next }
    }
}

/// Why a ranking page could not be read.
#[derive(Clone, Copy, Debug, PartialEq, Eq, Structural)]
pub enum IndexError {
    /// One of the page's selectors is not accepted.
    Selector,
    /// The next-page link has no target.
    MissingHref,
    /// The next-page link does not end in a page number.
    BadNextPage,
    /// A listed score is not a number.
    BadScore,
}

/// The page number that a next-page link points at.
pub open spec fn next_page_of(href: Seq<char>) -> Option<usize> {
    if href.len() < HREF_PREFIX_LEN {
        None
    } else {
        parse_usize_spec(href.subrange(HREF_PREFIX_LEN as int, href.len() as int))
    }
}

/// What a table row contributes: `None` when its score does not read,
/// `Some(None)` when it lists no player, else the player.
pub open spec fn user_of_row(row: (Option<Seq<char>>, Seq<Seq<char>>)) -> Option<
    Option<(Seq<char>, u32)>,
> {
    match row.0 {
        None => Some(None),
        Some(name) => if row.1.len() < 2 {
            Some(None)
        } else {
            match parse_u32_spec(without_char(trimmed(row.1[1]), ',')) {
                None => None,
                Some(v) => Some(Some((replace_char(name, '\u{a0}', ' '), v))),
            }
        },
    }
}

/// The players that the rows list, in order; `None` when a score does not read.
pub open spec fn users_of_rows(rows: Seq<(Option<Seq<char>>, Seq<Seq<char>>)>) -> Option<
    Seq<(Seq<char>, u32)>,
>
    decreases rows.len(),
{
    if rows.len() == 0 {
        Some(Seq::empty())
    } else {
        match (users_of_rows(rows.drop_last()), user_of_row(rows.last())) {
            (Some(us), Some(None)) => Some(us),
            (Some(us), Some(Some(u))) => Some(us.push(u)),
            _ => None,
        }
    }
}

pub open spec fn selectors_valid() -> bool {
    selector_valid(ROW_SELECTOR@) && selector_valid(LINK_SELECTOR@) && selector_valid(
        CELL_SELECTOR@,
    ) && selector_valid(NEXT_SELECTOR@)
}

/// What ranking page `page`, with document text `html`, reads as.
pub open spec fn index_of(page: usize, html: Seq<char>) -> Result<IndexView, IndexError> {
    if !selectors_valid() {
        Err(IndexError::Selector)
    } else {
        let next = first_match_attr(html, NEXT_SELECTOR@, HREF_ATTR@);
        if next == Some(None::<Seq<char>>) {
            Err(IndexError::MissingHref)
        } else if next matches Some(Some(h)) && next_page_of(h) is None {
            Err(IndexError::BadNextPage)
        } else {
            let has_next = match next {
                Some(Some(h)) => next_page_of(h)->0 > page,
                _ => false,
            };
            match users_of_rows(matched_rows(html, ROW_SELECTOR@, LINK_SELECTOR@, CELL_SELECTOR@)) {
                None => Err(IndexError::BadScore),
                Some(us) => Ok(IndexView { users: us, has_next }),
            }
        }
    }
}

fn next_page_from(href: &String) -> (r: Option<usize>)
    ensures
        r == next_page_of(href@),
{
    let cs = chars_of(href.as_str());
    if cs.len() < HREF_PREFIX_LEN {
        None
    } else {
        parse_usize_range(&cs, HREF_PREFIX_LEN, cs.len())
    }
}

fn user_from_row(row: &(Option<String>, Vec<String>)) -> (r: Option<Option<HiscoresUser>>)
    ensures
        match user_of_row(crate::scrape::row_view(*row)) {
            None => r is None,
            Some(None) => r == Some(None::<HiscoresUser>),
            Some(Some(u)) => r matches Some(Some(x)) && x@ == u,
        },
{
    match &row.0 {
        None => Some(None),
        Some(name) => {
            if row.1.len() < 2 {
                Some(None)
            } else {
                let cell = chars_of(row.1[1].as_str());
                let digits = trimmed_without(&cell, ',');
                match parse_u32_range(&digits, 0, digits.len()) {
                    None => {
                        assert(digits@.subrange(0, digits@.len() as int) =~= digits@);
                        None
                    },
                    Some(score) => {
                        assert(digits@.subrange(0, digits@.len() as int) =~= digits@);
                        let shown = replaced(&chars_of(name.as_str()), '\u{a0}', ' ');
                        Some(Some(HiscoresUser { name: string_of(&shown), score }))
                    },
                }
            }
        },
    }
}

/// Reads ranking page `page` from its document text `html`.
pub fn hiscores_index(page: usize, html: &str) -> (r: Result<HiscoresIndex, IndexError>)
    ensures
        match index_of(page, html@) {
            Ok(v) => r matches Ok(x) && x@ == v,
            Err(e) => r == Err::<HiscoresIndex, IndexError>(e),
        },
{
    if !(selector_parses(ROW_SELECTOR) && selector_parses(LINK_SELECTOR) && selector_parses(
        CELL_SELECTOR,
    ) && selector_parses(NEXT_SELECTOR)) {
        return Err(IndexError::Selector);
    }
    let has_next = match first_attr(html, NEXT_SELECTOR, HREF_ATTR) {
        None => false,
        Some(None) => {
            return Err(IndexError::MissingHref);
        },
        Some(Some(href)) => match next_page_from(&href) {
            None => {
                return Err(IndexError::BadNextPage);
            },
            Some(n) => n > page,
        },
    };
    let rows = row_texts(html, ROW_SELECTOR, LINK_SELECTOR, CELL_SELECTOR);
    let ghost rv = crate::scrape::rows_view(rows@);
    let mut users: Vec<HiscoresUser> = Vec::new();
    let mut i: usize = 0;
    while i < rows.len()
        invariant
            i <= rows@.len(),
            rv == crate::scrape::rows_view(rows@),
            rv == matched_rows(html@, ROW_SELECTOR@, LINK_SELECTOR@, CELL_SELECTOR@),
            selectors_valid(),
            match first_match_attr(html@, NEXT_SELECTOR@, HREF_ATTR@) {
                Some(None) => false,
                Some(Some(h)) => next_page_of(h) is Some && has_next == (next_page_of(h)->0 > page),
                None => !has_next,
            },
            users_of_rows(rv.subrange(0, i as int)) == Some(users@.map_values(|u: HiscoresUser| u@)),
        decreases rows@.len() - i,
    {
        let ghost before = rv.subrange(0, i as int);
        assert(rv.subrange(0, i + 1).drop_last() =~= before);
        assert(rv.subrange(0, i + 1).last() == crate::scrape::row_view(rows@[i as int]));
        match user_from_row(&rows[i]) {
            None => {
                proof {
                    assert(user_of_row(rv[i as int]) is None);
                    assert(users_of_rows(rv.subrange(0, i + 1)) is None);
                    lemma_users_of_rows_fails(rv, i as int + 1);
                }
                return Err(IndexError::BadScore);
            },
            Some(None) => {},
            Some(Some(u)) => {
                users.push(u);
                assert(users@.map_values(|u: HiscoresUser| u@) =~= users_of_rows(
                    rv.subrange(0, i + 1),
                )->0);
            },
        }
        i = i + 1;
    }
    assert(rv.subrange(0, i as int) =~= rv);
    Ok(HiscoresIndex { users, has_next })
}

/// Once a prefix of the rows fails to read, so do all the rows.
proof fn lemma_users_of_rows_fails(rows: Seq<(Option<Seq<char>>, Seq<Seq<char>>)>, j: int)
    requires
        0 <= j <= rows.len(),
        users_of_rows(rows.subrange(0, j)) is None,
    ensures
        users_of_rows(rows) is None,
    decreases rows.len() - j,
{
    if j < rows.len() {
        assert(rows.subrange(0, j + 1).drop_last() =~= rows.subrange(0, j));
        lemma_users_of_rows_fails(rows, j + 1);
    } else {
        assert(rows.subrange(0, j) =~= rows);
    }
}

} // verus!
