//! Queries on HTML documents, answered by the `scraper` crate.
use vstd::prelude::*;

verus! {

/// Whether `selector` is a CSS selector that `scraper` accepts.
pub uninterp spec fn selector_valid(selector: Seq<char>) -> bool;

/// For the first element of document `html` that `selector` matches: the value
/// of its attribute `attr` (`Some(None)` when it has none); `None` when no
/// element matches.
pub uninterp spec fn first_match_attr(
    html: Seq<char>,
    selector: Seq<char>,
    attr: Seq<char>,
) -> Option<Option<Seq<char>>>;

/// For each element of document `html` that `row` matches, in document order:
/// the text of its first descendant that `link` matches, if there is one, and
/// the texts of all its descendants that `cell` matches.
pub uninterp spec fn matched_rows(
    html: Seq<char>,
    row: Seq<char>,
    link: Seq<char>,
    cell: Seq<char>,
) -> Seq<(Option<Seq<char>>, Seq<Seq<char>>)>;

pub open spec fn opt_view(o: Option<String>) -> Option<Seq<char>> {
    match o {
        Some(s) => Some(s@),
        None => None,
    }
}

pub open spec fn row_view(r: (Option<String>, Vec<String>)) -> (Option<Seq<char>>, Seq<Seq<char>>) {
    (opt_view(r.0), r.1@.map_values(|s: String| s@))
}

pub open spec fn rows_view(rs: Seq<(Option<String>, Vec<String>)>) -> Seq<
    (Option<Seq<char>>, Seq<Seq<char>>),
> {
    rs.map_values(|r: (Option<String>, Vec<String>)| row_view(r))
}

/// Relies on `scraper::Selector::parse`: whether it accepts `selector`.
#[verifier::external_body]
pub(crate) fn selector_parses(selector: &str) -> (r: bool)
    ensures
        r == selector_valid(selector@),
{
    scraper::Selector::parse(selector).is_ok()
}

/// Relies on `scraper::Html::parse_document`, `Html::select` and `Element::attr`:
/// the attribute `attr` of the first element that `selector` matches.
#[verifier::external_body]
pub(crate) fn first_attr(html: &str, selector: &str, attr: &str) -> (r: Option<Option<String>>)
    requires
        selector_valid(selector@),
    ensures
        match r {
            Some(a) => first_match_attr(html@, selector@, attr@) == Some(opt_view(a)),
            None => first_match_attr(html@, selector@, attr@) is None,
        },
{
    let selector = scraper::Selector::parse(selector).unwrap();
    let document = scraper::Html::parse_document(html);
    let first = document.select(&selector).next();
    match first {
        Some(element) => Some(element.value().attr(attr).map(String::from)),
        None => None,
    }
}

/// Relies on `scraper::Html::parse_document`, `Html::select`, `ElementRef::select`
/// and `ElementRef::text`: the link text and cell texts of every matched row.
#[verifier::external_body]
pub(crate) fn row_texts(html: &str, row: &str, link: &str, cell: &str) -> (r: Vec<
    (Option<String>, Vec<String>),
>)
    requires
        selector_valid(row@),
        selector_valid(link@),
        selector_valid(cell@),
    ensures
        rows_view(r@) == matched_rows(html@, row@, link@, cell@),
{
    let row = scraper::Selector::parse(row).unwrap();
    let link = scraper::Selector::parse(link).unwrap();
    let cell = scraper::Selector::parse(cell).unwrap();
    let document = scraper::Html::parse_document(html);
    let rows = document.select(&row).map(|e| (
        e.select(&link).next().map(|a| a.text().collect::<String>()),
        e.select(&cell).map(|c| c.text().collect::<String>()).collect::<Vec<String>>(),
    ));
    rows.collect()
}

} // verus!
