//! Reading a fetched page: its table rows, and the records they yield.
use vstd::prelude::*;
use crate::error::ScrapeError;
use crate::ledger::Ledger;
use crate::record::{pronunciation_of, resolve_pronunciation, PendingRecord};
use crate::row::{parse_row, row_outcome, Cell, RowOutcome};

verus! {

#[verifier::external_type_specification]
#[verifier::external_body]
pub struct ExSelector(scraper::Selector);

/// Relies on `scraper::Selector::parse`: compiles a CSS selector, `None`
/// where it does not parse. A bare tag name always parses.
#[verifier::external_body]
fn compile_selector(css: &str) -> (r: Option<scraper::Selector>)
    ensures
        css@ == "tr"@ || css@ == "td"@ || css@ == "a"@ ==> r is Some,
{
    scraper::Selector::parse(css).ok()
}

/// The tag selectors that pick rows, cells and links out of a page.
pub struct Selectors {
    tr: scraper::Selector,
    td: scraper::Selector,
    a: scraper::Selector,
}

/// A cell as plain values: its first text node, and its first link with
/// that link's first text node.
pub open spec fn cell_view(c: Cell) -> (Option<Seq<char>>, Option<Option<Seq<char>>>) {
    (
        match c.text {
            Some(t) => Some(t@),
            None => None,
        },
        match c.link {
            Some(Some(t)) => Some(Some(t@)),
            Some(None) => Some(None),
            None => None,
        },
    )
}

/// Table rows as plain values.
pub open spec fn rows_view(rows: Seq<Vec<Cell>>) -> Seq<
    Seq<(Option<Seq<char>>, Option<Option<Seq<char>>>)>,
> {
    rows.map_values(|row: Vec<Cell>| row@.map_values(|c: Cell| cell_view(c)))
}

/// The table rows that the HTML parser finds in a page's text, in document
/// order, each as its cells in order (see `cell_view`).
pub uninterp spec fn html_rows(html: Seq<char>) -> Seq<
    Seq<(Option<Seq<char>>, Option<Option<Seq<char>>>)>,
>;

/// Relies on `scraper::Html::parse_document`, `scraper::Html::select`,
/// `scraper::ElementRef::select` and `scraper::ElementRef::text`: every `tr`
/// element of the parsed page, as its `td` cells, each with its first text
/// node and its first `a` element's first text node. A `Selectors` is only
/// ever built by `Selectors::new`, from the tags `tr`, `td` and `a`, so the
/// result depends on the page's text alone.
#[verifier::external_body]
fn select_rows(html: &str, sel: &Selectors) -> (r: Vec<Vec<Cell>>)
    ensures
        rows_view(r@) == html_rows(html@),
{
    let doc = scraper::Html::parse_document(html);
    doc.select(&sel.tr).map(|row| row.select(&sel.td).map(|cell| Cell {
        text: cell.text().next().map(String::from),
        link: cell.select(&sel.a).next().map(|a| a.text().next().map(String::from)),
    }).collect()).collect()
}

impl Selectors {
    /// Compiles the selectors for table rows, cells and links.
    pub fn new() -> (r: Result<Selectors, ScrapeError>)
        ensures
            r is Ok,
    {
        let tr = match compile_selector("tr") {
            Some(s) => s,
            None => {
                return Err(ScrapeError::SelectorParse);
            },
        };
        let td = match compile_selector("td") {
            Some(s) => s,
            None => {
                return Err(ScrapeError::SelectorParse);
            },
        };
        let a = match compile_selector("a") {
            Some(s) => s,
            None => {
                return Err(ScrapeError::SelectorParse);
            },
        };
        Ok(Selectors { tr, td, a })
    }

    /// The table rows of a page's text, in document order.
    pub fn rows(&self, html: &str) -> (r: Vec<Vec<Cell>>)
        ensures
            rows_view(r@) == html_rows(html@),
    {
        select_rows(html, self)
    }
}

/// What a pending record holds, as plain values: character, HSK level,
/// standard index, frequency rank and pronunciation.
pub open spec fn pending_view(p: PendingRecord) -> (Seq<char>, u32, u32, u32, Seq<char>) {
    (
        p.fields.hanzi@,
        p.fields.hsk_level,
        p.fields.standard_index,
        p.fields.frequency_rank,
        p.pronunciation@,
    )
}

/// The records that rows yield, in order, given the characters already seen,
/// and the error that stopped the page, if one did. A row after a fatal one
/// is never read.
pub open spec fn page_result(rows: Seq<Seq<Cell>>, seen: Set<Seq<char>>) -> (
    Seq<(Seq<char>, u32, u32, u32, Seq<char>)>,
    Option<ScrapeError>,
)
    decreases rows.len(),
{
    if rows.len() == 0 {
        (Seq::empty(), None)
    } else {
        match row_outcome(rows[0], seen) {
            RowOutcome::Skip => page_result(rows.drop_first(), seen),
            RowOutcome::Fatal(e) => (Seq::empty(), Some(e)),
            RowOutcome::Fields(f) => match pronunciation_of(f.hanzi@) {
                None => (Seq::empty(), Some(ScrapeError::NoReadings)),
                Some(p) => {
                    let rest = page_result(rows.drop_first(), seen.insert(f.hanzi@));
                    (
                        seq![(f.hanzi@, f.hsk_level, f.standard_index, f.frequency_rank, p)]
                            + rest.0,
                        rest.1,
                    )
                },
            },
        }
    }
}

/// The characters of a sequence of records.
pub open spec fn hanzi_set(ps: Seq<(Seq<char>, u32, u32, u32, Seq<char>)>) -> Set<Seq<char>> {
    Set::new(|h: Seq<char>| exists|i: int| 0 <= i < ps.len() && (#[trigger] ps[i]).0 == h)
}

/// What a page gives: the records of its rows up to the first fatal one, in
/// order, and that row's error, if any.
pub struct PageOutcome {
    pub pending: Vec<PendingRecord>,
    pub error: Option<ScrapeError>,
}

/// Reads the rows of a page in order. Each character that yields a record is
/// recorded in the ledger at once, so that a later row repeating it is
/// skipped; the caller writes the records in order and stops at the first
/// write that fails, or at the error that ends the page.
pub fn process_page(rows: &Vec<Vec<Cell>>, ledger: &mut Ledger) -> (r: PageOutcome)
    requires
        old(ledger).wf(),
    ensures
        final(ledger).wf(),
        r.pending@.map_values(|p: PendingRecord| pending_view(p)) == page_result(
            rows@.map_values(|row: Vec<Cell>| row@),
            old(ledger)@,
        ).0,
        r.error == page_result(rows@.map_values(|row: Vec<Cell>| row@), old(ledger)@).1,
        final(ledger)@ == old(ledger)@.union(
            hanzi_set(page_result(rows@.map_values(|row: Vec<Cell>| row@), old(ledger)@).0),
        ),
{
    let ghost all = rows@.map_values(|row: Vec<Cell>| row@);
    let ghost seen0 = ledger@;
    let mut pending: Vec<PendingRecord> = Vec::new();
    let mut i: usize = 0;
    assert(all.subrange(0, all.len() as int) =~= all);
    assert(Seq::<(Seq<char>, u32, u32, u32, Seq<char>)>::empty() + page_result(all, seen0).0
        =~= page_result(all, seen0).0);
    assert(pending@.map_values(|p: PendingRecord| pending_view(p)) =~= Seq::empty());
    assert(seen0.union(hanzi_set(Seq::empty())) =~= seen0);
    while i < rows.len()
        invariant
            i <= rows@.len(),
            all == rows@.map_values(|row: Vec<Cell>| row@),
            seen0 == old(ledger)@,
            ledger.wf(),
            page_result(all, seen0).0 == pending@.map_values(|p: PendingRecord| pending_view(p))
                + page_result(all.subrange(i as int, all.len() as int), ledger@).0,
            page_result(all, seen0).1 == page_result(
                all.subrange(i as int, all.len() as int),
                ledger@,
            ).1,
            ledger@ == seen0.union(hanzi_set(pending@.map_values(|p: PendingRecord| pending_view(p)))),
        decreases rows@.len() - i,
    {
        let ghost rest = all.subrange(i as int, all.len() as int);
        let ghost done = pending@.map_values(|p: PendingRecord| pending_view(p));
        assert(rest.len() > 0);
        assert(rest[0] == rows@[i as int]@);
        assert(rest.drop_first() =~= all.subrange(i + 1, all.len() as int));
        match parse_row(&rows[i], ledger) {
            RowOutcome::Skip => {},
            RowOutcome::Fatal(e) => {
                assert(page_result(rest, ledger@) == (
                    Seq::<(Seq<char>, u32, u32, u32, Seq<char>)>::empty(),
                    Some(e),
                ));
                assert(done + Seq::empty() =~= done);
                return PageOutcome { pending, error: Some(e) };
            },
            RowOutcome::Fields(fields) => {
                match resolve_pronunciation(&fields.hanzi) {
                    Err(e) => {
                        assert(page_result(rest, ledger@) == (
                            Seq::<(Seq<char>, u32, u32, u32, Seq<char>)>::empty(),
                            Some(e),
                        ));
                        assert(done + Seq::empty() =~= done);
                        return PageOutcome { pending, error: Some(e) };
                    },
                    Ok(pronunciation) => {
                        ledger.record(&fields.hanzi);
                        let p = PendingRecord { fields, pronunciation };
                        let ghost v = pending_view(p);
                        pending.push(p);
                        proof {
                            let now = pending@.map_values(|p: PendingRecord| pending_view(p));
                            assert(now =~= done.push(v));
                            assert(done + (seq![v] + page_result(rest.drop_first(), ledger@).0)
                                =~= now + page_result(rest.drop_first(), ledger@).0);
                            assert(hanzi_set(now) =~= hanzi_set(done).insert(v.0)) by {
                                assert forall|h: Seq<char>| hanzi_set(now).contains(h) implies
                                    hanzi_set(done).insert(v.0).contains(h) by {
                                    let j = choose|j: int| 0 <= j < now.len() && (#[trigger] now[j]).0 == h;
                                    if j < done.len() {
                                        assert(done[j].0 == h);
                                    }
                                }
                                assert forall|h: Seq<char>| hanzi_set(done).insert(v.0).contains(h) implies
                                    hanzi_set(now).contains(h) by {
                                    if h == v.0 {
                                        assert(now[now.len() - 1].0 == h);
                                    } else {
                                        let j = choose|j: int| 0 <= j < done.len() && (#[trigger] done[j]).0 == h;
                                        assert(now[j].0 == h);
                                    }
                                }
                            }
                            assert(seen0.union(hanzi_set(now)) =~= seen0.union(hanzi_set(done)).insert(v.0));
                        }
                    },
                }
            },
        }
        i = i + 1;
    }
    assert(all.subrange(i as int, all.len() as int) =~= Seq::<Seq<Cell>>::empty());
    assert(pending@.map_values(|p: PendingRecord| pending_view(p)) + Seq::empty()
        =~= pending@.map_values(|p: PendingRecord| pending_view(p)));
    PageOutcome { pending, error: None }
}

} // verus!
