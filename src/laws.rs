//! What holds of every row and every page: proved over the models that the
//! row reader and the page reader are held to.
use vstd::prelude::*;
use crate::page::{hanzi_set, page_result};
use crate::record::pronunciation_of;
use crate::row::{
    field_outcome, row_hanzi, row_outcome, Cell, FieldOutcome, RowOutcome, FREQUENCY_CELL,
    HSK_CELL, STANDARD_CELL,
};

verus! {

/// The characters of one record followed by others.
proof fn lemma_hanzi_set_cons(
    v: (Seq<char>, u32, u32, u32, Seq<char>),
    ps: Seq<(Seq<char>, u32, u32, u32, Seq<char>)>,
)
    ensures
        hanzi_set(seq![v] + ps) == hanzi_set(ps).insert(v.0),
{
    let all = seq![v] + ps;
    assert forall|h: Seq<char>| hanzi_set(all).contains(h) implies hanzi_set(ps).insert(
        v.0,
    ).contains(h) by {
        let j = choose|j: int| 0 <= j < all.len() && (#[trigger] all[j]).0 == h;
        if j > 0 {
            assert(ps[j - 1].0 == h);
        }
    }
    assert forall|h: Seq<char>| hanzi_set(ps).insert(v.0).contains(h) implies hanzi_set(
        all,
    ).contains(h) by {
        if h == v.0 {
            assert(all[0].0 == h);
        } else {
            let j = choose|j: int| 0 <= j < ps.len() && (#[trigger] ps[j]).0 == h;
            assert(all[j + 1].0 == h);
        }
    }
    assert(hanzi_set(all) =~= hanzi_set(ps).insert(v.0));
}

/// Reading rows that follow other rows: a page stops where its first part
/// stops; otherwise the second part is read with the first part's
/// characters added to those seen, and its records follow the first part's.
pub proof fn lemma_page_result_split(
    first: Seq<Seq<Cell>>,
    rest: Seq<Seq<Cell>>,
    seen: Set<Seq<char>>,
)
    ensures
        ({
            let pre = page_result(first, seen);
            let after = page_result(rest, seen.union(hanzi_set(pre.0)));
            &&& pre.1 is Some ==> page_result(first + rest, seen) == pre
            &&& pre.1 is None ==> page_result(first + rest, seen) == (pre.0 + after.0, after.1)
        }),
    decreases first.len(),
{
    let pre = page_result(first, seen);
    if first.len() == 0 {
        assert(first + rest =~= rest);
        assert(pre.0 =~= Seq::<(Seq<char>, u32, u32, u32, Seq<char>)>::empty());
        assert(hanzi_set(pre.0) =~= Set::<Seq<char>>::empty());
        assert(seen.union(hanzi_set(pre.0)) =~= seen);
        assert(pre.0 + page_result(rest, seen).0 =~= page_result(rest, seen).0);
    } else {
        let whole = first + rest;
        assert(whole[0] == first[0]);
        assert(whole.drop_first() =~= first.drop_first() + rest);
        match row_outcome(first[0], seen) {
            RowOutcome::Skip => {
                lemma_page_result_split(first.drop_first(), rest, seen);
            },
            RowOutcome::Fatal(_) => {},
            RowOutcome::Fields(f) => {
                if pronunciation_of(f.hanzi@) is Some {
                    let s2 = seen.insert(f.hanzi@);
                    lemma_page_result_split(first.drop_first(), rest, s2);
                    let r = page_result(first.drop_first(), s2);
                    let v = (
                        f.hanzi@,
                        f.hsk_level,
                        f.standard_index,
                        f.frequency_rank,
                        pronunciation_of(f.hanzi@)->Some_0,
                    );
                    if r.1 is None {
                        lemma_hanzi_set_cons(v, r.0);
                        assert(s2.union(hanzi_set(r.0)) =~= seen.union(hanzi_set(seq![v] + r.0)));
                        let after = page_result(rest, s2.union(hanzi_set(r.0)));
                        assert(seq![v] + (r.0 + after.0) =~= (seq![v] + r.0) + after.0);
                    }
                }
            },
        }
    }
}

/// A row whose character link resolves to a character not seen before
/// (neither earlier in the run nor on the page before it), whose standard
/// index is a number and whose other numeric cells are not malformed, yields
/// exactly one record, placed after those of the rows before it and before
/// those of the rows after it. Its numbers are those of the row, `0` where
/// the HSK level or frequency rank cell has no text, and its pronunciation is
/// the character's, provided the character has readings and no row before it
/// stopped the page.
pub proof fn lemma_valid_row_yields_one_record(
    before: Seq<Seq<Cell>>,
    row: Seq<Cell>,
    after: Seq<Seq<Cell>>,
    seen: Set<Seq<char>>,
)
    requires
        page_result(before, seen).1 is None,
        row_hanzi(row) is Some,
        !seen.union(hanzi_set(page_result(before, seen).0)).contains(row_hanzi(row)->Some_0@),
        row.len() > FREQUENCY_CELL,
        field_outcome(row[HSK_CELL as int], Some(0u32)) is Value,
        field_outcome(row[STANDARD_CELL as int], None) is Value,
        field_outcome(row[FREQUENCY_CELL as int], Some(0u32)) is Value,
        pronunciation_of(row_hanzi(row)->Some_0@) is Some,
    ensures
        ({
            let pre = page_result(before, seen);
            let h = row_hanzi(row)->Some_0@;
            let v = (
                h,
                field_outcome(row[HSK_CELL as int], Some(0u32))->Value_0,
                field_outcome(row[STANDARD_CELL as int], None)->Value_0,
                field_outcome(row[FREQUENCY_CELL as int], Some(0u32))->Value_0,
                pronunciation_of(h)->Some_0,
            );
            let post = page_result(after, seen.union(hanzi_set(pre.0)).insert(h));
            &&& page_result(before + (seq![row] + after), seen) == (pre.0 + seq![v] + post.0, post.1)
            &&& row[HSK_CELL as int].text is None ==> v.1 == 0
            &&& row[FREQUENCY_CELL as int].text is None ==> v.3 == 0
        }),
{
    let pre = page_result(before, seen);
    let s1 = seen.union(hanzi_set(pre.0));
    lemma_page_result_split(before, seq![row] + after, seen);
    let tail = seq![row] + after;
    assert(tail[0] == row);
    assert(tail.drop_first() =~= after);
    let h = row_hanzi(row)->Some_0@;
    let v = (
        h,
        field_outcome(row[HSK_CELL as int], Some(0u32))->Value_0,
        field_outcome(row[STANDARD_CELL as int], None)->Value_0,
        field_outcome(row[FREQUENCY_CELL as int], Some(0u32))->Value_0,
        pronunciation_of(h)->Some_0,
    );
    let post = page_result(after, s1.insert(h));
    assert(pre.0 + (seq![v] + post.0) =~= pre.0 + seq![v] + post.0);
}

/// A row without a character cell, without a link in it, or whose link has
/// no text yields nothing and raises nothing, wherever it stands: the page
/// reads as if the row were not there.
pub proof fn lemma_row_without_character_is_skipped(
    before: Seq<Seq<Cell>>,
    row: Seq<Cell>,
    after: Seq<Seq<Cell>>,
    seen: Set<Seq<char>>,
)
    requires
        row.len() == 0 || row[0].link is None || row[0].link == Some(None::<String>),
    ensures
        forall|s: Set<Seq<char>>| #[trigger] row_outcome(row, s) is Skip,
        page_result(before + (seq![row] + after), seen) == page_result(before + after, seen),
{
    lemma_skipped_row_is_transparent(before, row, after, seen);
}

/// A row without a standard index cell, or whose standard index cell has no
/// text, yields nothing and raises nothing, wherever it stands, provided its
/// HSK level cell is not malformed (that cell is read first).
pub proof fn lemma_row_without_standard_index_is_skipped(
    before: Seq<Seq<Cell>>,
    row: Seq<Cell>,
    after: Seq<Seq<Cell>>,
    seen: Set<Seq<char>>,
)
    requires
        row.len() <= STANDARD_CELL || row[STANDARD_CELL as int].text is None,
        row.len() <= HSK_CELL || !(field_outcome(row[HSK_CELL as int], Some(0u32)) is Fatal),
    ensures
        forall|s: Set<Seq<char>>| #[trigger] row_outcome(row, s) is Skip,
        page_result(before + (seq![row] + after), seen) == page_result(before + after, seen),
{
    lemma_skipped_row_is_transparent(before, row, after, seen);
}

/// A row that every ledger skips can be taken out of a page without changing
/// what the page gives.
proof fn lemma_skipped_row_is_transparent(
    before: Seq<Seq<Cell>>,
    row: Seq<Cell>,
    after: Seq<Seq<Cell>>,
    seen: Set<Seq<char>>,
)
    requires
        forall|s: Set<Seq<char>>| #[trigger] row_outcome(row, s) is Skip,
    ensures
        page_result(before + (seq![row] + after), seen) == page_result(before + after, seen),
{
    lemma_page_result_split(before, seq![row] + after, seen);
    lemma_page_result_split(before, after, seen);
    let pre = page_result(before, seen);
    let s1 = seen.union(hanzi_set(pre.0));
    let tail = seq![row] + after;
    assert(tail[0] == row);
    assert(tail.drop_first() =~= after);
    assert(row_outcome(row, s1) is Skip);
}

/// An HSK level cell or a frequency rank cell without text gives the value
/// `0`, and the row is still read.
pub proof fn lemma_blank_numbers_are_zero(cell: Cell)
    requires
        cell.text is None,
    ensures
        field_outcome(cell, Some(0u32)) == FieldOutcome::Value(0),
{
}

/// A row with a new character whose HSK level, standard index or frequency
/// rank cell holds text that is not a number stops the page with an error
/// where it stands: the rows before it keep their records, the row and every
/// later row yield nothing. Cells are read in order, so a malformed cell
/// counts where the cells before it are present and well formed.
pub proof fn lemma_malformed_number_is_fatal(
    before: Seq<Seq<Cell>>,
    row: Seq<Cell>,
    after: Seq<Seq<Cell>>,
    seen: Set<Seq<char>>,
)
    requires
        page_result(before, seen).1 is None,
        row_hanzi(row) is Some,
        !seen.union(hanzi_set(page_result(before, seen).0)).contains(row_hanzi(row)->Some_0@),
        ({
            let hsk = field_outcome(row[HSK_CELL as int], Some(0u32));
            let gs = field_outcome(row[STANDARD_CELL as int], None);
            let freq = field_outcome(row[FREQUENCY_CELL as int], Some(0u32));
            ||| row.len() > HSK_CELL && hsk is Fatal
            ||| row.len() > STANDARD_CELL && hsk is Value && gs is Fatal
            ||| row.len() > FREQUENCY_CELL && hsk is Value && gs is Value && freq is Fatal
        }),
    ensures
        ({
            let pre = page_result(before, seen);
            let s1 = seen.union(hanzi_set(pre.0));
            &&& row_outcome(row, s1) is Fatal
            &&& page_result(before + (seq![row] + after), seen) == (
                pre.0,
                Some(row_outcome(row, s1)->Fatal_0),
            )
        }),
{
    let pre = page_result(before, seen);
    lemma_page_result_split(before, seq![row] + after, seen);
    let tail = seq![row] + after;
    assert(tail[0] == row);
    assert(pre.0 + Seq::empty() =~= pre.0);
}

/// Every record of a page is of a character not seen before, and no two
/// records of a page share a character.
pub proof fn lemma_page_records_are_fresh(rows: Seq<Seq<Cell>>, seen: Set<Seq<char>>)
    ensures
        forall|i: int|
            0 <= i < page_result(rows, seen).0.len() ==> !seen.contains(
                #[trigger] page_result(rows, seen).0[i].0,
            ),
        forall|i: int, j: int|
            0 <= i < j < page_result(rows, seen).0.len() ==> page_result(rows, seen).0[i].0
                != page_result(rows, seen).0[j].0,
    decreases rows.len(),
{
    if rows.len() > 0 {
        match row_outcome(rows[0], seen) {
            RowOutcome::Skip => {
                lemma_page_records_are_fresh(rows.drop_first(), seen);
                assert(page_result(rows, seen) == page_result(rows.drop_first(), seen));
            },
            RowOutcome::Fatal(_) => {
                assert(page_result(rows, seen).0.len() == 0);
            },
            RowOutcome::Fields(f) => {
                assert(!seen.contains(f.hanzi@));
                if pronunciation_of(f.hanzi@) is Some {
                    let s2 = seen.insert(f.hanzi@);
                    lemma_page_records_are_fresh(rows.drop_first(), s2);
                    let res = page_result(rows, seen).0;
                    let rest = page_result(rows.drop_first(), s2).0;
                    assert(res.drop_first() =~= rest);
                    assert(res[0].0 == f.hanzi@);
                    assert(res.len() == rest.len() + 1);
                    assert forall|i: int| 0 <= i < res.len() implies !seen.contains(
                        #[trigger] res[i].0,
                    ) by {
                        if i > 0 {
                            assert(res[i] == rest[i - 1]);
                        }
                    }
                    assert forall|i: int, j: int| 0 <= i < j < res.len() implies res[i].0
                        != res[j].0 by {
                        assert(res[j] == rest[j - 1]);
                        assert(!s2.contains(rest[j - 1].0));
                        if i > 0 {
                            assert(res[i] == rest[i - 1]);
                        }
                    }
                } else {
                    assert(page_result(rows, seen).0.len() == 0);
                }
            },
        }
    }
}

/// A character is written once however many pages or listings show it: the
/// records of a page read after another, with the first page's characters
/// added to those seen, share no character with the first page's records,
/// and no two records of either page share one.
pub proof fn lemma_dedup_across_pages(
    first: Seq<Seq<Cell>>,
    second: Seq<Seq<Cell>>,
    seen: Set<Seq<char>>,
)
    ensures
        ({
            let a = page_result(first, seen).0;
            let b = page_result(second, seen.union(hanzi_set(a))).0;
            let all = a + b;
            forall|i: int, j: int| 0 <= i < j < all.len() ==> all[i].0 != all[j].0
        }),
{
    let a = page_result(first, seen).0;
    let s2 = seen.union(hanzi_set(a));
    let b = page_result(second, s2).0;
    let all = a + b;
    lemma_page_records_are_fresh(first, seen);
    lemma_page_records_are_fresh(second, s2);
    assert forall|i: int, j: int| 0 <= i < j < all.len() implies all[i].0 != all[j].0 by {
        if j >= a.len() {
            assert(all[j] == b[j - a.len()]);
            assert(!s2.contains(b[j - a.len()].0));
            if i < a.len() {
                assert(all[i] == a[i]);
                assert(hanzi_set(a).contains(a[i].0));
            } else {
                assert(all[i] == b[i - a.len()]);
            }
        } else {
            assert(all[i] == a[i]);
            assert(all[j] == a[j]);
        }
    }
}

} // verus!
