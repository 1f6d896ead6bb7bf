//! Reading one table row into the fields of a character record.
use vstd::prelude::*;
use crate::error::ScrapeError;
use crate::ledger::Ledger;
use crate::number::{parse_u32, u32_of_text};

verus! {

/// One table cell, as far as the row reader looks at it.
#[derive(Debug)]
pub struct Cell {
    /// The first text node inside the cell, if any.
    pub text: Option<String>,
    /// The first link inside the cell, if any, with its first text node, if any.
    pub link: Option<Option<String>>,
}

/// The raw fields of a row that will become a record.
#[derive(Debug)]
pub struct RowFields {
    pub hanzi: String,
    /// `0` for a character outside the HSK curriculum.
    pub hsk_level: u32,
    pub standard_index: u32,
    /// `0` for a character without a frequency rank.
    pub frequency_rank: u32,
}

/// What one row gives.
#[derive(Debug)]
pub enum RowOutcome {
    /// The row is passed over silently: no character link, a character
    /// already written, a missing standard index, or a missing cell where
    /// the cells before it were well formed.
    Skip,
    /// The row holds a new character with its numbers.
    Fields(RowFields),
    /// The row holds malformed data: the crawl stops.
    Fatal(ScrapeError),
}

/// What one numeric cell gives.
#[derive(Clone, Copy, Debug, PartialEq, Eq, Structural)]
pub enum FieldOutcome {
    /// The cell has no text and the field may not be absent: skip the row.
    Skip,
    /// The number of the cell, or the default of a cell without text.
    Value(u32),
    /// The cell has text that is not a number.
    Fatal,
}

/// The position of the character cell.
pub const HANZI_CELL: usize = 0;
/// The position of the HSK level cell: the fifth after the character cell.
pub const HSK_CELL: usize = 5;
/// The position of the standard index cell.
pub const STANDARD_CELL: usize = 6;
/// The position of the frequency rank cell.
pub const FREQUENCY_CELL: usize = 7;

/// What a numeric cell gives; `blank` is the value of a cell without text,
/// `None` where such a cell skips the row.
pub open spec fn field_outcome(cell: Cell, blank: Option<u32>) -> FieldOutcome {
    match cell.text {
        None => match blank {
            Some(v) => FieldOutcome::Value(v),
            None => FieldOutcome::Skip,
        },
        Some(t) => match u32_of_text(t@) {
            Some(v) => FieldOutcome::Value(v),
            None => FieldOutcome::Fatal,
        },
    }
}

/// The character that a row's first cell links to, if any.
pub open spec fn row_hanzi(cells: Seq<Cell>) -> Option<String> {
    if cells.len() > HANZI_CELL {
        match cells[HANZI_CELL as int].link {
            Some(Some(h)) => Some(h),
            _ => None,
        }
    } else {
        None
    }
}

/// What a row gives, given the characters already written.
pub open spec fn row_outcome(cells: Seq<Cell>, seen: Set<Seq<char>>) -> RowOutcome {
    match row_hanzi(cells) {
        None => RowOutcome::Skip,
        Some(h) => if seen.contains(h@) || cells.len() <= HSK_CELL {
            RowOutcome::Skip
        } else {
            match field_outcome(cells[HSK_CELL as int], Some(0u32)) {
                FieldOutcome::Fatal => RowOutcome::Fatal(ScrapeError::BadHskLevel),
                FieldOutcome::Skip => RowOutcome::Skip,
                FieldOutcome::Value(hsk) => if cells.len() <= STANDARD_CELL {
                    RowOutcome::Skip
                } else {
                    match field_outcome(cells[STANDARD_CELL as int], None) {
                        FieldOutcome::Fatal => RowOutcome::Fatal(ScrapeError::BadStandardIndex),
                        FieldOutcome::Skip => RowOutcome::Skip,
                        FieldOutcome::Value(gs) => if cells.len() <= FREQUENCY_CELL {
                            RowOutcome::Skip
                        } else {
                            match field_outcome(cells[FREQUENCY_CELL as int], Some(0u32)) {
                                FieldOutcome::Fatal => RowOutcome::Fatal(
                                    ScrapeError::BadFrequencyRank,
                                ),
                                FieldOutcome::Skip => RowOutcome::Skip,
                                FieldOutcome::Value(freq) => RowOutcome::Fields(
                                    RowFields {
                                        hanzi: h,
                                        hsk_level: hsk,
                                        standard_index: gs,
                                        frequency_rank: freq,
                                    },
                                ),
                            }
                        },
                    }
                },
            }
        },
    }
}

/// Reads a numeric cell; `blank` is the value of a cell without text, `None`
/// where such a cell skips the row.
pub fn read_field(cell: &Cell, blank: Option<u32>) -> (r: FieldOutcome)
    ensures
        r == field_outcome(*cell, blank),
{
    match &cell.text {
        None => match blank {
            Some(v) => FieldOutcome::Value(v),
            None => FieldOutcome::Skip,
        },
        Some(t) => match parse_u32(t.as_str()) {
            Some(v) => FieldOutcome::Value(v),
            None => FieldOutcome::Fatal,
        },
    }
}

/// Reads one table row. The ledger is consulted as soon as the character is
/// known, so that a repeated character costs no further reading.
pub fn parse_row(cells: &Vec<Cell>, ledger: &Ledger) -> (r: RowOutcome)
    ensures
        r == row_outcome(cells@, ledger@),
{
    if cells.len() <= HANZI_CELL {
        return RowOutcome::Skip;
    }
    let hanzi = match &cells[HANZI_CELL].link {
        Some(Some(h)) => h.clone(),
        _ => {
            return RowOutcome::Skip;
        },
    };
    if ledger.contains(&hanzi) || cells.len() <= HSK_CELL {
        return RowOutcome::Skip;
    }
    let hsk_level = match read_field(&cells[HSK_CELL], Some(0)) {
        FieldOutcome::Fatal => {
            return RowOutcome::Fatal(ScrapeError::BadHskLevel);
        },
        FieldOutcome::Skip => {
            return RowOutcome::Skip;
        },
        FieldOutcome::Value(v) => v,
    };
    if cells.len() <= STANDARD_CELL {
        return RowOutcome::Skip;
    }
    let standard_index = match read_field(&cells[STANDARD_CELL], None) {
        FieldOutcome::Fatal => {
            return RowOutcome::Fatal(ScrapeError::BadStandardIndex);
        },
        FieldOutcome::Skip => {
            return RowOutcome::Skip;
        },
        FieldOutcome::Value(v) => v,
    };
    if cells.len() <= FREQUENCY_CELL {
        return RowOutcome::Skip;
    }
    let frequency_rank = match read_field(&cells[FREQUENCY_CELL], Some(0)) {
        FieldOutcome::Fatal => {
            return RowOutcome::Fatal(ScrapeError::BadFrequencyRank);
        },
        FieldOutcome::Skip => {
            return RowOutcome::Skip;
        },
        FieldOutcome::Value(v) => v,
    };
    RowOutcome::Fields(RowFields { hanzi, hsk_level, standard_index, frequency_rank })
}

} // verus!
