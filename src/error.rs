//! The fatal errors of a crawl.
use vstd::prelude::*;

verus! {

/// What stops a crawl. Rows that are merely skipped are no error.
#[derive(Clone, Copy, Debug, PartialEq, Eq, Structural)]
pub enum ScrapeError {
    /// The command line did not hold exactly one output path.
    WrongArgumentCount,
    /// A tag selector could not be compiled.
    SelectorParse,
    /// A page could not be fetched below the end-of-pages threshold.
    FetchFailed,
    /// The HSK level cell held text that is not a number.
    BadHskLevel,
    /// The standard index cell held text that is not a number.
    BadStandardIndex,
    /// The frequency rank cell held text that is not a number.
    BadFrequencyRank,
    /// No pronunciation is known for the character.
    NoReadings,
}

} // verus!
