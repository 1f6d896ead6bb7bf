//! Extraction and enrichment of Chinese character rows taken from a paged
//! character-list website, with the decisions of the crawl that fetches them.
pub mod crawl;
pub mod error;
pub mod laws;
pub mod ledger;
pub mod number;
pub mod page;
pub mod record;
pub mod row;
