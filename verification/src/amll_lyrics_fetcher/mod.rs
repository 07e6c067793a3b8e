//! The index of the AMLL lyric database: searching it, and what a fetched file
//! is said to be.

pub mod amll_fetcher;
pub mod types;

pub use types::{AmllIndexEntry, AmllSearchField, FetchedAmllTtmlLyrics};
