//! Core of a keyword-focused web crawler: date-bound filtering, page
//! extraction, keyword scoring, and a budgeted pagination loop per domain.
//!
//! Fetching pages is the caller's job: the crawl loop asks a `Fetcher`
//! (see `crawler`) for each page body and decides everything else itself,
//! so the decision logic is verified end to end.

pub mod crawler;
pub mod dates;
pub mod errors;
pub mod extract;
pub mod models;
pub mod score;
pub mod text;
pub mod urls;
