//! Error kinds of the crawl engine.

use vstd::prelude::*;
use vstd::string::StringExecFns;

verus! {

/// What can go wrong while handling a crawl request. Transport and URL
/// failures carry the underlying message as text.
#[derive(Debug)]
pub enum CrawlerError {
    /// The HTTP transport failed for a page fetch.
    RequestError(String),
    /// A URL could not be parsed.
    UrlError(String),
    /// An internal selection pattern was malformed.
    SelectorError(String),
    /// A time budget ran out in the middle of keyword scanning.
    TimeoutError,
    /// A date bound or a required date string could not be parsed.
    DateParsingError(String),
    /// Anything else, e.g. a request without one valid URL.
    Other(String),
}

/// The user-facing message of each error kind.
pub open spec fn spec_message(e: CrawlerError) -> Seq<char> {
    match e {
        CrawlerError::RequestError(m) => "Request error: "@ + m@,
        CrawlerError::UrlError(m) => "Invalid URL: "@ + m@,
        CrawlerError::SelectorError(m) => "Selector error: "@ + m@,
        CrawlerError::TimeoutError => "Timeout error: Crawling exceeded the time limit"@,
        CrawlerError::DateParsingError(m) => "Date parsing error: "@ + m@,
        CrawlerError::Other(m) => "Other error: "@ + m@,
    }
}

impl CrawlerError {
    /// Renders the error as one line of text.
    pub fn message(&self) -> (r: String)
        ensures
            r@ == spec_message(*self),
    {
        match self {
            CrawlerError::RequestError(m) => {
                let mut s = "Request error: ".to_owned();
                s.append(m.as_str());
                s
            },
            CrawlerError::UrlError(m) => {
                let mut s = "Invalid URL: ".to_owned();
                s.append(m.as_str());
                s
            },
            CrawlerError::SelectorError(m) => {
                let mut s = "Selector error: ".to_owned();
                s.append(m.as_str());
                s
            },
            CrawlerError::TimeoutError => "Timeout error: Crawling exceeded the time limit".to_owned(),
            CrawlerError::DateParsingError(m) => {
                let mut s = "Date parsing error: ".to_owned();
                s.append(m.as_str());
                s
            },
            CrawlerError::Other(m) => {
                let mut s = "Other error: ".to_owned();
                s.append(m.as_str());
                s
            },
        }
    }
}

} // verus!
