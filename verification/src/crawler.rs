//! The crawl engine: the per-domain fetch/extract/filter/match/paginate loop
//! under page and time budgets, and the orchestrator that runs it per
//! requested URL and aggregates the results.
//!
//! Fetching and clocks come through the `Fetcher` capability. What a crawl
//! produces from whatever was fetched is pinned exactly: a ghost log of the
//! fetched pages describes the result's content, title, matches and
//! pagination trail (see `log_describes_result` and `log_describes_timeout`),
//! and `domain_result_described` packages the whole per-domain contract,
//! which the orchestrator passes on for every valid URL entry.

use vstd::prelude::*;
use crate::dates::{
    Date, date_of_triple, date_triple, matches_date_filter, opt_str_view, spec_matches_filter,
    spec_parsed_bound, spec_range_err_msg, spec_range_valid, validate_date_range, views_of,
};
use crate::errors::{CrawlerError, spec_message};
use crate::extract::{
    clean_html_text, extract_page_dates, extract_title, find_next_page_url, os, spec_clean,
    spec_extract_dates, spec_extract_title, spec_next_url,
};
use crate::score::{
    count_occurrences, keyword_match, keyword_match_partial, km_view, KeywordMatch, KeywordMatchV,
    lemma_page_matches_split, spec_keyword_match_partial, spec_page_matches_from,
    spec_page_matches_upto,
};
use crate::text::{chars_of, push_all, string_of, u64_to_string};
use crate::urls::{parse_urls, spec_entries, url_parses, UrlEntry};

verus! {

/// One crawl request: the comma-separated target URLs, the keywords to look
/// for, and the optional budgets and date bounds. `max_depth` is accepted
/// but not enforced beyond the page and time budgets.
#[derive(Debug)]
pub struct CrawlRequest {
    pub url: String,
    pub keywords: Vec<String>,
    pub max_depth: Option<usize>,
    pub max_time_seconds: Option<u64>,
    pub follow_pagination: Option<bool>,
    pub max_pages: Option<usize>,
    pub date_from: Option<String>,
    pub date_to: Option<String>,
}

/// Bookkeeping attached to one domain's result.
#[derive(Debug)]
pub struct CrawlMetadata {
    pub crawl_timestamp: String,
    pub total_processing_time_ms: u64,
    pub content_summary: Option<String>,
    pub last_modified: Option<String>,
    pub published_date: Option<String>,
}

/// What crawling one domain yields: accumulated title, content and matches,
/// the page count, whether more pages were left, and an error message when
/// the domain failed or its scan was cut short.
#[derive(Debug)]
pub struct DomainResult {
    pub url: String,
    pub title: Option<String>,
    pub content: String,
    pub matches: Vec<KeywordMatch>,
    pub pages_crawled: usize,
    pub has_more_pages: bool,
    pub metadata: Option<CrawlMetadata>,
    pub error: Option<String>,
}

/// The aggregate over all requested URLs.
#[derive(Debug)]
pub struct CrawlResult {
    pub results: Vec<DomainResult>,
    pub total_pages_crawled: usize,
    pub total_processing_time_ms: u64,
    pub crawl_timestamp: String,
}

/// What the crawl engine needs from its surroundings: page fetching and
/// clocks. Implementations live outside the library — an HTTP client in the
/// application, a scripted site in tests.
pub trait Fetcher {
    /// GETs one URL, yielding the body text or a transport error message.
    fn fetch(&mut self, url: &str) -> Result<String, String>;

    /// A monotonic-ish clock in milliseconds, for time budgets.
    fn now_ms(&mut self) -> u64;

    /// Seconds since the Unix epoch, for result timestamps.
    fn unix_seconds(&mut self) -> u64;
}

/// The page budget of a request: ten pages when none is given.
pub open spec fn spec_page_cap(req: CrawlRequest) -> int {
    match req.max_pages {
        Some(m) => m as int,
        None => 10,
    }
}

fn page_cap(req: &CrawlRequest) -> (r: usize)
    ensures
        r as int == spec_page_cap(*req),
{
    match req.max_pages {
        Some(m) => m,
        None => 10,
    }
}

/// Whether the request asks for pagination to be followed (off by default).
pub open spec fn spec_follow(req: CrawlRequest) -> bool {
    match req.follow_pagination {
        Some(b) => b,
        None => false,
    }
}

fn follow_pagination(req: &CrawlRequest) -> (r: bool)
    ensures
        r == spec_follow(*req),
{
    match req.follow_pagination {
        Some(b) => b,
        None => false,
    }
}

/// The marker between the cleaned texts of consecutive pages.
pub open spec fn page_sep() -> Seq<char> {
    "\n\n--- Next Page ---\n\n"@
}

/// A well-formed keyword match: at least one occurrence, score within range.
pub open spec fn km_wf(m: KeywordMatch) -> bool {
    m.count > 0 && m.relevance_score <= 100
}

/// The text sits among the views of the vector's strings.
pub open spec fn in_vis(vis: Seq<String>, u: Seq<char>) -> bool {
    exists|i: int| 0 <= i < vis.len() && (#[trigger] vis[i])@ == u
}

fn contains_string(v: &Vec<String>, s: &String) -> (r: bool)
    ensures
        r == in_vis(v@, s@),
{
    let mut i: usize = 0;
    while i < v.len()
        invariant
            i <= v@.len(),
            forall|k: int| 0 <= k < i ==> (#[trigger] v@[k])@ != s@,
        decreases v@.len() - i,
    {
        if v[i].eq(s) {
            return true;
        }
        i += 1;
    }
    false
}

// ---------------------------------------------------------------------------
// the ghost crawl log
// ---------------------------------------------------------------------------

/// One fetched page: its body and the URL it was fetched from.
pub ghost struct PageLog {
    pub body: Seq<char>,
    pub url: Seq<char>,
}

/// The date strings a page offers to the filter: its extracted last-modified
/// and published values, the present ones in that order.
pub open spec fn date_candidates(d: (Option<Seq<char>>, Option<Seq<char>>)) -> Seq<Seq<char>> {
    (match d.0 {
        Some(v) => seq![v],
        None => Seq::empty(),
    }) + (match d.1 {
        Some(v) => seq![v],
        None => Seq::empty(),
    })
}

/// Whether a page passes the date filter.
pub open spec fn page_included(body: Seq<char>, from: Option<Date>, to: Option<Date>) -> bool {
    spec_matches_filter(date_candidates(spec_extract_dates(body)), from, to)
}

/// The accumulated content of a crawl log: the cleaned text of each included
/// page, in crawl order, joined by the page marker.
pub open spec fn spec_log_content(log: Seq<PageLog>, from: Option<Date>, to: Option<Date>) -> Seq<
    char,
>
    decreases log.len(),
{
    if log.len() == 0 {
        Seq::empty()
    } else {
        let rest = spec_log_content(log.drop_last(), from, to);
        if !page_included(log.last().body, from, to) {
            rest
        } else if rest.len() == 0 {
            spec_clean(log.last().body)
        } else {
            rest + page_sep() + spec_clean(log.last().body)
        }
    }
}

/// The accumulated matches of a crawl log: for each included page in crawl
/// order, one match per keyword that occurs in its cleaned text, in request
/// order.
pub open spec fn spec_log_matches(
    log: Seq<PageLog>,
    keywords: Seq<Seq<char>>,
    from: Option<Date>,
    to: Option<Date>,
) -> Seq<crate::score::KeywordMatchV>
    decreases log.len(),
{
    if log.len() == 0 {
        Seq::empty()
    } else {
        spec_log_matches(log.drop_last(), keywords, from, to) + (if page_included(
            log.last().body,
            from,
            to,
        ) {
            spec_page_matches_from(keywords, 0, spec_clean(log.last().body), log.last().url)
        } else {
            Seq::empty()
        })
    }
}

/// The title a crawl log yields: from the first included page whose text
/// offers one; later pages never overwrite it.
pub open spec fn spec_log_title(log: Seq<PageLog>, from: Option<Date>, to: Option<Date>) -> Option<
    Seq<char>,
>
    decreases log.len(),
{
    if log.len() == 0 {
        None
    } else {
        match spec_log_title(log.drop_last(), from, to) {
            Some(t) => Some(t),
            None => if page_included(log.last().body, from, to) {
                spec_extract_title(log.last().body)
            } else {
                None
            },
        }
    }
}

/// A coherent pagination trail from a seed: the first page is the seed, each
/// later page is the resolved next link of the page before it, and no URL
/// appears twice.
pub open spec fn log_wf(log: Seq<PageLog>, seed: Seq<char>) -> bool {
    &&& (log.len() > 0 ==> log[0].url == seed)
    &&& (forall|k: int|
        0 <= k < log.len() - 1 ==> Some((#[trigger] log[k + 1]).url) == spec_next_url(
            log[k].body,
            log[k].url,
        ))
    &&& (forall|i: int, j: int|
        #![trigger log[i].url, log[j].url]
        0 <= i < j < log.len() ==> log[i].url != log[j].url)
}

/// How a crawl log determines a domain result: a coherent trail from the
/// seed, one log entry per counted page, content, matches and title exactly
/// the log's, metadata carrying the last page's extracted dates and the
/// title as summary — and, when pagination ran without a time budget and
/// nothing was left pending, the last page's next link is absent or leads
/// back into the trail.
pub open spec fn log_describes_result(
    log: Seq<PageLog>,
    r: DomainResult,
    req: CrawlRequest,
    from: Option<Date>,
    to: Option<Date>,
    seed: Seq<char>,
) -> bool {
    &&& log_wf(log, seed)
    &&& log.len() == r.pages_crawled
    &&& r.content@ == spec_log_content(log, from, to)
    &&& r.matches@.map_values(|m: KeywordMatch| km_view(m)) == spec_log_matches(
        log,
        views_of(req.keywords@),
        from,
        to,
    )
    &&& os(r.title) == spec_log_title(log, from, to)
    &&& (r.metadata matches Some(md) ==> {
        &&& os(md.last_modified) == (if log.len() == 0 {
            None::<Seq<char>>
        } else {
            spec_extract_dates(log.last().body).0
        })
        &&& os(md.published_date) == (if log.len() == 0 {
            None::<Seq<char>>
        } else {
            spec_extract_dates(log.last().body).1
        })
        &&& os(md.content_summary) == os(r.title)
    })
    &&& (spec_follow(req) && !r.has_more_pages && log.len() > 0
        ==> match spec_next_url(log.last().body, log.last().url) {
        None => true,
        Some(u) => exists|k: int| 0 <= k < log.len() && (#[trigger] log[k]).url == u,
    })
}

/// A transport failure's rendering.
pub open spec fn is_request_error_message(m: Seq<char>) -> bool {
    exists|t: Seq<char>| m == "Request error: "@ + t
}

/// How a crawl log describes a result whose keyword scan was cut short by
/// the time budget: a coherent trail whose last page passed the filter,
/// content and title exactly the log's, and the matches exactly the earlier
/// pages' matches, the last page's matches for the keywords before the
/// interrupted one, and at most the one truncated partial match.
pub open spec fn log_describes_timeout(
    log: Seq<PageLog>,
    kk: int,
    pm: Seq<KeywordMatchV>,
    r: DomainResult,
    req: CrawlRequest,
    from: Option<Date>,
    to: Option<Date>,
    seed: Seq<char>,
) -> bool {
    let kws = views_of(req.keywords@);
    &&& log_wf(log, seed)
    &&& log.len() == r.pages_crawled
    &&& log.len() > 0
    &&& page_included(log.last().body, from, to)
    &&& r.content@ == spec_log_content(log, from, to)
    &&& os(r.title) == spec_log_title(log, from, to)
    &&& 0 <= kk < kws.len()
    &&& r.matches@.map_values(|m: KeywordMatch| km_view(m)) == spec_log_matches(
        log.drop_last(),
        kws,
        from,
        to,
    ) + spec_page_matches_upto(kws, kk, spec_clean(log.last().body), log.last().url) + pm
    &&& (pm.len() == 0 || (pm.len() == 1 && exists|done: int|
        #[trigger] spec_keyword_match_partial(
            kws[kk],
            spec_clean(log.last().body),
            log.last().url,
        done) == Some(pm[0])))
}

/// Everything `crawl_domain` promises of its result, for the given request,
/// parsed date bounds and seed URL.
pub open spec fn domain_result_described(
    r: DomainResult,
    req: CrawlRequest,
    from: Option<Date>,
    to: Option<Date>,
    seed: Seq<char>,
) -> bool {
    &&& r.url@ == seed
    &&& r.pages_crawled as int <= spec_page_cap(req)
    &&& (!spec_follow(req) ==> r.pages_crawled <= 1)
    &&& (spec_page_cap(req) == 0 ==> r.pages_crawled == 0 && r.has_more_pages)
    &&& (!spec_follow(req) && spec_page_cap(req) >= 1 && req.max_time_seconds is None
        ==> !r.has_more_pages)
    &&& (req.max_time_seconds is None && r.error is None && r.has_more_pages
        ==> r.pages_crawled as int == spec_page_cap(req))
    &&& (req.max_time_seconds is None && r.error is None && spec_page_cap(req) >= 1
        ==> r.pages_crawled >= 1)
    &&& (r.error is None && r.pages_crawled == 0 && spec_page_cap(req) >= 1
        ==> r.has_more_pages)
    &&& (forall|k: int| 0 <= k < r.matches@.len() ==> km_wf(#[trigger] r.matches@[k]))
    &&& (r.error is None ==> r.metadata is Some)
    &&& (r.error matches Some(m) ==> (m@ == spec_message(CrawlerError::TimeoutError)
        && r.has_more_pages && r.metadata is Some && req.max_time_seconds is Some) || (
    r.matches@.len() == 0 && r.content@.len() == 0 && r.pages_crawled == 0 && r.title is None
        && r.metadata is None && is_request_error_message(m@)))
    &&& (r.error is None ==> exists|log: Seq<PageLog>|
        #[trigger] log_describes_result(log, r, req, from, to, seed))
    &&& (r.error is Some && r.metadata is Some ==> exists|log: Seq<PageLog>, kk: int, pm: Seq<
        KeywordMatchV,
    >| #[trigger] log_describes_timeout(log, kk, pm, r, req, from, to, seed))
}

// ---------------------------------------------------------------------------
// one domain
// ---------------------------------------------------------------------------

/// Crawls one domain from its seed URL: fetch, extract dates and title,
/// date-check, match keywords, paginate — under the page budget (checked
/// before each fetch) and the optional time budget (checked before each
/// fetch and between the occurrences of each keyword scan), with
/// visited-set loop prevention.
///
/// A transport failure aborts the domain with a bare error result. A time
/// budget hit mid-scan appends the partial match found so far for the
/// interrupted keyword, its context marked as cut short, then ends the
/// domain with the timeout message and `has_more_pages` set. A page that
/// fails the date filter still counts toward the page budget but contributes
/// no content or matches.
#[verifier::rlimit(100)]
pub fn crawl_domain<F: Fetcher>(
    f: &mut F,
    url: &String,
    req: &CrawlRequest,
    date_from: &Option<Date>,
    date_to: &Option<Date>,
) -> (r: DomainResult)
    ensures
        domain_result_described(r, *req, *date_from, *date_to, url@),
{
    let ghost kv = views_of(req.keywords@);
    let ghost fromv = *date_from;
    let ghost tov = *date_to;
    let cap = page_cap(req);
    let follow = follow_pagination(req);
    let has_time_budget = req.max_time_seconds.is_some();
    let start = f.now_ms();
    let budget_ms: u64 = match req.max_time_seconds {
        Some(s) => if s > u64::MAX / 1000 {
            u64::MAX
        } else {
            s * 1000
        },
        None => 0,
    };
    let mut visited: Vec<String> = Vec::new();
    let mut current: String = url.clone();
    visited.push(url.clone());
    proof {
        assert(visited@[0]@ == current@);
        assert(in_vis(visited@, current@));
    }
    let mut pages: usize = 0;
    let mut has_more = false;
    let mut timed_out = false;
    let mut title: Option<String> = None;
    let mut content_chars: Vec<char> = Vec::new();
    let mut matches: Vec<KeywordMatch> = Vec::new();
    let mut last_modified: Option<String> = None;
    let mut published: Option<String> = None;
    let ghost mut glog: Seq<PageLog> = Seq::empty();
    let ghost mut kk_cut: int = 0;
    let ghost mut pm_cut: Seq<KeywordMatchV> = Seq::empty();
    let ghost mut done_cut: int = 0;
    loop
        invariant_except_break
            !follow ==> pages == 0,
            !timed_out,
            !has_more,
            glog.len() == 0 ==> current@ == url@,
            glog.len() > 0 ==> Some(current@) == spec_next_url(glog.last().body, glog.last().url),
            forall|k: int| 0 <= k < glog.len() ==> (#[trigger] glog[k]).url != current@,
            in_vis(visited@, current@),
        invariant
            cap as int == spec_page_cap(*req),
            follow == spec_follow(*req),
            has_time_budget == (req.max_time_seconds is Some),
            kv == views_of(req.keywords@),
            fromv == *date_from,
            tov == *date_to,
            pages <= cap,
            pages == glog.len(),
            forall|k: int| 0 <= k < matches@.len() ==> km_wf(#[trigger] matches@[k]),
            log_wf(glog, url@),
            content_chars@ == spec_log_content(glog, fromv, tov),
            !timed_out ==> matches@.map_values(|m: KeywordMatch| km_view(m)) == spec_log_matches(
                glog,
                kv,
                fromv,
                tov,
            ),
            os(title) == spec_log_title(glog, fromv, tov),
            os(last_modified) == (if glog.len() == 0 {
                None::<Seq<char>>
            } else {
                spec_extract_dates(glog.last().body).0
            }),
            os(published) == (if glog.len() == 0 {
                None::<Seq<char>>
            } else {
                spec_extract_dates(glog.last().body).1
            }),
            forall|k: int| 0 <= k < glog.len() ==> in_vis(visited@, (#[trigger] glog[k]).url),
            forall|i: int|
                0 <= i < visited@.len() ==> ((#[trigger] visited@[i])@ == current@ || exists|k: int|
                    0 <= k < glog.len() && (#[trigger] glog[k]).url == visited@[i]@),
        ensures
            pages <= cap,
            pages == glog.len(),
            log_wf(glog, url@),
            !follow ==> pages <= 1,
            cap == 0 ==> pages == 0 && has_more,
            timed_out ==> has_more && has_time_budget,
            !has_time_budget && !timed_out && has_more ==> pages == cap,
            !follow && cap >= 1 && !has_time_budget ==> !has_more,
            !has_time_budget && !timed_out && cap >= 1 ==> pages >= 1,
            !timed_out && pages == 0 && cap >= 1 ==> has_more,
            forall|k: int| 0 <= k < matches@.len() ==> km_wf(#[trigger] matches@[k]),
            content_chars@ == spec_log_content(glog, fromv, tov),
            !timed_out ==> matches@.map_values(|m: KeywordMatch| km_view(m)) == spec_log_matches(
                glog,
                kv,
                fromv,
                tov,
            ),
            os(title) == spec_log_title(glog, fromv, tov),
            os(last_modified) == (if glog.len() == 0 {
                None::<Seq<char>>
            } else {
                spec_extract_dates(glog.last().body).0
            }),
            os(published) == (if glog.len() == 0 {
                None::<Seq<char>>
            } else {
                spec_extract_dates(glog.last().body).1
            }),
            follow && !has_more && glog.len() > 0 ==> match spec_next_url(
                glog.last().body,
                glog.last().url,
            ) {
                None => true,
                Some(u) => exists|k: int| 0 <= k < glog.len() && (#[trigger] glog[k]).url == u,
            },
            timed_out ==> {
                &&& glog.len() > 0
                &&& page_included(glog.last().body, fromv, tov)
                &&& 0 <= kk_cut < kv.len()
                &&& matches@.map_values(|m: KeywordMatch| km_view(m)) == spec_log_matches(
                    glog.drop_last(),
                    kv,
                    fromv,
                    tov,
                ) + spec_page_matches_upto(
                    kv,
                    kk_cut,
                    spec_clean(glog.last().body),
                    glog.last().url,
                ) + pm_cut
                &&& (pm_cut.len() == 0 || (pm_cut.len() == 1 && spec_keyword_match_partial(
                    kv[kk_cut],
                    spec_clean(glog.last().body),
                    glog.last().url,
                    done_cut,
                ) == Some(pm_cut[0])))
            },
        decreases cap - pages,
    {
        if pages >= cap {
            has_more = true;
            break ;
        }
        if has_time_budget {
            let now = f.now_ms();
            if now >= start && now - start > budget_ms {
                has_more = true;
                break ;
            }
        }
        match f.fetch(current.as_str()) {
            Err(e) => {
                let msg = CrawlerError::RequestError(e).message();
                let dr = DomainResult {
                    url: url.clone(),
                    title: None,
                    content: String::new(),
                    matches: Vec::new(),
                    pages_crawled: 0,
                    has_more_pages: false,
                    metadata: None,
                    error: Some(msg),
                };
                proof {
                    assert(dr.error matches Some(m) && is_request_error_message(m@));
                    assert(domain_result_described(dr, *req, *date_from, *date_to, url@));
                }
                return dr;
            },
            Ok(body) => {
                let ghost entry = PageLog { body: body@, url: current@ };
                let dates = extract_page_dates(body.as_str());
                let mut cand: Vec<String> = Vec::new();
                match &dates.0 {
                    Some(x) => cand.push(x.clone()),
                    None => {},
                }
                match &dates.1 {
                    Some(x) => cand.push(x.clone()),
                    None => {},
                }
                proof {
                    assert(views_of(cand@) =~= date_candidates(spec_extract_dates(body@)));
                }
                let included = matches_date_filter(&cand, date_from, date_to);
                proof {
                    assert(included == page_included(body@, fromv, tov));
                }
                last_modified = dates.0;
                published = dates.1;
                if included {
                    if title.is_none() {
                        title = extract_title(body.as_str());
                    }
                    proof {
                        assert(os(title) == match spec_log_title(glog, fromv, tov) {
                            Some(t) => Some(t),
                            None => spec_extract_title(body@),
                        });
                    }
                    let cleaned = clean_html_text(body.as_str());
                    let cleaned_chars = chars_of(cleaned.as_str());
                    let ghost content0 = content_chars@;
                    if content_chars.len() > 0 {
                        let sep = chars_of("\n\n--- Next Page ---\n\n");
                        push_all(&mut content_chars, &sep);
                    }
                    push_all(&mut content_chars, &cleaned_chars);
                    let mut ki: usize = 0;
                    while ki < req.keywords.len()
                        invariant_except_break
                            !timed_out,
                            matches@.map_values(|m: KeywordMatch| km_view(m)) == spec_log_matches(
                                glog,
                                kv,
                                fromv,
                                tov,
                            ) + spec_page_matches_upto(
                                kv,
                                ki as int,
                                spec_clean(body@),
                                current@,
                            ),
                        invariant
                            ki <= req.keywords@.len(),
                            kv == views_of(req.keywords@),
                            kv.len() == req.keywords@.len(),
                            cleaned_chars@ == spec_clean(body@),
                            has_time_budget == (req.max_time_seconds is Some),
                            forall|k: int|
                                0 <= k < matches@.len() ==> km_wf(#[trigger] matches@[k]),
                        ensures
                            forall|k: int|
                                0 <= k < matches@.len() ==> km_wf(#[trigger] matches@[k]),
                            !timed_out ==> matches@.map_values(|m: KeywordMatch| km_view(m))
                                == spec_log_matches(glog, kv, fromv, tov)
                                + spec_page_matches_upto(
                                kv,
                                kv.len() as int,
                                spec_clean(body@),
                                current@,
                            ),
                            timed_out ==> {
                                &&& has_time_budget
                                &&& 0 <= kk_cut < kv.len()
                                &&& matches@.map_values(|m: KeywordMatch| km_view(m))
                                    == spec_log_matches(glog, kv, fromv, tov)
                                    + spec_page_matches_upto(
                                    kv,
                                    kk_cut,
                                    spec_clean(body@),
                                    current@,
                                ) + pm_cut
                                &&& (pm_cut.len() == 0 || (pm_cut.len() == 1
                                    && spec_keyword_match_partial(
                                    kv[kk_cut],
                                    spec_clean(body@),
                                    current@,
                                    done_cut,
                                ) == Some(pm_cut[0])))
                            },
                        decreases req.keywords@.len() - ki,
                    {
                        proof {
                            assert(kv[ki as int] == req.keywords@[ki as int]@);
                        }
                        if has_time_budget {
                            let total = count_occurrences(&req.keywords[ki], &cleaned_chars);
                            let mut done: usize = 0;
                            let mut cut = false;
                            while done < total
                                invariant
                                    done <= total,
                                decreases total - done,
                            {
                                let now2 = f.now_ms();
                                if now2 >= start && now2 - start > budget_ms {
                                    cut = true;
                                    break ;
                                }
                                done += 1;
                            }
                            if cut {
                                let ghost taken0 = matches@.map_values(
                                    |m: KeywordMatch| km_view(m),
                                );
                                match keyword_match_partial(
                                    &req.keywords[ki],
                                    &cleaned_chars,
                                    &current,
                                    done,
                                ) {
                                    Some(m) => {
                                        proof {
                                            pm_cut = seq![km_view(m)];
                                            done_cut = done as int;
                                        }
                                        matches.push(m);
                                        proof {
                                            assert(matches@.map_values(
                                                |x: KeywordMatch| km_view(x),
                                            ) =~= taken0.push(km_view(m)));
                                            assert(taken0.push(km_view(m)) =~= taken0 + pm_cut);
                                        }
                                    },
                                    None => {
                                        proof {
                                            pm_cut = Seq::empty();
                                            done_cut = done as int;
                                            assert(taken0 + pm_cut =~= taken0);
                                        }
                                    },
                                }
                                proof {
                                    kk_cut = ki as int;
                                }
                                timed_out = true;
                                break ;
                            }
                        }
                        let ghost taken = matches@.map_values(|m: KeywordMatch| km_view(m));
                        match keyword_match(&req.keywords[ki], &cleaned_chars, &current) {
                            Some(m) => {
                                proof {
                                    assert(spec_page_matches_upto(
                                        kv,
                                        ki + 1,
                                        spec_clean(body@),
                                        current@,
                                    ) == spec_page_matches_upto(
                                        kv,
                                        ki as int,
                                        spec_clean(body@),
                                        current@,
                                    ) + seq![km_view(m)]);
                                }
                                matches.push(m);
                                proof {
                                    assert(matches@.map_values(|x: KeywordMatch| km_view(x))
                                        =~= taken.push(km_view(m)));
                                    assert(taken.push(km_view(m)) =~= taken + seq![km_view(m)]);
                                    assert((spec_log_matches(glog, kv, fromv, tov)
                                        + spec_page_matches_upto(
                                        kv,
                                        ki as int,
                                        spec_clean(body@),
                                        current@,
                                    )) + seq![km_view(m)] =~= spec_log_matches(glog, kv, fromv, tov)
                                        + (spec_page_matches_upto(
                                        kv,
                                        ki as int,
                                        spec_clean(body@),
                                        current@,
                                    ) + seq![km_view(m)]));
                                }
                            },
                            None => {
                                proof {
                                    assert(spec_page_matches_upto(
                                        kv,
                                        ki + 1,
                                        spec_clean(body@),
                                        current@,
                                    ) == spec_page_matches_upto(
                                        kv,
                                        ki as int,
                                        spec_clean(body@),
                                        current@,
                                    ) + Seq::<KeywordMatchV>::empty());
                                    assert(spec_page_matches_upto(
                                        kv,
                                        ki as int,
                                        spec_clean(body@),
                                        current@,
                                    ) + Seq::<KeywordMatchV>::empty()
                                        =~= spec_page_matches_upto(
                                        kv,
                                        ki as int,
                                        spec_clean(body@),
                                        current@,
                                    ));
                                }
                            },
                        }
                        ki += 1;
                    }
                    proof {
                        if !timed_out {
                            lemma_page_matches_split(
                                kv,
                                kv.len() as int,
                                spec_clean(body@),
                                current@,
                            );
                            assert(spec_page_matches_from(
                                kv,
                                kv.len() as int,
                                spec_clean(body@),
                                current@,
                            ) =~= Seq::<KeywordMatchV>::empty());
                            assert(spec_page_matches_upto(
                                kv,
                                kv.len() as int,
                                spec_clean(body@),
                                current@,
                            ) + Seq::<KeywordMatchV>::empty() =~= spec_page_matches_upto(
                                kv,
                                kv.len() as int,
                                spec_clean(body@),
                                current@,
                            ));
                            assert(matches@.map_values(|m: KeywordMatch| km_view(m))
                                == spec_log_matches(glog, kv, fromv, tov)
                                + spec_page_matches_from(kv, 0, spec_clean(body@), current@));
                        }
                        assert(content0.len() == 0 ==> content_chars@ =~= spec_clean(body@));
                        assert(content0.len() > 0 ==> content_chars@ =~= content0 + page_sep()
                            + spec_clean(body@));
                    }
                }
                pages += 1;
                proof {
                    let glog2 = glog.push(entry);
                    assert(glog2.drop_last() =~= glog);
                    assert(glog2.last() == entry);
                    assert(forall|k: int| 0 <= k < glog.len() ==> #[trigger] glog2[k] == glog[k]);
                    assert(log_wf(glog2, url@)) by {
                        if glog.len() == 0 {
                            assert(glog2[0] == entry);
                        }
                        assert forall|i: int, j: int|
                            #![trigger glog2[i].url, glog2[j].url]
                            0 <= i < j < glog2.len() implies glog2[i].url != glog2[j].url by {
                            if j < glog.len() {
                                assert(glog2[i] == glog[i] && glog2[j] == glog[j]);
                            } else {
                                assert(glog2[i] == glog[i]);
                                assert(glog[i].url != current@);
                            }
                        }
                        assert forall|k: int|
                            0 <= k < glog2.len() - 1 implies Some((#[trigger] glog2[k + 1]).url)
                            == spec_next_url(glog2[k].body, glog2[k].url) by {
                            if k < glog.len() - 1 {
                                assert(glog2[k] == glog[k]);
                                assert(glog2[k + 1] == glog[k + 1]);
                            } else {
                                assert(glog2[k] == glog.last());
                                assert(glog2[k + 1] == entry);
                            }
                        }
                    };
                    assert(in_vis(visited@, entry.url));
                    assert forall|k: int| 0 <= k < glog2.len() implies in_vis(
                        visited@,
                        (#[trigger] glog2[k]).url,
                    ) by {
                        if k < glog.len() {
                            assert(glog2[k] == glog[k]);
                            assert(in_vis(visited@, glog[k].url));
                        } else {
                            assert(glog2[k] == entry);
                        }
                    }
                    assert(spec_log_content(glog2, fromv, tov) == content_chars@);
                    assert(spec_log_title(glog2, fromv, tov) == os(title));
                    if !timed_out {
                        if included {
                            assert(spec_log_matches(glog2, kv, fromv, tov)
                                == matches@.map_values(|m: KeywordMatch| km_view(m)));
                        } else {
                            assert(spec_log_matches(glog2, kv, fromv, tov)
                                =~= spec_log_matches(glog, kv, fromv, tov));
                        }
                    }
                    glog = glog2;
                }
                if timed_out {
                    has_more = true;
                    break ;
                }
                if !follow {
                    break ;
                }
                match find_next_page_url(body.as_str(), current.as_str()) {
                    None => {
                        proof {
                            assert(glog.last() == entry);
                            assert(spec_next_url(glog.last().body, glog.last().url) is None);
                        }
                        break ;
                    },
                    Some(nu) => {
                        if contains_string(&visited, &nu) {
                            proof {
                                assert(glog.last() == entry);
                                assert(spec_next_url(glog.last().body, glog.last().url) == Some(
                                    nu@,
                                ));
                                let iw = choose|i: int|
                                    0 <= i < visited@.len() && (#[trigger] visited@[i])@ == nu@;
                                if visited@[iw]@ == entry.url {
                                    assert(glog[glog.len() - 1].url == nu@);
                                }
                                assert(exists|k: int|
                                    0 <= k < glog.len() && (#[trigger] glog[k]).url == nu@);
                            }
                            break ;
                        }
                        let ghost vis0 = visited@;
                        visited.push(nu.clone());
                        current = nu;
                        proof {
                            assert(visited@.len() == vis0.len() + 1);
                            assert(visited@[vis0.len() as int]@ == current@);
                            assert(forall|i: int|
                                0 <= i < vis0.len() ==> #[trigger] visited@[i] == vis0[i]);
                            assert(in_vis(visited@, current@));
                            assert(glog.last() == entry);
                            assert(Some(current@) == spec_next_url(
                                glog.last().body,
                                glog.last().url,
                            ));
                            assert forall|k: int| 0 <= k < glog.len() implies in_vis(
                                vis0,
                                (#[trigger] glog[k]).url,
                            ) by {
                                if k == glog.len() - 1 {
                                    assert(glog[k].url == entry.url);
                                }
                            }
                            assert forall|k: int| 0 <= k < glog.len() implies (
                            #[trigger] glog[k]).url != current@ by {
                                assert(in_vis(vis0, glog[k].url));
                                let iw = choose|i: int|
                                    0 <= i < vis0.len() && (#[trigger] vis0[i])@ == glog[k].url;
                                assert(vis0[iw]@ != nu@);
                            }
                            assert forall|k: int| 0 <= k < glog.len() implies in_vis(
                                visited@,
                                (#[trigger] glog[k]).url,
                            ) by {
                                assert(in_vis(vis0, glog[k].url));
                                let iw = choose|i: int|
                                    0 <= i < vis0.len() && (#[trigger] vis0[i])@ == glog[k].url;
                                assert(visited@[iw]@ == glog[k].url);
                            }
                            assert forall|i2: int| 0 <= i2 < visited@.len() implies ((
                            #[trigger] visited@[i2])@ == current@ || exists|k: int|
                                0 <= k < glog.len() && (#[trigger] glog[k]).url
                                    == visited@[i2]@) by {
                                if i2 < vis0.len() {
                                    if vis0[i2]@ == entry.url {
                                        assert(glog[glog.len() - 1].url == entry.url);
                                    }
                                }
                            }
                        }
                    },
                }
            },
        }
    }
    let ts = f.unix_seconds();
    let now_end = f.now_ms();
    let elapsed = if now_end >= start {
        now_end - start
    } else {
        0
    };
    let content = string_of(&content_chars);
    let summary: Option<String> = match &title {
        Some(t) => Some(t.clone()),
        None => None,
    };
    let metadata = CrawlMetadata {
        crawl_timestamp: u64_to_string(ts),
        total_processing_time_ms: elapsed,
        content_summary: summary,
        last_modified,
        published_date: published,
    };
    let error: Option<String> = if timed_out {
        Some(CrawlerError::TimeoutError.message())
    } else {
        None
    };
    let r = DomainResult {
        url: url.clone(),
        title,
        content,
        matches,
        pages_crawled: pages,
        has_more_pages: has_more,
        metadata: Some(metadata),
        error,
    };
    proof {
        if !timed_out {
            assert(log_describes_result(glog, r, *req, *date_from, *date_to, url@));
        } else {
            assert(log_describes_timeout(glog, kk_cut, pm_cut, r, *req, *date_from, *date_to, url@));
        }
        assert(domain_result_described(r, *req, *date_from, *date_to, url@));
    }
    r
}

// ---------------------------------------------------------------------------
// the orchestrator
// ---------------------------------------------------------------------------

/// Sum of the pages crawled over a run's results.
pub open spec fn spec_pages_sum(rs: Seq<DomainResult>) -> int
    decreases rs.len(),
{
    if rs.len() == 0 {
        0
    } else {
        spec_pages_sum(rs.drop_last()) + rs.last().pages_crawled as int
    }
}

/// A domain result that only reports a failure: no pages, no content.
pub open spec fn error_only(r: DomainResult) -> bool {
    &&& r.error is Some
    &&& r.matches@.len() == 0
    &&& r.content@.len() == 0
    &&& r.pages_crawled == 0
    &&& r.title is None
    &&& r.metadata is None
}

/// The placeholder an unparseable URL entry gets: an error-only result
/// carrying the entry and its rejection message.
pub open spec fn invalid_entry_result(r: DomainResult, entry: Seq<char>) -> bool {
    &&& error_only(r)
    &&& r.url@ == entry
    &&& (r.error matches Some(m) && m@ == "Invalid URL: "@ + entry)
}

/// Runs a whole crawl request: validates the date range once (request-fatal
/// when invalid, before anything else), splits the URL field (request-fatal
/// only when no entry is a valid URL), crawls each valid entry in order — a
/// failing domain never aborts its siblings — records an error result for
/// each invalid entry, and aggregates the page total and timing.
pub fn crawl_website<F: Fetcher>(f: &mut F, request: &CrawlRequest) -> (r: Result<
    CrawlResult,
    CrawlerError,
>)
    ensures
        r is Err <==> (!spec_range_valid(os(request.date_from), os(request.date_to)) || (forall|
            k: int,
        |
            0 <= k < spec_entries(request.url@, 0).len() ==> !url_parses(
                #[trigger] spec_entries(request.url@, 0)[k],
            ))),
        r matches Err(e) ==> ({
            ||| (e matches CrawlerError::DateParsingError(m) && !spec_range_valid(
                os(request.date_from),
                os(request.date_to),
            ) && m@ == spec_range_err_msg(os(request.date_from), os(request.date_to)))
            ||| (e matches CrawlerError::Other(m) && spec_range_valid(
                os(request.date_from),
                os(request.date_to),
            ) && m@ == "No valid URLs provided"@)
        }),
        r matches Ok(cr) ==> {
            let es = spec_entries(request.url@, 0);
            &&& spec_range_valid(os(request.date_from), os(request.date_to))
            &&& exists|k: int| 0 <= k < es.len() && url_parses(#[trigger] es[k])
            &&& cr.results@.len() == es.len()
            &&& forall|k: int| 0 <= k < es.len() ==> (#[trigger] cr.results@[k]).url@ == es[k]
            &&& forall|k: int|
                0 <= k < es.len() ==> !url_parses(es[k]) ==> invalid_entry_result(
                    #[trigger] cr.results@[k],
                    es[k],
                )
            &&& forall|k: int|
                0 <= k < es.len() ==> (#[trigger] cr.results@[k]).pages_crawled as int
                    <= spec_page_cap(*request)
            &&& forall|k: int|
                0 <= k < es.len() ==> url_parses(es[k]) ==> domain_result_described(
                    #[trigger] cr.results@[k],
                    *request,
                    spec_parsed_bound(os(request.date_from)),
                    spec_parsed_bound(os(request.date_to)),
                    es[k],
                )
            &&& cr.total_pages_crawled as int == (if spec_pages_sum(cr.results@) <= usize::MAX
                as int {
                spec_pages_sum(cr.results@)
            } else {
                usize::MAX as int
            })
        },
{
    let start = f.now_ms();
    let df_ref: Option<&String> = match &request.date_from {
        Some(s) => Some(s),
        None => None,
    };
    let dt_ref: Option<&String> = match &request.date_to {
        Some(s) => Some(s),
        None => None,
    };
    let bounds = match validate_date_range(df_ref, dt_ref) {
        Ok(p) => p,
        Err(e) => {
            return Err(e);
        },
    };
    let date_from = bounds.0;
    let date_to = bounds.1;
    proof {
        assert(opt_str_view(df_ref) == os(request.date_from));
        assert(opt_str_view(dt_ref) == os(request.date_to));
        assert(date_from == spec_parsed_bound(opt_str_view(df_ref))) by {
            match df_ref {
                Some(s) => {
                    assert(date_from matches Some(d) && spec_parsed_bound(Some(s@)) == Some(
                        date_of_triple(date_triple(d)),
                    ) && date_of_triple(date_triple(d)) == d);
                },
                None => {},
            }
        };
        assert(date_to == spec_parsed_bound(opt_str_view(dt_ref))) by {
            match dt_ref {
                Some(s) => {
                    assert(date_to matches Some(d) && spec_parsed_bound(Some(s@)) == Some(
                        date_of_triple(date_triple(d)),
                    ) && date_of_triple(date_triple(d)) == d);
                },
                None => {},
            }
        };
    }
    let entries: Vec<UrlEntry> = match parse_urls(request.url.as_str()) {
        Ok(v) => v,
        Err(e) => {
            return Err(e);
        },
    };
    let ghost es = spec_entries(request.url@, 0);
    let mut results: Vec<DomainResult> = Vec::new();
    let mut total: usize = 0;
    let mut i: usize = 0;
    while i < entries.len()
        invariant
            i <= entries@.len(),
            entries@.len() == es.len(),
            es == spec_entries(request.url@, 0),
            forall|k: int|
                0 <= k < es.len() ==> (#[trigger] entries@[k]).url@ == es[k] && entries@[k].valid
                    == url_parses(es[k]),
            results@.len() == i,
            forall|k: int| 0 <= k < i ==> (#[trigger] results@[k]).url@ == es[k],
            forall|k: int|
                0 <= k < i ==> !url_parses(es[k]) ==> invalid_entry_result(
                    #[trigger] results@[k],
                    es[k],
                ),
            forall|k: int|
                0 <= k < i ==> (#[trigger] results@[k]).pages_crawled as int <= spec_page_cap(
                    *request,
                ),
            date_from == spec_parsed_bound(os(request.date_from)),
            date_to == spec_parsed_bound(os(request.date_to)),
            forall|k: int|
                0 <= k < i ==> url_parses(es[k]) ==> domain_result_described(
                    #[trigger] results@[k],
                    *request,
                    date_from,
                    date_to,
                    es[k],
                ),
            total as int == (if spec_pages_sum(results@) <= usize::MAX as int {
                spec_pages_sum(results@)
            } else {
                usize::MAX as int
            }),
        decreases entries@.len() - i,
    {
        let ghost results0 = results@;
        let valid = entries[i].valid;
        if valid {
            let seed = entries[i].url.clone();
            proof {
                assert(seed@ == es[i as int]);
            }
            let dr = crawl_domain(f, &seed, request, &date_from, &date_to);
            proof {
                assert(domain_result_described(dr, *request, date_from, date_to, es[i as int]));
            }
            let p = dr.pages_crawled;
            results.push(dr);
            total = if total > usize::MAX - p {
                usize::MAX
            } else {
                total + p
            };
            proof {
                assert(results@.drop_last() =~= results0);
            }
        } else {
            let err_res = DomainResult {
                url: entries[i].url.clone(),
                title: None,
                content: String::new(),
                matches: Vec::new(),
                pages_crawled: 0,
                has_more_pages: false,
                metadata: None,
                error: Some(CrawlerError::UrlError(entries[i].url.clone()).message()),
            };
            results.push(err_res);
            proof {
                assert(results@.drop_last() =~= results0);
            }
        }
        i += 1;
    }
    let ts = f.unix_seconds();
    let now_end = f.now_ms();
    let elapsed = if now_end >= start {
        now_end - start
    } else {
        0
    };
    Ok(
        CrawlResult {
            results,
            total_pages_crawled: total,
            total_processing_time_ms: elapsed,
            crawl_timestamp: u64_to_string(ts),
        },
    )
}

} // verus!
