use crawlcore::crawler::{crawl_domain, crawl_website, CrawlRequest, Fetcher};
use crawlcore::errors::CrawlerError;

/// A scripted site: each known URL maps to a fixed page body; everything
/// else is a transport error. The clock ticks one millisecond per call.
struct ScriptedSite {
    pages: Vec<(String, String)>,
    fetched: Vec<String>,
    clock_ms: u64,
}

impl ScriptedSite {
    fn new(pages: &[(&str, &str)]) -> Self {
        ScriptedSite {
            pages: pages
                .iter()
                .map(|(u, b)| (u.to_string(), b.to_string()))
                .collect(),
            fetched: Vec::new(),
            clock_ms: 0,
        }
    }
}

impl Fetcher for ScriptedSite {
    fn fetch(&mut self, url: &str) -> Result<String, String> {
        self.fetched.push(url.to_string());
        for (u, b) in &self.pages {
            if u == url {
                return Ok(b.clone());
            }
        }
        Err(format!("connection refused: {}", url))
    }

    fn now_ms(&mut self) -> u64 {
        self.clock_ms += 1;
        self.clock_ms
    }

    fn unix_seconds(&mut self) -> u64 {
        1717200000
    }
}

fn request(url: &str, keywords: &[&str]) -> CrawlRequest {
    CrawlRequest {
        url: url.to_string(),
        keywords: keywords.iter().map(|k| k.to_string()).collect(),
        max_depth: None,
        max_time_seconds: None,
        follow_pagination: None,
        max_pages: None,
        date_from: None,
        date_to: None,
    }
}

#[test]
fn single_page_request_counts_keyword_occurrences() {
    let body = "<html><head><title>A Test</title></head><body><p>A widget is here, and a widget is there.</p></body></html>";
    let mut site = ScriptedSite::new(&[("https://a.test", body)]);
    let mut req = request("a.test", &["widget"]);
    req.max_pages = Some(1);
    let result = crawl_website(&mut site, &req).unwrap();
    assert_eq!(result.results.len(), 1);
    let dr = &result.results[0];
    assert_eq!(dr.url, "https://a.test");
    assert_eq!(dr.pages_crawled, 1);
    assert!(!dr.has_more_pages);
    assert!(dr.error.is_none());
    assert_eq!(dr.title.as_deref(), Some("A Test"));
    assert_eq!(dr.matches.len(), 1);
    assert_eq!(dr.matches[0].keyword, "widget");
    assert_eq!(dr.matches[0].count, 2);
    assert_eq!(dr.matches[0].source_url, "https://a.test");
    assert_eq!(result.total_pages_crawled, 1);
    assert_eq!(result.crawl_timestamp, "1717200000");
}

#[test]
fn malformed_sibling_url_is_isolated() {
    let body = "<html><body><p>widget</p></body></html>";
    let mut site = ScriptedSite::new(&[("https://a.test", body)]);
    let req = request("a.test, not a url!!", &["widget"]);
    let result = crawl_website(&mut site, &req).unwrap();
    assert_eq!(result.results.len(), 2);
    let good = &result.results[0];
    assert!(good.error.is_none());
    assert_eq!(good.pages_crawled, 1);
    let bad = &result.results[1];
    assert!(bad.error.is_some());
    assert_eq!(bad.pages_crawled, 0);
    assert_eq!(bad.content, "");
    assert!(bad.matches.is_empty());
    assert_eq!(result.total_pages_crawled, good.pages_crawled);
}

#[test]
fn pagination_cycle_stops_at_visited_url() {
    let page_a = "<p>alpha</p><a rel=\"next\" href=\"https://c.test/b\">Next</a>";
    let page_b = "<p>beta</p><a rel=\"next\" href=\"https://c.test/a\">Next</a>";
    let mut site = ScriptedSite::new(&[("https://c.test/a", page_a), ("https://c.test/b", page_b)]);
    let mut req = request("c.test/a", &["alpha"]);
    req.follow_pagination = Some(true);
    let result = crawl_website(&mut site, &req).unwrap();
    let dr = &result.results[0];
    assert_eq!(dr.pages_crawled, 2);
    assert!(!dr.has_more_pages, "no budget was hit, only the cycle");
    assert_eq!(site.fetched, vec!["https://c.test/a", "https://c.test/b"]);
}

#[test]
fn page_budget_caps_the_crawl_and_flags_more_pages() {
    let mk = |n: u32| {
        format!(
            "<p>item</p><a rel=\"next\" href=\"https://d.test/{}\">Next</a>",
            n + 1
        )
    };
    let p1 = mk(1);
    let p2 = mk(2);
    let p3 = mk(3);
    let p4 = mk(4);
    let mut site = ScriptedSite::new(&[
        ("https://d.test/1", p1.as_str()),
        ("https://d.test/2", p2.as_str()),
        ("https://d.test/3", p3.as_str()),
        ("https://d.test/4", p4.as_str()),
    ]);
    let mut req = request("d.test/1", &["item"]);
    req.follow_pagination = Some(true);
    req.max_pages = Some(3);
    let result = crawl_website(&mut site, &req).unwrap();
    let dr = &result.results[0];
    assert_eq!(dr.pages_crawled, 3);
    assert!(dr.has_more_pages, "the cap was hit with a next page pending");
    assert_eq!(result.total_pages_crawled, 3);
}

#[test]
fn zero_page_budget_fetches_nothing() {
    let mut site = ScriptedSite::new(&[]);
    let mut req = request("e.test", &["x"]);
    req.max_pages = Some(0);
    let result = crawl_website(&mut site, &req).unwrap();
    let dr = &result.results[0];
    assert_eq!(dr.pages_crawled, 0);
    assert!(dr.has_more_pages);
    assert!(site.fetched.is_empty());
}

#[test]
fn fetch_failure_yields_a_bare_error_result() {
    let mut site = ScriptedSite::new(&[]);
    let req = request("down.test", &["x"]);
    let result = crawl_website(&mut site, &req).unwrap();
    let dr = &result.results[0];
    assert!(dr.error.as_deref().unwrap().starts_with("Request error:"));
    assert_eq!(dr.pages_crawled, 0);
    assert_eq!(dr.content, "");
    assert!(dr.matches.is_empty());
    assert!(dr.title.is_none());
    assert_eq!(result.total_pages_crawled, 0);
}

#[test]
fn fetch_failure_mid_pagination_drops_the_domain() {
    let p1 = "<p>one</p><a rel=\"next\" href=\"https://f.test/2\">Next</a>";
    let mut site = ScriptedSite::new(&[("https://f.test/1", p1)]);
    let mut req = request("f.test/1", &["one"]);
    req.follow_pagination = Some(true);
    let result = crawl_website(&mut site, &req).unwrap();
    let dr = &result.results[0];
    assert!(dr.error.is_some());
    assert_eq!(dr.pages_crawled, 0);
    assert!(dr.matches.is_empty());
}

#[test]
fn date_filter_skips_pages_but_counts_them() {
    let old_page = "<meta name=\"date\" content=\"2020-01-01\"><p>widget here</p><a rel=\"next\" href=\"https://g.test/2\">Next</a>";
    let new_page = "<meta name=\"date\" content=\"2024-06-01\"><p>widget there</p>";
    let mut site =
        ScriptedSite::new(&[("https://g.test/1", old_page), ("https://g.test/2", new_page)]);
    let mut req = request("g.test/1", &["widget"]);
    req.follow_pagination = Some(true);
    req.date_from = Some("2024-01-01".to_string());
    req.date_to = Some("2024-12-31".to_string());
    let result = crawl_website(&mut site, &req).unwrap();
    let dr = &result.results[0];
    assert_eq!(dr.pages_crawled, 2, "the filtered page still counts");
    assert_eq!(dr.matches.len(), 1, "only the in-range page is matched");
    assert_eq!(dr.matches[0].source_url, "https://g.test/2");
    assert!(!dr.content.contains("widget here"));
    assert!(dr.content.contains("widget there"));
}

#[test]
fn invalid_date_range_fails_the_whole_request() {
    let mut site = ScriptedSite::new(&[]);
    let mut req = request("a.test", &["x"]);
    req.date_from = Some("2024-12-31".to_string());
    req.date_to = Some("2024-01-01".to_string());
    match crawl_website(&mut site, &req) {
        Err(CrawlerError::DateParsingError(_)) => {}
        other => panic!("expected a date parsing error, got {:?}", other),
    }
    assert!(site.fetched.is_empty(), "no network activity before validation");
}

#[test]
fn request_without_valid_urls_fails_with_other() {
    let mut site = ScriptedSite::new(&[]);
    let req = request("not a url, ,", &["x"]);
    match crawl_website(&mut site, &req) {
        Err(CrawlerError::Other(_)) => {}
        other => panic!("expected the catch-all error, got {:?}", other),
    }
}

#[test]
fn pagination_off_stops_after_one_page() {
    let p1 = "<p>one</p><a rel=\"next\" href=\"https://h.test/2\">Next</a>";
    let p2 = "<p>two</p>";
    let mut site = ScriptedSite::new(&[("https://h.test/1", p1), ("https://h.test/2", p2)]);
    let req = request("h.test/1", &["one"]);
    let result = crawl_website(&mut site, &req).unwrap();
    let dr = &result.results[0];
    assert_eq!(dr.pages_crawled, 1);
    assert!(!dr.has_more_pages);
    assert_eq!(site.fetched.len(), 1);
}

#[test]
fn content_of_pages_is_joined_with_the_marker() {
    let p1 = "<p>first page text</p><a rel=\"next\" href=\"https://i.test/2\">Next</a>";
    let p2 = "<p>second page text</p>";
    let mut site = ScriptedSite::new(&[("https://i.test/1", p1), ("https://i.test/2", p2)]);
    let mut req = request("i.test/1", &["text"]);
    req.follow_pagination = Some(true);
    let result = crawl_website(&mut site, &req).unwrap();
    let dr = &result.results[0];
    assert!(dr.content.contains("first page text"));
    assert!(dr.content.contains("--- Next Page ---"));
    assert!(dr.content.contains("second page text"));
    assert_eq!(dr.content.matches("--- Next Page ---").count(), 1);
}

#[test]
fn title_comes_from_the_first_page_that_has_one() {
    let p1 = "<p>no title here</p><a rel=\"next\" href=\"https://n.test/2\">Next</a>";
    let p2 = "<title>Late Title</title><a rel=\"next\" href=\"https://n.test/3\">Next</a>";
    let p3 = "<title>Other</title><p>end</p>";
    let mut site = ScriptedSite::new(&[
        ("https://n.test/1", p1),
        ("https://n.test/2", p2),
        ("https://n.test/3", p3),
    ]);
    let mut req = request("n.test/1", &["end"]);
    req.follow_pagination = Some(true);
    let result = crawl_website(&mut site, &req).unwrap();
    let dr = &result.results[0];
    assert_eq!(dr.pages_crawled, 3);
    assert_eq!(dr.title.as_deref(), Some("Late Title"), "first title wins, later pages never overwrite");
    let md = dr.metadata.as_ref().unwrap();
    assert_eq!(md.content_summary.as_deref(), Some("Late Title"));
}

#[test]
fn time_budget_ends_the_domain_with_a_timeout() {
    // The scripted clock advances 1 ms per reading, so a zero-second budget
    // is exceeded at the first check after the fetch.
    let body = "<p>widget</p>";
    let mut site = ScriptedSite::new(&[("https://j.test", body)]);
    let mut req = request("j.test", &["widget"]);
    req.max_time_seconds = Some(0);
    req.follow_pagination = Some(true);
    let result = crawl_website(&mut site, &req).unwrap();
    let dr = &result.results[0];
    assert!(dr.has_more_pages);
    assert!(
        dr.error.as_deref() == Some("Timeout error: Crawling exceeded the time limit")
            || dr.pages_crawled == 0
    );
}

#[test]
fn metadata_carries_timestamp_and_last_dates() {
    let body = "<html><head><title>T</title><meta name=\"last-modified\" content=\"2024-04-04\"></head><body>hello</body></html>";
    let mut site = ScriptedSite::new(&[("https://k.test", body)]);
    let req = request("k.test", &["hello"]);
    let result = crawl_website(&mut site, &req).unwrap();
    let md = result.results[0].metadata.as_ref().unwrap();
    assert_eq!(md.crawl_timestamp, "1717200000");
    assert_eq!(md.last_modified.as_deref(), Some("2024-04-04"));
    assert!(md.published_date.is_none());
    assert_eq!(md.content_summary.as_deref(), Some("T"));
}

#[test]
fn crawl_domain_reports_its_seed_url() {
    let mut site = ScriptedSite::new(&[("https://m.test", "<p>hi</p>")]);
    let req = request("m.test", &["hi"]);
    let dr = crawl_domain(
        &mut site,
        &"https://m.test".to_string(),
        &req,
        &None,
        &None,
    );
    assert_eq!(dr.url, "https://m.test");
    assert_eq!(dr.pages_crawled, 1);
    assert_eq!(dr.matches.len(), 1);
}

#[test]
fn mid_scan_timeout_keeps_a_truncated_partial_match() {
    // The scripted clock ticks 1 ms per reading and the budget is one
    // second, so the budget check between occurrences trips after about a
    // thousand of the 1500 occurrences.
    let body = format!("<p>{}</p>", "w ".repeat(1500));
    let mut site = ScriptedSite::new(&[("https://t.test", body.as_str())]);
    let mut req = request("t.test", &["w"]);
    req.max_time_seconds = Some(1);
    let result = crawl_website(&mut site, &req).unwrap();
    let dr = &result.results[0];
    assert_eq!(dr.pages_crawled, 1);
    assert!(dr.has_more_pages);
    assert_eq!(
        dr.error.as_deref(),
        Some("Timeout error: Crawling exceeded the time limit")
    );
    assert_eq!(dr.matches.len(), 1, "the partial match is preserved");
    let m = &dr.matches[0];
    assert!(m.count > 0 && m.count < 1500, "count reflects the cut: {}", m.count);
    assert!(m.context.ends_with(" ... [scan cut short by the time budget]"));
    assert!(!dr.content.is_empty(), "the page's content was already kept");
}

#[test]
fn invalid_range_outranks_invalid_urls() {
    let mut site = ScriptedSite::new(&[]);
    let mut req = request("not a url", &["x"]);
    req.date_from = Some("2025-01-01".to_string());
    req.date_to = Some("2024-01-01".to_string());
    match crawl_website(&mut site, &req) {
        Err(CrawlerError::DateParsingError(m)) => {
            assert_eq!(m, "date_from cannot be after date_to");
        }
        other => panic!("expected the date error first, got {:?}", other),
    }
}
