use crawlcore::extract::{clean_html_text, extract_page_dates, extract_title, find_next_page_url};

#[test]
fn meta_dates_are_categorised() {
    let html = "<html><head><meta property=\"article:published_time\" content=\"2024-03-01\"><meta property=\"article:modified_time\" content=\"2024-04-01\"></head><body></body></html>";
    let (lm, pd) = extract_page_dates(html);
    assert_eq!(lm.as_deref(), Some("2024-04-01"));
    assert_eq!(pd.as_deref(), Some("2024-03-01"));
}

#[test]
fn first_meta_hit_wins_per_category() {
    let html = "<meta name=\"date\" content=\"2024-01-01\"><meta property=\"article:published_time\" content=\"2024-02-02\">";
    let (_, pd) = extract_page_dates(html);
    assert_eq!(pd.as_deref(), Some("2024-01-01"));
}

#[test]
fn time_element_is_a_published_fallback() {
    let html = "<body><time datetime=\"2024-05-05\">May</time></body>";
    let (lm, pd) = extract_page_dates(html);
    assert!(lm.is_none());
    assert_eq!(pd.as_deref(), Some("2024-05-05"));
}

#[test]
fn meta_published_beats_time_element() {
    let html = "<meta name=\"publish-date\" content=\"2024-01-01\"><time datetime=\"2024-05-05\">May</time>";
    let (_, pd) = extract_page_dates(html);
    assert_eq!(pd.as_deref(), Some("2024-01-01"));
}

#[test]
fn page_without_dates_yields_nothing() {
    let (lm, pd) = extract_page_dates("<html><body><p>plain</p></body></html>");
    assert!(lm.is_none());
    assert!(pd.is_none());
}

#[test]
fn title_is_extracted_and_trimmed() {
    let html = "<html><head><title>  My Page </title></head></html>";
    assert_eq!(extract_title(html).as_deref(), Some("My Page"));
    assert!(extract_title("<html><body>no title</body></html>").is_none());
}

#[test]
fn clean_text_strips_markup_and_blank_lines() {
    let cleaned = clean_html_text("<html><body><p>Hello</p><p>World</p></body></html>");
    assert_eq!(cleaned, "Hello\nWorld");
}

#[test]
fn clean_text_of_empty_page_is_empty() {
    assert_eq!(clean_html_text(""), "");
}

#[test]
fn next_url_follows_rel_next() {
    let html = "<a href=\"https://s.test/2\" rel=\"next\">more</a>";
    let r = find_next_page_url(html, "https://s.test/1");
    assert_eq!(r.as_deref(), Some("https://s.test/2"));
}

#[test]
fn next_url_resolves_relative_hrefs() {
    let html = "<a rel=\"next\" href=\"/page2\">more</a>";
    let r = find_next_page_url(html, "https://s.test/page1");
    assert_eq!(r.as_deref(), Some("https://s.test/page2"));
}

#[test]
fn next_url_falls_back_to_next_class_and_text() {
    let by_class = "<a class=\"next-link\" href=\"https://s.test/9\">go</a>";
    assert_eq!(
        find_next_page_url(by_class, "https://s.test/").as_deref(),
        Some("https://s.test/9")
    );
    let by_text = "<a href=\"https://s.test/9\">Next page</a>";
    assert_eq!(
        find_next_page_url(by_text, "https://s.test/").as_deref(),
        Some("https://s.test/9")
    );
}

#[test]
fn next_url_prefers_rel_over_text() {
    let html = "<a href=\"https://s.test/wrong\">Next</a><a href=\"https://s.test/right\" rel=\"next\">follow</a>";
    assert_eq!(
        find_next_page_url(html, "https://s.test/").as_deref(),
        Some("https://s.test/right")
    );
}

#[test]
fn next_url_takes_last_pagination_anchor() {
    let html = "<a class=\"pagination\" href=\"https://s.test/1\">1</a><a class=\"pagination\" href=\"https://s.test/2\">2</a>";
    assert_eq!(
        find_next_page_url(html, "https://s.test/").as_deref(),
        Some("https://s.test/2")
    );
}

#[test]
fn page_without_links_has_no_next_url() {
    assert!(find_next_page_url("<p>nothing here</p>", "https://s.test/").is_none());
    let unrelated = "<a href=\"https://s.test/about\">About us</a>";
    assert!(find_next_page_url(unrelated, "https://s.test/").is_none());
}
