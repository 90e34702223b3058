use crawlcore::errors::CrawlerError;
use crawlcore::score::{calculate_relevance_score, keyword_match};
use crawlcore::urls::parse_urls;

#[test]
fn score_is_zero_without_occurrences() {
    assert_eq!(calculate_relevance_score("widget", "nothing relevant"), 0);
    assert_eq!(calculate_relevance_score("", "anything"), 0);
}

#[test]
fn score_has_exact_value_for_a_known_context() {
    // One occurrence in 70 characters, starting at the front: density part
    // is 700*1/70 = 10, plus the early bonus 3.
    let ctx = "widget".to_string() + &" ".repeat(64);
    assert_eq!(ctx.chars().count(), 70);
    assert_eq!(calculate_relevance_score("widget", &ctx), 13);
}

#[test]
fn score_is_capped_at_100() {
    assert_eq!(calculate_relevance_score("aa", "aaaa"), 100);
}

#[test]
fn score_never_drops_when_occurrences_double() {
    // An otherwise-identical context with twice the occurrences: same
    // length, the first occurrence no later.
    let once = "widget ".to_string() + &"x".repeat(93);
    let twice = "widget widget ".to_string() + &"x".repeat(86);
    assert_eq!(once.chars().count(), twice.chars().count());
    let s1 = calculate_relevance_score("widget", &once);
    let s2 = calculate_relevance_score("widget", &twice);
    assert!(s2 >= s1, "doubling occurrences lowered the score: {} -> {}", s1, s2);
}

#[test]
fn score_is_case_insensitive() {
    assert_eq!(
        calculate_relevance_score("Widget", "a WIDGET appears"),
        calculate_relevance_score("widget", "a widget appears")
    );
}

#[test]
fn keyword_match_counts_and_windows() {
    let content: Vec<char> = "a widget and another Widget end".chars().collect();
    let url = String::from("https://s.test/");
    let m = keyword_match(&String::from("widget"), &content, &url).unwrap();
    assert_eq!(m.count, 2);
    assert_eq!(m.keyword, "widget");
    assert_eq!(m.source_url, "https://s.test/");
    assert!(m.relevance_score <= 100);
    // The whole content is shorter than one window, so both windows hold it.
    assert_eq!(m.context, format!("{} ... {}", "a widget and another Widget end", "a widget and another Widget end"));
    assert_eq!(m.cleaned_text, m.context);
}

#[test]
fn keyword_match_is_none_when_absent() {
    let content: Vec<char> = "nothing to see".chars().collect();
    let url = String::from("https://s.test/");
    assert!(keyword_match(&String::from("widget"), &content, &url).is_none());
    assert!(keyword_match(&String::from(""), &content, &url).is_none());
}

#[test]
fn keyword_match_clamps_windows_to_fifty_characters() {
    let padding = "x".repeat(80);
    let text = format!("{}widget{}", padding, padding);
    let content: Vec<char> = text.chars().collect();
    let url = String::from("https://s.test/");
    let m = keyword_match(&String::from("widget"), &content, &url).unwrap();
    assert_eq!(m.count, 1);
    // 50 characters each side of the 6-character keyword.
    assert_eq!(m.context.chars().count(), 106);
    let expected = format!("{}widget{}", "x".repeat(50), "x".repeat(50));
    assert_eq!(m.context, expected);
}

#[test]
fn parse_urls_prepares_and_validates_entries() {
    let entries = parse_urls("example.com, https://foo.bar").unwrap();
    let urls: Vec<&str> = entries.iter().map(|e| e.url.as_str()).collect();
    assert_eq!(urls, vec!["https://example.com", "https://foo.bar"]);
    assert!(entries.iter().all(|e| e.valid));
}

#[test]
fn parse_urls_skips_empty_pieces_and_strips_backticks() {
    let entries = parse_urls(" `example.com` ,, ,https://a.test ").unwrap();
    let urls: Vec<&str> = entries.iter().map(|e| e.url.as_str()).collect();
    assert_eq!(urls, vec!["https://example.com", "https://a.test"]);
}

#[test]
fn parse_urls_keeps_explicit_http_scheme() {
    let entries = parse_urls("http://plain.test").unwrap();
    assert_eq!(entries[0].url, "http://plain.test");
    assert!(entries[0].valid);
}

#[test]
fn parse_urls_fails_only_without_any_valid_url() {
    match parse_urls("not a url, ,") {
        Err(CrawlerError::Other(_)) => {}
        other => panic!("expected the catch-all error, got {:?}", other),
    }
    match parse_urls("") {
        Err(CrawlerError::Other(_)) => {}
        other => panic!("expected the catch-all error, got {:?}", other),
    }
    // One bad entry beside a good one is kept, marked invalid.
    let entries = parse_urls("good.test, not a url").unwrap();
    assert_eq!(entries.len(), 2);
    assert!(entries[0].valid);
    assert!(!entries[1].valid);
}

#[test]
fn error_messages_carry_their_kind() {
    assert_eq!(
        CrawlerError::TimeoutError.message(),
        "Timeout error: Crawling exceeded the time limit"
    );
    assert_eq!(
        CrawlerError::RequestError(String::from("refused")).message(),
        "Request error: refused"
    );
    assert_eq!(
        CrawlerError::Other(String::from("No valid URLs provided")).message(),
        "Other error: No valid URLs provided"
    );
    assert_eq!(
        CrawlerError::UrlError(String::from("https://x y")).message(),
        "Invalid URL: https://x y"
    );
    assert_eq!(
        CrawlerError::DateParsingError(String::from("bad")).message(),
        "Date parsing error: bad"
    );
    assert_eq!(
        CrawlerError::SelectorError(String::from("bad pattern")).message(),
        "Selector error: bad pattern"
    );
}
