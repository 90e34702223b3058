use crawlcore::dates::{matches_date_filter, parse_date, parse_date_string, validate_date_range, Date};
use crawlcore::errors::CrawlerError;

fn d(year: i32, month: u8, day: u8) -> Date {
    Date { year, month, day }
}

#[test]
fn parse_date_string_accepts_iso_bounds() {
    let r = parse_date_string("2024-01-31").unwrap();
    assert_eq!(r, d(2024, 1, 31));
}

#[test]
fn parse_date_string_rejects_other_shapes() {
    assert!(parse_date_string("2024/01/31").is_err());
    assert!(parse_date_string("31-01-2024").is_err());
    assert!(parse_date_string("2024-02-30").is_err());
    assert!(parse_date_string("nonsense").is_err());
    match parse_date_string("nonsense") {
        Err(CrawlerError::DateParsingError(_)) => {}
        other => panic!("expected a date parsing error, got {:?}", other),
    }
}

#[test]
fn parse_date_tries_formats_in_priority_order() {
    assert_eq!(parse_date("2024-06-01"), Some(d(2024, 6, 1)));
    assert_eq!(parse_date("2024/06/01"), Some(d(2024, 6, 1)));
    assert_eq!(parse_date("06/01/2024"), Some(d(2024, 6, 1)));
    assert_eq!(parse_date("2024-06-01T10:30:00Z"), Some(d(2024, 6, 1)));
    assert_eq!(parse_date("not a date"), None);
}

#[test]
fn parse_date_rfc3339_takes_the_utc_day() {
    // 01:00 +0200 is 23:00 UTC of the previous day.
    assert_eq!(parse_date("2024-06-01T01:00:00+02:00"), Some(d(2024, 5, 31)));
}

#[test]
fn validate_range_accepts_ordered_bounds() {
    let from = String::from("2024-01-01");
    let to = String::from("2024-12-31");
    let (f, t) = validate_date_range(Some(&from), Some(&to)).unwrap();
    assert_eq!(f, Some(d(2024, 1, 1)));
    assert_eq!(t, Some(d(2024, 12, 31)));
}

#[test]
fn validate_range_accepts_equal_bounds_and_absent_bounds() {
    let day = String::from("2024-06-15");
    let (f, t) = validate_date_range(Some(&day), Some(&day)).unwrap();
    assert_eq!(f, t);
    let (f, t) = validate_date_range(None, None).unwrap();
    assert!(f.is_none() && t.is_none());
    let (f, t) = validate_date_range(Some(&day), None).unwrap();
    assert!(f.is_some() && t.is_none());
}

#[test]
fn validate_range_rejects_from_after_to() {
    let from = String::from("2024-12-31");
    let to = String::from("2024-01-01");
    match validate_date_range(Some(&from), Some(&to)) {
        Err(CrawlerError::DateParsingError(_)) => {}
        other => panic!("expected a date parsing error, got {:?}", other),
    }
}

#[test]
fn validate_range_rejects_bad_bound_text() {
    let bad = String::from("junk");
    assert!(validate_date_range(Some(&bad), None).is_err());
}

#[test]
fn filter_accepts_date_within_range() {
    let dates = vec![String::from("2024-06-01")];
    let from = Some(d(2024, 1, 1));
    let to = Some(d(2024, 12, 31));
    assert!(matches_date_filter(&dates, &from, &to));
}

#[test]
fn filter_rejects_date_outside_range() {
    let dates = vec![String::from("2023-06-01")];
    let from = Some(d(2024, 1, 1));
    let to = Some(d(2024, 12, 31));
    assert!(!matches_date_filter(&dates, &from, &to));
}

#[test]
fn filter_keeps_page_without_parseable_dates() {
    let dates = vec![String::from("no date here")];
    let from = Some(d(2024, 1, 1));
    let to = Some(d(2024, 12, 31));
    assert!(matches_date_filter(&dates, &from, &to));
    let empty: Vec<String> = Vec::new();
    assert!(matches_date_filter(&empty, &from, &to));
}

#[test]
fn filter_without_bounds_accepts_everything() {
    let dates = vec![String::from("1900-01-01")];
    assert!(matches_date_filter(&dates, &None, &None));
}

#[test]
fn filter_accepts_when_any_date_is_in_range() {
    let dates = vec![String::from("1900-01-01"), String::from("2024-06-01")];
    let from = Some(d(2024, 1, 1));
    let to = Some(d(2024, 12, 31));
    assert!(matches_date_filter(&dates, &from, &to));
}

#[test]
fn filter_respects_half_open_bounds() {
    let dates = vec![String::from("2030-01-01")];
    assert!(matches_date_filter(&dates, &Some(d(2024, 1, 1)), &None));
    assert!(!matches_date_filter(&dates, &None, &Some(d(2024, 12, 31))));
}
