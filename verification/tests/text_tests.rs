use crawlcore::text::{chars_of, contains_pat, find_from, occurrences, to_lower, trim_range, u64_to_string};

#[test]
fn decimal_rendering_is_exact() {
    assert_eq!(u64_to_string(0), "0");
    assert_eq!(u64_to_string(7), "7");
    assert_eq!(u64_to_string(1234567890), "1234567890");
    assert_eq!(u64_to_string(u64::MAX), "18446744073709551615");
}

#[test]
fn find_returns_the_first_occurrence() {
    let hay = chars_of("abcabc");
    let pat = chars_of("bc");
    assert_eq!(find_from(&hay, &pat, 0), Some(1));
    assert_eq!(find_from(&hay, &pat, 2), Some(4));
    assert_eq!(find_from(&hay, &pat, 5), None);
    let missing = chars_of("zz");
    assert_eq!(find_from(&hay, &missing, 0), None);
}

#[test]
fn occurrences_do_not_overlap() {
    let hay = chars_of("aaaa");
    let pat = chars_of("aa");
    assert_eq!(occurrences(&hay, &pat), vec![0, 2]);
}

#[test]
fn lowering_touches_only_ascii_letters() {
    let v = chars_of("AbC-9");
    let lowered: String = to_lower(&v).into_iter().collect();
    assert_eq!(lowered, "abc-9");
}

#[test]
fn trimming_strips_ascii_whitespace() {
    let v = chars_of(" \t hi there \r\n");
    let trimmed: String = trim_range(&v, 0, v.len()).into_iter().collect();
    assert_eq!(trimmed, "hi there");
}

#[test]
fn containment_is_plain_substring_search() {
    let hay = chars_of("pagination-list");
    assert!(contains_pat(&hay, &chars_of("pagination")));
    assert!(!contains_pat(&hay, &chars_of("Next")));
}
