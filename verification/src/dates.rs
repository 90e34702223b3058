//! Calendar dates as plain numbers, the parsers behind them, and the
//! date-range filter applied to extracted page dates.
//!
//! Parsing itself is done by chrono; each accepted format gets one trusted
//! wrapper whose result is named by an uninterpreted function of the input
//! text, so everything downstream of parsing is verified exactly.

use vstd::prelude::*;
use vstd::string::StringExecFns;
use chrono::Datelike;
use crate::errors::CrawlerError;

verus! {

/// A calendar date as plain year, month and day numbers.
#[derive(Clone, Copy, PartialEq, Eq, Structural, Debug)]
pub struct Date {
    pub year: i32,
    pub month: u8,
    pub day: u8,
}

pub open spec fn is_leap_year(y: int) -> bool {
    (y % 4 == 0 && y % 100 != 0) || y % 400 == 0
}

pub open spec fn days_in_month(y: int, m: int) -> int {
    if m == 1 || m == 3 || m == 5 || m == 7 || m == 8 || m == 10 || m == 12 {
        31
    } else if m == 4 || m == 6 || m == 9 || m == 11 {
        30
    } else if m == 2 {
        if is_leap_year(y) {
            29
        } else {
            28
        }
    } else {
        0
    }
}

/// A real proleptic-Gregorian calendar date.
pub open spec fn valid_date(d: Date) -> bool {
    &&& 1 <= d.month <= 12
    &&& 1 <= d.day <= days_in_month(d.year as int, d.month as int)
}

pub open spec fn date_triple(d: Date) -> (int, int, int) {
    (d.year as int, d.month as int, d.day as int)
}

/// Lexicographic order on (year, month, day), which for valid dates is
/// chronological order.
pub open spec fn triple_le(a: (int, int, int), b: (int, int, int)) -> bool {
    ||| a.0 < b.0
    ||| (a.0 == b.0 && a.1 < b.1)
    ||| (a.0 == b.0 && a.1 == b.1 && a.2 <= b.2)
}

pub open spec fn date_le(a: Date, b: Date) -> bool {
    triple_le(date_triple(a), date_triple(b))
}

pub fn date_le_exec(a: &Date, b: &Date) -> (r: bool)
    ensures
        r == date_le(*a, *b),
{
    if a.year != b.year {
        a.year < b.year
    } else if a.month != b.month {
        a.month < b.month
    } else {
        a.day <= b.day
    }
}

// ---------------------------------------------------------------------------
// trusted parsers (chrono)
// ---------------------------------------------------------------------------

/// The (year, month, day) that chrono's `%Y-%m-%d` parse yields for a text,
/// if it parses.
pub uninterp spec fn ymd_dash_date_of(s: Seq<char>) -> Option<(int, int, int)>;

/// The (year, month, day) that chrono's `%Y/%m/%d` parse yields for a text.
pub uninterp spec fn ymd_slash_date_of(s: Seq<char>) -> Option<(int, int, int)>;

/// The (year, month, day) that chrono's `%m/%d/%Y` parse yields for a text.
pub uninterp spec fn mdy_slash_date_of(s: Seq<char>) -> Option<(int, int, int)>;

/// The UTC calendar day that chrono's RFC 3339 parse yields for a text.
pub uninterp spec fn rfc3339_date_of(s: Seq<char>) -> Option<(int, int, int)>;

/// Relies on chrono's `NaiveDate::parse_from_str` with format `%Y-%m-%d`:
/// the outcome depends on the text alone, and any date handed back is a
/// valid proleptic-Gregorian date.
#[verifier::external_body]
fn chrono_parse_ymd_dash(s: &str) -> (r: Option<Date>)
    ensures
        r is Some <==> ymd_dash_date_of(s@) is Some,
        r matches Some(d) ==> ymd_dash_date_of(s@) == Some(date_triple(d)) && valid_date(d),
{
    match chrono::NaiveDate::parse_from_str(s, "%Y-%m-%d") {
        Ok(d) => Some(Date { year: d.year(), month: d.month() as u8, day: d.day() as u8 }),
        Err(_) => None,
    }
}

/// Relies on chrono's `NaiveDate::parse_from_str` with format `%Y/%m/%d`,
/// as `chrono_parse_ymd_dash` does.
#[verifier::external_body]
fn chrono_parse_ymd_slash(s: &str) -> (r: Option<Date>)
    ensures
        r is Some <==> ymd_slash_date_of(s@) is Some,
        r matches Some(d) ==> ymd_slash_date_of(s@) == Some(date_triple(d)) && valid_date(d),
{
    match chrono::NaiveDate::parse_from_str(s, "%Y/%m/%d") {
        Ok(d) => Some(Date { year: d.year(), month: d.month() as u8, day: d.day() as u8 }),
        Err(_) => None,
    }
}

/// Relies on chrono's `NaiveDate::parse_from_str` with format `%m/%d/%Y`,
/// as `chrono_parse_ymd_dash` does.
#[verifier::external_body]
fn chrono_parse_mdy_slash(s: &str) -> (r: Option<Date>)
    ensures
        r is Some <==> mdy_slash_date_of(s@) is Some,
        r matches Some(d) ==> mdy_slash_date_of(s@) == Some(date_triple(d)) && valid_date(d),
{
    match chrono::NaiveDate::parse_from_str(s, "%m/%d/%Y") {
        Ok(d) => Some(Date { year: d.year(), month: d.month() as u8, day: d.day() as u8 }),
        Err(_) => None,
    }
}

/// Relies on chrono's `DateTime::parse_from_rfc3339`, then takes the UTC
/// calendar day of the parsed instant: again a function of the text alone,
/// yielding a valid calendar date.
#[verifier::external_body]
fn chrono_parse_rfc3339_date(s: &str) -> (r: Option<Date>)
    ensures
        r is Some <==> rfc3339_date_of(s@) is Some,
        r matches Some(d) ==> rfc3339_date_of(s@) == Some(date_triple(d)) && valid_date(d),
{
    match chrono::DateTime::parse_from_rfc3339(s) {
        Ok(dt) => {
            let d = dt.naive_utc().date();
            Some(Date { year: d.year(), month: d.month() as u8, day: d.day() as u8 })
        },
        Err(_) => None,
    }
}

// ---------------------------------------------------------------------------
// verified parsing fronts
// ---------------------------------------------------------------------------

/// What `parse_date` accepts for dates found on pages: RFC 3339 first, then
/// `%Y-%m-%d`, `%Y/%m/%d` and `%m/%d/%Y`; the first format that parses wins.
pub open spec fn page_date_of(s: Seq<char>) -> Option<(int, int, int)> {
    if rfc3339_date_of(s) is Some {
        rfc3339_date_of(s)
    } else if ymd_dash_date_of(s) is Some {
        ymd_dash_date_of(s)
    } else if ymd_slash_date_of(s) is Some {
        ymd_slash_date_of(s)
    } else {
        mdy_slash_date_of(s)
    }
}

/// Parses a date string found on a page, trying the accepted formats in
/// priority order.
pub fn parse_date(s: &str) -> (r: Option<Date>)
    ensures
        r is Some <==> page_date_of(s@) is Some,
        r matches Some(d) ==> page_date_of(s@) == Some(date_triple(d)) && valid_date(d),
{
    match chrono_parse_rfc3339_date(s) {
        Some(d) => Some(d),
        None => match chrono_parse_ymd_dash(s) {
            Some(d) => Some(d),
            None => match chrono_parse_ymd_slash(s) {
                Some(d) => Some(d),
                None => chrono_parse_mdy_slash(s),
            },
        },
    }
}

/// Parses a request bound, which must be `YYYY-MM-DD`.
pub fn parse_date_string(s: &str) -> (r: Result<Date, CrawlerError>)
    ensures
        r is Ok <==> ymd_dash_date_of(s@) is Some,
        r matches Ok(d) ==> ymd_dash_date_of(s@) == Some(date_triple(d)) && valid_date(d),
        r matches Err(e) ==> e matches CrawlerError::DateParsingError(m) && m@
            == "Invalid date format: "@ + s@,
{
    match chrono_parse_ymd_dash(s) {
        Some(d) => Ok(d),
        None => {
            let mut m = "Invalid date format: ".to_owned();
            m.append(s);
            Err(CrawlerError::DateParsingError(m))
        },
    }
}

// ---------------------------------------------------------------------------
// range validation
// ---------------------------------------------------------------------------

pub open spec fn opt_str_view(o: Option<&String>) -> Option<Seq<char>> {
    match o {
        Some(s) => Some(s@),
        None => None,
    }
}

/// A pair of optional bounds is valid when each present bound parses as
/// `YYYY-MM-DD` and, when both are present, `from` is not after `to`.
pub open spec fn spec_range_valid(df: Option<Seq<char>>, dt: Option<Seq<char>>) -> bool {
    &&& (df matches Some(s) ==> ymd_dash_date_of(s) is Some)
    &&& (dt matches Some(s) ==> ymd_dash_date_of(s) is Some)
    &&& match (df, dt) {
        (Some(s1), Some(s2)) => match (ymd_dash_date_of(s1), ymd_dash_date_of(s2)) {
            (Some(a), Some(b)) => triple_le(a, b),
            _ => true,
        },
        _ => true,
    }
}

/// The date a parse-result triple stands for.
pub open spec fn date_of_triple(t: (int, int, int)) -> Date {
    Date { year: t.0 as i32, month: t.1 as u8, day: t.2 as u8 }
}

/// The date an optional request bound parses to, when present and parseable.
pub open spec fn spec_parsed_bound(o: Option<Seq<char>>) -> Option<Date> {
    match o {
        Some(s) => match ymd_dash_date_of(s) {
            Some(t) => Some(date_of_triple(t)),
            None => None,
        },
        None => None,
    }
}

/// The complaint a bound raises: present but unparseable.
pub open spec fn spec_bound_err_msg(o: Option<Seq<char>>) -> Option<Seq<char>> {
    match o {
        Some(s) => if ymd_dash_date_of(s) is None {
            Some("Invalid date format: "@ + s)
        } else {
            None
        },
        None => None,
    }
}

/// The exact message an invalid range is rejected with: the first
/// unparseable bound's complaint, else the ordering complaint.
pub open spec fn spec_range_err_msg(df: Option<Seq<char>>, dt: Option<Seq<char>>) -> Seq<char> {
    match spec_bound_err_msg(df) {
        Some(m) => m,
        None => match spec_bound_err_msg(dt) {
            Some(m) => m,
            None => "date_from cannot be after date_to"@,
        },
    }
}

/// Parses the optional request bounds and checks their order: succeeds for
/// exactly the valid ranges, and fails with a date-parsing error otherwise.
pub fn validate_date_range(date_from: Option<&String>, date_to: Option<&String>) -> (r: Result<
    (Option<Date>, Option<Date>),
    CrawlerError,
>)
    ensures
        r is Ok <==> spec_range_valid(opt_str_view(date_from), opt_str_view(date_to)),
        r matches Ok(p) ==> {
            &&& (p.0 is Some <==> date_from is Some)
            &&& (p.1 is Some <==> date_to is Some)
            &&& (date_from matches Some(s) ==> p.0 matches Some(d) && ymd_dash_date_of(s@)
                == Some(date_triple(d)) && valid_date(d))
            &&& (date_to matches Some(s) ==> p.1 matches Some(d) && ymd_dash_date_of(s@)
                == Some(date_triple(d)) && valid_date(d))
            &&& match p {
                (Some(a), Some(b)) => date_le(a, b),
                _ => true,
            }
        },
        r matches Err(e) ==> e matches CrawlerError::DateParsingError(m) && m@
            == spec_range_err_msg(opt_str_view(date_from), opt_str_view(date_to)),
{
    let from_date = match date_from {
        Some(s) => match parse_date_string(s.as_str()) {
            Ok(d) => Some(d),
            Err(e) => {
                return Err(e);
            },
        },
        None => None,
    };
    let to_date = match date_to {
        Some(s) => match parse_date_string(s.as_str()) {
            Ok(d) => Some(d),
            Err(e) => {
                return Err(e);
            },
        },
        None => None,
    };
    if let (Some(f), Some(t)) = (&from_date, &to_date) {
        if !date_le_exec(f, t) {
            return Err(
                CrawlerError::DateParsingError("date_from cannot be after date_to".to_owned()),
            );
        }
    }
    Ok((from_date, to_date))
}

// ---------------------------------------------------------------------------
// the date filter
// ---------------------------------------------------------------------------

pub open spec fn views_of(ss: Seq<String>) -> Seq<Seq<char>> {
    ss.map_values(|s: String| s@)
}

/// A parsed date lies within the optional bounds (absent bounds are open).
pub open spec fn in_range(t: (int, int, int), from: Option<Date>, to: Option<Date>) -> bool {
    &&& (from matches Some(f) ==> triple_le(date_triple(f), t))
    &&& (to matches Some(b) ==> triple_le(t, date_triple(b)))
}

/// The given date string parses and the parsed date lies within the bounds.
pub open spec fn date_hit(s: Seq<char>, from: Option<Date>, to: Option<Date>) -> bool {
    page_date_of(s) matches Some(t) && in_range(t, from, to)
}

/// The date filter: with no bounds every page passes; a page some of whose
/// date strings parse passes when any parsed date lies within the bounds; a
/// page none of whose date strings parse passes by default.
pub open spec fn spec_matches_filter(
    dates: Seq<Seq<char>>,
    from: Option<Date>,
    to: Option<Date>,
) -> bool {
    if from is None && to is None {
        true
    } else if exists|k: int| 0 <= k < dates.len() && (#[trigger] page_date_of(dates[k])) is Some {
        exists|k: int| 0 <= k < dates.len() && #[trigger] date_hit(dates[k], from, to)
    } else {
        true
    }
}

fn in_range_exec(d: &Date, from: &Option<Date>, to: &Option<Date>) -> (r: bool)
    ensures
        r == in_range(date_triple(*d), *from, *to),
{
    let lo_ok = match from {
        Some(f) => date_le_exec(f, d),
        None => true,
    };
    let hi_ok = match to {
        Some(b) => date_le_exec(d, b),
        None => true,
    };
    lo_ok && hi_ok
}

/// Decides whether a page with the given extracted date strings passes the
/// date filter.
pub fn matches_date_filter(page_dates: &Vec<String>, from: &Option<Date>, to: &Option<Date>) -> (r:
    bool)
    ensures
        r == spec_matches_filter(views_of(page_dates@), *from, *to),
{
    let ghost dv = views_of(page_dates@);
    if from.is_none() && to.is_none() {
        return true;
    }
    let mut any_parsed = false;
    let mut i: usize = 0;
    while i < page_dates.len()
        invariant
            i <= page_dates@.len(),
            dv == views_of(page_dates@),
            dv.len() == page_dates@.len(),
            any_parsed == exists|k: int|
                0 <= k < i && (#[trigger] page_date_of(dv[k])) is Some,
            forall|k: int| 0 <= k < i ==> !(#[trigger] date_hit(dv[k], *from, *to)),
            !(*from is None && *to is None),
        decreases page_dates@.len() - i,
    {
        proof {
            assert(dv[i as int] == page_dates@[i as int]@);
        }
        match parse_date(page_dates[i].as_str()) {
            Some(d) => {
                any_parsed = true;
                if in_range_exec(&d, from, to) {
                    proof {
                        assert(page_date_of(dv[i as int]) is Some);
                        assert(date_hit(dv[i as int], *from, *to));
                    }
                    return true;
                }
            },
            None => {},
        }
        i += 1;
    }
    !any_parsed
}

} // verus!
