//! Request URL handling: splitting the comma-separated URL field, tidying
//! each entry, defaulting the scheme, and validating through the url crate.

use vstd::prelude::*;
use crate::errors::CrawlerError;
use crate::text::{
    chars_of, find_from, lemma_find_bounds, push_all, spec_find, spec_trim, starts_with,
    starts_with_exec, string_of, trim_range,
};

verus! {

// ---------------------------------------------------------------------------
// trusted url-crate calls
// ---------------------------------------------------------------------------

/// Whether the url crate accepts a text as an absolute URL.
pub uninterp spec fn url_parses(s: Seq<char>) -> bool;

/// The serialized result of resolving `href` against `base`, when the url
/// crate can parse the base and resolve the href against it.
pub uninterp spec fn url_joined(base: Seq<char>, href: Seq<char>) -> Option<Seq<char>>;

/// Relies on url's `Url::parse`: whether a text is a URL the crate accepts
/// is a function of the text alone.
#[verifier::external_body]
pub(crate) fn url_is_valid(s: &str) -> (r: bool)
    ensures
        r == url_parses(s@),
{
    url::Url::parse(s).is_ok()
}

/// Relies on url's `Url::parse` and `Url::join`: resolving a possibly
/// relative href against a base URL and serializing the result is a function
/// of the two texts alone, failing exactly when the crate refuses the base
/// or the href.
#[verifier::external_body]
pub(crate) fn url_join(base: &str, href: &str) -> (r: Option<String>)
    ensures
        r is Some <==> url_joined(base@, href@) is Some,
        r matches Some(u) ==> url_joined(base@, href@) == Some(u@),
{
    match url::Url::parse(base) {
        Ok(b) => match b.join(href) {
            Ok(u) => Some(u.to_string()),
            Err(_) => None,
        },
        Err(_) => None,
    }
}

// ---------------------------------------------------------------------------
// entry preparation
// ---------------------------------------------------------------------------

/// The text with every backtick dropped, from `pos` on.
pub open spec fn strip_bt_from(s: Seq<char>, pos: int) -> Seq<char>
    decreases s.len() - pos,
        when 0 <= pos <= s.len()
{
    if pos >= s.len() {
        Seq::empty()
    } else if s[pos] == '`' {
        strip_bt_from(s, pos + 1)
    } else {
        seq![s[pos]] + strip_bt_from(s, pos + 1)
    }
}

fn strip_backticks(s: &Vec<char>) -> (r: Vec<char>)
    ensures
        r@ == strip_bt_from(s@, 0),
{
    let mut out: Vec<char> = Vec::new();
    let mut i: usize = 0;
    while i < s.len()
        invariant
            i <= s@.len(),
            strip_bt_from(s@, 0) == out@ + strip_bt_from(s@, i as int),
        decreases s@.len() - i,
    {
        let c = s[i];
        if c != '`' {
            let ghost out0 = out@;
            out.push(c);
            proof {
                assert(out@ + strip_bt_from(s@, i + 1) =~= out0 + (seq![s@[i as int]]
                    + strip_bt_from(s@, i + 1)));
            }
        }
        i += 1;
    }
    proof {
        assert(out@ + strip_bt_from(s@, s@.len() as int) =~= out@);
    }
    out
}

pub open spec fn http_pre() -> Seq<char> {
    "http://"@
}

pub open spec fn https_pre() -> Seq<char> {
    "https://"@
}

/// One raw entry prepared: trimmed, backticks dropped, and `https://`
/// prefixed when no scheme is given.
pub open spec fn spec_prep(piece: Seq<char>) -> Seq<char> {
    let t = strip_bt_from(spec_trim(piece), 0);
    if starts_with(t, http_pre()) || starts_with(t, https_pre()) {
        t
    } else {
        https_pre() + t
    }
}

fn prep_range(s: &Vec<char>, a: usize, b: usize) -> (r: Vec<char>)
    requires
        a <= b,
        b <= s@.len(),
    ensures
        r@ == spec_prep(s@.subrange(a as int, b as int)),
{
    let trimmed = trim_range(s, a, b);
    let t = strip_backticks(&trimmed);
    let hp = chars_of("http://");
    let hsp = chars_of("https://");
    if starts_with_exec(&t, &hp) || starts_with_exec(&t, &hsp) {
        t
    } else {
        let mut r = chars_of("https://");
        push_all(&mut r, &t);
        r
    }
}

// ---------------------------------------------------------------------------
// splitting the URL field
// ---------------------------------------------------------------------------

pub open spec fn comma() -> Seq<char> {
    seq![',']
}

/// The prepared entries of the comma-separated URL field from `pos` on;
/// pieces that are empty once trimmed and stripped are skipped.
pub open spec fn spec_entries(s: Seq<char>, pos: int) -> Seq<Seq<char>>
    decreases s.len() - pos,
        when 0 <= pos <= s.len()
{
    match spec_find(s, comma(), pos) {
        None => {
            let t = strip_bt_from(spec_trim(s.subrange(pos, s.len() as int)), 0);
            if t.len() == 0 {
                Seq::empty()
            } else {
                seq![spec_prep(s.subrange(pos, s.len() as int))]
            }
        },
        Some(i) => if pos <= i && i < s.len() {
            let t = strip_bt_from(spec_trim(s.subrange(pos, i)), 0);
            let rest = spec_entries(s, i + 1);
            if t.len() == 0 {
                rest
            } else {
                seq![spec_prep(s.subrange(pos, i))] + rest
            }
        } else {
            Seq::empty()
        },
    }
}

fn entries_from(s: &Vec<char>, pos: usize) -> (r: Vec<Vec<char>>)
    requires
        pos <= s@.len(),
    ensures
        r@.map_values(|v: Vec<char>| v@) == spec_entries(s@, pos as int),
    decreases s@.len() - pos,
{
    let n = s.len();
    let cv = comma_vec();
    match find_from(s, &cv, pos) {
        None => {
            let trimmed = trim_range(s, pos, n);
            let t = strip_backticks(&trimmed);
            if t.len() == 0 {
                let r: Vec<Vec<char>> = Vec::new();
                proof {
                    assert(r@.map_values(|v: Vec<char>| v@) =~= spec_entries(s@, pos as int));
                }
                r
            } else {
                let p = prep_range(s, pos, n);
                let mut r: Vec<Vec<char>> = Vec::new();
                r.push(p);
                proof {
                    assert(r@.map_values(|v: Vec<char>| v@) =~= spec_entries(s@, pos as int));
                }
                r
            }
        },
        Some(i) => {
            proof {
                lemma_find_bounds(s@, comma(), pos as int, i as int);
            }
            let trimmed = trim_range(s, pos, i);
            let t = strip_backticks(&trimmed);
            if t.len() == 0 {
                let r = entries_from(s, i + 1);
                proof {
                    assert(r@.map_values(|v: Vec<char>| v@) =~= spec_entries(s@, pos as int));
                }
                r
            } else {
                let p = prep_range(s, pos, i);
                let rest = entries_from(s, i + 1);
                let mut r: Vec<Vec<char>> = Vec::new();
                r.push(p);
                let mut j: usize = 0;
                while j < rest.len()
                    invariant
                        j <= rest@.len(),
                        r@.len() == j + 1,
                        r@[0]@ == p@,
                        forall|k: int| 0 <= k < j ==> r@[k + 1]@ == (#[trigger] rest@[k])@,
                    decreases rest@.len() - j,
                {
                    let e = crate::text::copy_range(&rest[j], 0, rest[j].len());
                    proof {
                        assert(e@ =~= rest@[j as int]@);
                    }
                    r.push(e);
                    j += 1;
                }
                proof {
                    assert(r@.map_values(|v: Vec<char>| v@) =~= spec_entries(s@, pos as int));
                }
                r
            }
        },
    }
}

fn comma_vec() -> (r: Vec<char>)
    ensures
        r@ == comma(),
{
    let mut v: Vec<char> = Vec::new();
    v.push(',');
    proof {
        assert(v@ =~= comma());
    }
    v
}

// ---------------------------------------------------------------------------
// the public front
// ---------------------------------------------------------------------------

/// One entry of the request's URL field after normalisation, with the url
/// crate's verdict on it.
#[derive(Debug)]
pub struct UrlEntry {
    pub url: String,
    pub valid: bool,
}

/// Splits the request's comma-separated URL field into prepared entries and
/// validates each; fails only when not a single entry is a valid URL.
pub fn parse_urls(raw: &str) -> (r: Result<Vec<UrlEntry>, CrawlerError>)
    ensures
        r matches Ok(v) ==> {
            let es = spec_entries(raw@, 0);
            &&& v@.len() == es.len()
            &&& forall|k: int|
                0 <= k < es.len() ==> (#[trigger] v@[k]).url@ == es[k] && v@[k].valid
                    == url_parses(es[k])
            &&& exists|k: int| 0 <= k < es.len() && url_parses(#[trigger] es[k])
        },
        r is Err <==> (forall|k: int|
            0 <= k < spec_entries(raw@, 0).len() ==> !url_parses(
                #[trigger] spec_entries(raw@, 0)[k],
            )),
        r matches Err(e) ==> e matches CrawlerError::Other(m) && m@ == "No valid URLs provided"@,
{
    let rv = chars_of(raw);
    let pieces = entries_from(&rv, 0);
    let ghost es = spec_entries(raw@, 0);
    proof {
        assert(pieces@.map_values(|v: Vec<char>| v@) == es);
        assert(pieces@.len() == es.len());
    }
    let mut out: Vec<UrlEntry> = Vec::new();
    let mut any_valid = false;
    let mut i: usize = 0;
    while i < pieces.len()
        invariant
            i <= pieces@.len(),
            pieces@.len() == es.len(),
            pieces@.map_values(|v: Vec<char>| v@) == es,
            out@.len() == i,
            forall|k: int|
                0 <= k < i ==> (#[trigger] out@[k]).url@ == es[k] && out@[k].valid == url_parses(
                    es[k],
                ),
            any_valid == exists|k: int| 0 <= k < i && url_parses(#[trigger] es[k]),
        decreases pieces@.len() - i,
    {
        proof {
            assert(es[i as int] == pieces@[i as int]@);
        }
        let u = string_of(&pieces[i]);
        let ok = url_is_valid(u.as_str());
        if ok {
            any_valid = true;
        }
        out.push(UrlEntry { url: u, valid: ok });
        i += 1;
    }
    if any_valid {
        Ok(out)
    } else {
        Err(CrawlerError::Other("No valid URLs provided".to_owned()))
    }
}

} // verus!
