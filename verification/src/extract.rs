//! Page extraction: date meta tags, the title, and the "next page" link,
//! all by verified scanning over the page text.
//!
//! The scans handle the fragment of HTML the crawler cares about: tags are
//! taken as `<name ...>` up to the next `>`, and attribute values as the text
//! between `attr="` and the following quote.

use vstd::prelude::*;
use crate::text::{
    chars_of, contains_pat, copy_range, find_from, lemma_find_bounds, spec_contains, spec_find,
    spec_tidy, spec_trim, starts_with, starts_with_exec, string_of, tidy_text, trim_range,
};
use crate::urls::{http_pre, https_pre, url_join, url_joined};

verus! {

pub open spec fn ov(o: Option<Vec<char>>) -> Option<Seq<char>> {
    match o {
        Some(v) => Some(v@),
        None => None,
    }
}

pub open spec fn os(o: Option<String>) -> Option<Seq<char>> {
    match o {
        Some(v) => Some(v@),
        None => None,
    }
}

pub open spec fn gt() -> Seq<char> {
    seq!['>']
}

fn gt_vec() -> (r: Vec<char>)
    ensures
        r@ == gt(),
{
    let mut v: Vec<char> = Vec::new();
    v.push('>');
    proof {
        assert(v@ =~= gt());
    }
    v
}

pub open spec fn quote() -> Seq<char> {
    seq!['"']
}

fn quote_vec() -> (r: Vec<char>)
    ensures
        r@ == quote(),
{
    let mut v: Vec<char> = Vec::new();
    v.push('"');
    proof {
        assert(v@ =~= quote());
    }
    v
}

// ---------------------------------------------------------------------------
// attribute values
// ---------------------------------------------------------------------------

/// The text between the first occurrence of `pat` (e.g. `content="`) in a
/// tag and the next quote.
pub open spec fn attr_value(tag: Seq<char>, pat: Seq<char>) -> Option<Seq<char>> {
    match spec_find(tag, pat, 0) {
        None => None,
        Some(i) => {
            let start = i + pat.len();
            match spec_find(tag, quote(), start) {
                None => None,
                Some(j) => if 0 <= start <= j <= tag.len() {
                    Some(tag.subrange(start, j))
                } else {
                    None
                },
            }
        },
    }
}

fn attr_value_exec(tag: &Vec<char>, pat: &Vec<char>) -> (r: Option<Vec<char>>)
    ensures
        ov(r) == attr_value(tag@, pat@),
{
    let n = tag.len();
    match find_from(tag, pat, 0) {
        None => None,
        Some(i) => {
            proof {
                lemma_find_bounds(tag@, pat@, 0, i as int);
            }
            let start = i + pat.len();
            let qv = quote_vec();
            match find_from(tag, &qv, start) {
                None => None,
                Some(j) => {
                    proof {
                        lemma_find_bounds(tag@, quote(), start as int, j as int);
                    }
                    Some(copy_range(tag, start, j))
                },
            }
        },
    }
}

// ---------------------------------------------------------------------------
// date meta tags
// ---------------------------------------------------------------------------

/// Attribute names that carry a last-modified date.
pub open spec fn is_modified_attr(a: Seq<char>) -> bool {
    ||| a == "article:modified_time"@
    ||| a == "article:updated_time"@
    ||| a == "last-modified"@
    ||| a == "date-modified"@
}

/// Attribute names that carry a published date.
pub open spec fn is_published_attr(a: Seq<char>) -> bool {
    ||| a == "article:published_time"@
    ||| a == "date"@
    ||| a == "publish-date"@
    ||| a == "publication-date"@
}

fn seq_eq(a: &Vec<char>, b: &Vec<char>) -> (r: bool)
    ensures
        r == (a@ == b@),
{
    if a.len() != b.len() {
        return false;
    }
    let mut i: usize = 0;
    while i < a.len()
        invariant
            a@.len() == b@.len(),
            i <= a@.len(),
            forall|k: int| 0 <= k < i ==> a@[k] == b@[k],
        decreases a@.len() - i,
    {
        if a[i] != b[i] {
            return false;
        }
        i += 1;
    }
    proof {
        assert(a@ =~= b@);
    }
    true
}

fn is_modified_attr_exec(a: &Vec<char>) -> (r: bool)
    ensures
        r == is_modified_attr(a@),
{
    let p1 = chars_of("article:modified_time");
    let p2 = chars_of("article:updated_time");
    let p3 = chars_of("last-modified");
    let p4 = chars_of("date-modified");
    seq_eq(a, &p1) || seq_eq(a, &p2) || seq_eq(a, &p3) || seq_eq(a, &p4)
}

fn is_published_attr_exec(a: &Vec<char>) -> (r: bool)
    ensures
        r == is_published_attr(a@),
{
    let p1 = chars_of("article:published_time");
    let p2 = chars_of("date");
    let p3 = chars_of("publish-date");
    let p4 = chars_of("publication-date");
    seq_eq(a, &p1) || seq_eq(a, &p2) || seq_eq(a, &p3) || seq_eq(a, &p4)
}

/// The property or name attribute of a meta tag, property taking precedence.
pub open spec fn meta_attr_name(tag: Seq<char>) -> Option<Seq<char>> {
    if attr_value(tag, "property=\""@) is Some {
        attr_value(tag, "property=\""@)
    } else {
        attr_value(tag, "name=\""@)
    }
}

/// What one meta tag contributes to the (last-modified, published) pair:
/// each category keeps its first hit.
pub open spec fn tag_update(tag: Seq<char>, lm: Option<Seq<char>>, pd: Option<Seq<char>>) -> (
    Option<Seq<char>>,
    Option<Seq<char>>,
) {
    match (meta_attr_name(tag), attr_value(tag, "content=\""@)) {
        (Some(a), Some(c)) => {
            let lm2 = if lm is None && is_modified_attr(a) {
                Some(c)
            } else {
                lm
            };
            let pd2 = if pd is None && is_published_attr(a) {
                Some(c)
            } else {
                pd
            };
            (lm2, pd2)
        },
        _ => (lm, pd),
    }
}

fn tag_update_exec(tag: &Vec<char>, lm: Option<Vec<char>>, pd: Option<Vec<char>>) -> (r: (
    Option<Vec<char>>,
    Option<Vec<char>>,
))
    ensures
        ov(r.0) == tag_update(tag@, ov(lm), ov(pd)).0,
        ov(r.1) == tag_update(tag@, ov(lm), ov(pd)).1,
{
    let pv = chars_of("property=\"");
    let nv = chars_of("name=\"");
    let cv = chars_of("content=\"");
    let a_opt = match attr_value_exec(tag, &pv) {
        Some(a) => Some(a),
        None => attr_value_exec(tag, &nv),
    };
    let c_opt = attr_value_exec(tag, &cv);
    match (a_opt, c_opt) {
        (Some(a), Some(c)) => {
            let set_lm = lm.is_none() && is_modified_attr_exec(&a);
            let set_pd = pd.is_none() && is_published_attr_exec(&a);
            let lm2 = if set_lm {
                let cc = copy_range(&c, 0, c.len());
                proof {
                    assert(cc@ =~= c@);
                }
                Some(cc)
            } else {
                lm
            };
            let pd2 = if set_pd {
                Some(c)
            } else {
                pd
            };
            (lm2, pd2)
        },
        _ => (lm, pd),
    }
}

/// The (last-modified, published) meta values of the page from `pos` on,
/// first hit per category.
pub open spec fn scan_meta(
    s: Seq<char>,
    pos: int,
    lm: Option<Seq<char>>,
    pd: Option<Seq<char>>,
) -> (Option<Seq<char>>, Option<Seq<char>>)
    decreases s.len() - pos,
        when 0 <= pos <= s.len()
{
    match spec_find(s, "<meta"@, pos) {
        None => (lm, pd),
        Some(i) => match spec_find(s, gt(), i) {
            None => (lm, pd),
            Some(e) => if pos <= i && i <= e && e < s.len() {
                let t = tag_update(s.subrange(i, e), lm, pd);
                scan_meta(s, e + 1, t.0, t.1)
            } else {
                (lm, pd)
            },
        },
    }
}

fn scan_meta_exec(s: &Vec<char>, pos: usize, lm: Option<Vec<char>>, pd: Option<Vec<char>>) -> (r: (
    Option<Vec<char>>,
    Option<Vec<char>>,
))
    requires
        pos <= s@.len(),
    ensures
        ov(r.0) == scan_meta(s@, pos as int, ov(lm), ov(pd)).0,
        ov(r.1) == scan_meta(s@, pos as int, ov(lm), ov(pd)).1,
    decreases s@.len() - pos,
{
    let n = s.len();
    let mp = chars_of("<meta");
    match find_from(s, &mp, pos) {
        None => (lm, pd),
        Some(i) => {
            proof {
                lemma_find_bounds(s@, "<meta"@, pos as int, i as int);
            }
            let gv = gt_vec();
            match find_from(s, &gv, i) {
                None => (lm, pd),
                Some(e) => {
                    proof {
                        lemma_find_bounds(s@, gt(), i as int, e as int);
                    }
                    let tag = copy_range(s, i, e);
                    let up = tag_update_exec(&tag, lm, pd);
                    scan_meta_exec(s, e + 1, up.0, up.1)
                },
            }
        },
    }
}

/// The first `<time datetime="...">` value of the page from `pos` on.
pub open spec fn scan_time(s: Seq<char>, pos: int) -> Option<Seq<char>>
    decreases s.len() - pos,
        when 0 <= pos <= s.len()
{
    match spec_find(s, "<time"@, pos) {
        None => None,
        Some(i) => match spec_find(s, gt(), i) {
            None => None,
            Some(e) => if pos <= i && i <= e && e < s.len() {
                match attr_value(s.subrange(i, e), "datetime=\""@) {
                    Some(v) => Some(v),
                    None => scan_time(s, e + 1),
                }
            } else {
                None
            },
        },
    }
}

fn scan_time_exec(s: &Vec<char>, pos: usize) -> (r: Option<Vec<char>>)
    requires
        pos <= s@.len(),
    ensures
        ov(r) == scan_time(s@, pos as int),
    decreases s@.len() - pos,
{
    let n = s.len();
    let tp = chars_of("<time");
    match find_from(s, &tp, pos) {
        None => None,
        Some(i) => {
            proof {
                lemma_find_bounds(s@, "<time"@, pos as int, i as int);
            }
            let gv = gt_vec();
            match find_from(s, &gv, i) {
                None => None,
                Some(e) => {
                    proof {
                        lemma_find_bounds(s@, gt(), i as int, e as int);
                    }
                    let tag = copy_range(s, i, e);
                    let dv = chars_of("datetime=\"");
                    match attr_value_exec(&tag, &dv) {
                        Some(v) => Some(v),
                        None => scan_time_exec(s, e + 1),
                    }
                },
            }
        },
    }
}

/// The page's (last-modified, published) date strings: meta tags first, and
/// a `<time datetime>` element as a published-date fallback.
pub open spec fn spec_extract_dates(s: Seq<char>) -> (Option<Seq<char>>, Option<Seq<char>>) {
    let m = scan_meta(s, 0, None, None);
    let pd = if m.1 is None {
        scan_time(s, 0)
    } else {
        m.1
    };
    (m.0, pd)
}

/// Extracts the page's last-modified and published date strings.
pub fn extract_page_dates(html: &str) -> (r: (Option<String>, Option<String>))
    ensures
        os(r.0) == spec_extract_dates(html@).0,
        os(r.1) == spec_extract_dates(html@).1,
{
    let hv = chars_of(html);
    let m = scan_meta_exec(&hv, 0, None, None);
    let pd = match m.1 {
        Some(v) => Some(v),
        None => scan_time_exec(&hv, 0),
    };
    let lm_s = match m.0 {
        Some(v) => Some(string_of(&v)),
        None => None,
    };
    let pd_s = match pd {
        Some(v) => Some(string_of(&v)),
        None => None,
    };
    (lm_s, pd_s)
}

// ---------------------------------------------------------------------------
// title
// ---------------------------------------------------------------------------

/// The trimmed inner text of the first `<title>` element, if any.
pub open spec fn spec_extract_title(s: Seq<char>) -> Option<Seq<char>> {
    match spec_find(s, "<title"@, 0) {
        None => None,
        Some(i) => match spec_find(s, gt(), i) {
            None => None,
            Some(a) => if 0 <= i <= a && a + 1 <= s.len() {
                match spec_find(s, "</title"@, a + 1) {
                    None => None,
                    Some(b) => if a + 1 <= b && b <= s.len() {
                        Some(spec_trim(s.subrange(a + 1, b)))
                    } else {
                        None
                    },
                }
            } else {
                None
            },
        },
    }
}

/// Extracts the page title.
pub fn extract_title(html: &str) -> (r: Option<String>)
    ensures
        os(r) == spec_extract_title(html@),
{
    let hv = chars_of(html);
    let n = hv.len();
    let tp = chars_of("<title");
    match find_from(&hv, &tp, 0) {
        None => None,
        Some(i) => {
            proof {
                lemma_find_bounds(hv@, "<title"@, 0, i as int);
            }
            let gv = gt_vec();
            match find_from(&hv, &gv, i) {
                None => None,
                Some(a) => {
                    proof {
                        lemma_find_bounds(hv@, gt(), i as int, a as int);
                    }
                    let cp = chars_of("</title");
                    match find_from(&hv, &cp, a + 1) {
                        None => None,
                        Some(b) => {
                            proof {
                                lemma_find_bounds(hv@, "</title"@, a + 1, b as int);
                            }
                            let t = trim_range(&hv, a + 1, b);
                            Some(string_of(&t))
                        },
                    }
                },
            }
        },
    }
}

// ---------------------------------------------------------------------------
// plain-text rendering
// ---------------------------------------------------------------------------

/// What html2text makes of a page: its plain-text rendering at width 120.
pub uninterp spec fn text_of_html(s: Seq<char>) -> Seq<char>;

/// Relies on html2text's `from_read` at width 120: the rendering is a
/// function of the HTML text alone; a rendering error yields empty text.
#[verifier::external_body]
fn html_to_text(html: &str) -> (r: String)
    ensures
        r@ == text_of_html(html@),
{
    match html2text::from_read(html.as_bytes(), 120) {
        Ok(t) => t,
        Err(_) => String::new(),
    }
}

/// A page's text cleaned for matching: the plain-text rendering with lines
/// trimmed, blank lines dropped, and the rest joined by single newlines.
pub open spec fn spec_clean(html: Seq<char>) -> Seq<char> {
    spec_tidy(text_of_html(html))
}

/// Converts a page to cleaned plain text.
pub fn clean_html_text(html: &str) -> (r: String)
    ensures
        r@ == spec_clean(html@),
{
    let t = html_to_text(html);
    let tv = chars_of(t.as_str());
    let tidied = tidy_text(&tv);
    string_of(&tidied)
}

// ---------------------------------------------------------------------------
// pagination links
// ---------------------------------------------------------------------------

/// The mathematical shadow of one anchor element: its link attributes and
/// its inner text.
#[verifier::ext_equal]
pub ghost struct AnchorV {
    pub href: Option<Seq<char>>,
    pub rel: Option<Seq<char>>,
    pub class: Option<Seq<char>>,
    pub aria: Option<Seq<char>>,
    pub text: Seq<char>,
}

/// One anchor element of a page: its link attributes and its inner text.
pub struct Anchor {
    pub href: Option<Vec<char>>,
    pub rel: Option<Vec<char>>,
    pub class: Option<Vec<char>>,
    pub aria: Option<Vec<char>>,
    pub text: Vec<char>,
}

pub open spec fn av(a: Anchor) -> AnchorV {
    AnchorV {
        href: ov(a.href),
        rel: ov(a.rel),
        class: ov(a.class),
        aria: ov(a.aria),
        text: a.text@,
    }
}

pub open spec fn anchor_of(tag: Seq<char>, text: Seq<char>) -> AnchorV {
    AnchorV {
        href: attr_value(tag, "href=\""@),
        rel: attr_value(tag, "rel=\""@),
        class: attr_value(tag, "class=\""@),
        aria: attr_value(tag, "aria-label=\""@),
        text: text,
    }
}

fn anchor_of_exec(tag: &Vec<char>, text: Vec<char>) -> (r: Anchor)
    ensures
        av(r) == anchor_of(tag@, text@),
{
    let hv = chars_of("href=\"");
    let rv = chars_of("rel=\"");
    let cv = chars_of("class=\"");
    let arv = chars_of("aria-label=\"");
    let r = Anchor {
        href: attr_value_exec(tag, &hv),
        rel: attr_value_exec(tag, &rv),
        class: attr_value_exec(tag, &cv),
        aria: attr_value_exec(tag, &arv),
        text,
    };
    proof {
        assert(av(r) =~= anchor_of(tag@, r.text@));
    }
    r
}

/// The anchors of the page from `pos` on, in document order. An anchor is
/// the text from `<a ` up to the next `>`, its inner text running to the
/// following `</a`; an unclosed anchor ends the scan with empty inner text.
pub open spec fn scan_anchors(s: Seq<char>, pos: int) -> Seq<AnchorV>
    decreases s.len() - pos,
        when 0 <= pos <= s.len()
{
    match spec_find(s, "<a "@, pos) {
        None => Seq::empty(),
        Some(i) => match spec_find(s, gt(), i) {
            None => Seq::empty(),
            Some(e) => if pos <= i && i <= e && e < s.len() {
                match spec_find(s, "</a"@, e + 1) {
                    None => seq![anchor_of(s.subrange(i, e), Seq::empty())],
                    Some(b) => if e + 1 <= b && b < s.len() {
                        seq![anchor_of(s.subrange(i, e), s.subrange(e + 1, b))] + scan_anchors(
                            s,
                            b + 1,
                        )
                    } else {
                        seq![anchor_of(s.subrange(i, e), Seq::empty())]
                    },
                }
            } else {
                Seq::empty()
            },
        },
    }
}

fn scan_anchors_exec(s: &Vec<char>) -> (r: Vec<Anchor>)
    ensures
        r@.map_values(|a: Anchor| av(a)) == scan_anchors(s@, 0),
{
    let ghost full = scan_anchors(s@, 0);
    let n = s.len();
    let ap = chars_of("<a ");
    let gv = gt_vec();
    let cp = chars_of("</a");
    let mut out: Vec<Anchor> = Vec::new();
    let mut pos: usize = 0;
    loop
        invariant_except_break
            scan_anchors(s@, pos as int) == full.skip(out@.len() as int),
        invariant
            n == s@.len(),
            pos <= s@.len(),
            ap@ == "<a "@,
            gv@ == gt(),
            cp@ == "</a"@,
            full == scan_anchors(s@, 0),
            out@.len() <= full.len(),
            forall|k: int| 0 <= k < out@.len() ==> av(#[trigger] out@[k]) == full[k],
        ensures
            out@.len() == full.len(),
            forall|k: int| 0 <= k < out@.len() ==> av(#[trigger] out@[k]) == full[k],
        decreases s@.len() - pos,
    {
        let ghost m = out@.len() as int;
        match find_from(s, &ap, pos) {
            None => {
                proof {
                    assert(full.skip(m) =~= Seq::<AnchorV>::empty());
                }
                break ;
            },
            Some(i) => {
                proof {
                    lemma_find_bounds(s@, "<a "@, pos as int, i as int);
                }
                match find_from(s, &gv, i) {
                    None => {
                        proof {
                            assert(full.skip(m) =~= Seq::<AnchorV>::empty());
                        }
                        break ;
                    },
                    Some(e) => {
                        proof {
                            lemma_find_bounds(s@, gt(), i as int, e as int);
                        }
                        let tag = copy_range(s, i, e);
                        match find_from(s, &cp, e + 1) {
                            None => {
                                let empty_text: Vec<char> = Vec::new();
                                let a = anchor_of_exec(&tag, empty_text);
                                proof {
                                    assert(pos <= i && i <= e && e < s@.len());
                                    assert(av(a) == anchor_of(
                                        s@.subrange(i as int, e as int),
                                        Seq::<char>::empty(),
                                    ));
                                    assert(scan_anchors(s@, pos as int) == seq![av(a)]);
                                    assert(full.skip(m) =~= seq![av(a)]);
                                    assert(full.skip(m).len() > 0);
                                    assert(full.skip(m)[0] == full[m]);
                                    assert(full[m] == av(a));
                                }
                                out.push(a);
                                break ;
                            },
                            Some(b) => {
                                proof {
                                    lemma_find_bounds(s@, "</a"@, e + 1, b as int);
                                    reveal_strlit("</a");
                                }
                                let text = copy_range(s, e + 1, b);
                                let a = anchor_of_exec(&tag, text);
                                proof {
                                    assert(spec_find(s@, "<a "@, pos as int) == Some(i as int));
                                    assert(spec_find(s@, gt(), i as int) == Some(e as int));
                                    assert(pos <= i && i <= e && e < s@.len());
                                    assert(spec_find(s@, "</a"@, e + 1) == Some(b as int));
                                    assert(e + 1 <= b && b < s@.len());
                                    assert(av(a) == anchor_of(
                                        s@.subrange(i as int, e as int),
                                        s@.subrange(e + 1, b as int),
                                    ));
                                    assert(scan_anchors(s@, pos as int) == seq![av(a)]
                                        + scan_anchors(s@, b + 1));
                                    assert(full.skip(m) == seq![av(a)] + scan_anchors(
                                        s@,
                                        b + 1,
                                    ));
                                    assert(full.skip(m).len() > 0);
                                    assert(full.skip(m)[0] == full[m]);
                                    assert(full[m] == av(a));
                                    assert(full.skip(m + 1) =~= scan_anchors(s@, b + 1)) by {
                                        assert forall|j: int|
                                            0 <= j < full.len() - (m + 1) implies #[trigger] full.skip(
                                            m + 1,
                                        )[j] == scan_anchors(s@, b + 1)[j] by {
                                            assert(full.skip(m)[j + 1] == full[m + 1 + j]);
                                        }
                                    };
                                }
                                out.push(a);
                                pos = b + 1;
                            },
                        }
                    },
                }
            },
        }
    }
    out
}

/// The right angle quote, a common "next page" marker.
pub open spec fn raquo() -> Seq<char> {
    seq!['\u{00BB}']
}

/// The pagination selectors, in priority order: `rel` naming next, a class
/// naming next, inner text saying Next/next or the angle-quote marker, an
/// ARIA label saying Next, and a pagination class. Only anchors with an
/// `href` count.
pub open spec fn anchor_sel(a: AnchorV, sel: int) -> bool {
    a.href is Some && (if sel == 0 {
        a.rel matches Some(v) && spec_contains(v, "next"@)
    } else if sel == 1 {
        a.class matches Some(v) && spec_contains(v, "next"@)
    } else if sel == 2 {
        spec_contains(a.text, "Next"@) || spec_contains(a.text, "next"@) || spec_contains(
            a.text,
            raquo(),
        )
    } else if sel == 3 {
        a.aria matches Some(v) && spec_contains(v, "Next"@)
    } else {
        a.class matches Some(v) && spec_contains(v, "pagination"@)
    })
}

fn anchor_sel_exec(a: &Anchor, sel: u8) -> (r: bool)
    ensures
        r == anchor_sel(av(*a), sel as int),
{
    if a.href.is_none() {
        return false;
    }
    if sel == 0 {
        match &a.rel {
            Some(v) => {
                let p = chars_of("next");
                contains_pat(v, &p)
            },
            None => false,
        }
    } else if sel == 1 {
        match &a.class {
            Some(v) => {
                let p = chars_of("next");
                contains_pat(v, &p)
            },
            None => false,
        }
    } else if sel == 2 {
        let p1 = chars_of("Next");
        let p2 = chars_of("next");
        let p3 = raquo_vec();
        contains_pat(&a.text, &p1) || contains_pat(&a.text, &p2) || contains_pat(&a.text, &p3)
    } else if sel == 3 {
        match &a.aria {
            Some(v) => {
                let p = chars_of("Next");
                contains_pat(v, &p)
            },
            None => false,
        }
    } else {
        match &a.class {
            Some(v) => {
                let p = chars_of("pagination");
                contains_pat(v, &p)
            },
            None => false,
        }
    }
}

fn raquo_vec() -> (r: Vec<char>)
    ensures
        r@ == raquo(),
{
    let mut v: Vec<char> = Vec::new();
    v.push('\u{00BB}');
    proof {
        assert(v@ =~= raquo());
    }
    v
}

/// The first anchor at or after `k` that the selector accepts.
pub open spec fn first_match_from(anchors: Seq<AnchorV>, sel: int, k: int) -> Option<AnchorV>
    decreases anchors.len() - k,
        when 0 <= k
{
    if k >= anchors.len() {
        None
    } else if anchor_sel(anchors[k], sel) {
        Some(anchors[k])
    } else {
        first_match_from(anchors, sel, k + 1)
    }
}

/// The last anchor before `k` that the selector accepts.
pub open spec fn last_match_upto(anchors: Seq<AnchorV>, sel: int, k: int) -> Option<AnchorV>
    decreases k,
        when k <= anchors.len()
{
    if k <= 0 {
        None
    } else if anchor_sel(anchors[k - 1], sel) {
        Some(anchors[k - 1])
    } else {
        last_match_upto(anchors, sel, k - 1)
    }
}

fn first_sel(anchors: &Vec<Anchor>, sel: u8) -> (r: Option<usize>)
    ensures
        ({
            let avs = anchors@.map_values(|a: Anchor| av(a));
            match r {
                Some(idx) => idx < anchors@.len() && first_match_from(avs, sel as int, 0)
                    == Some(avs[idx as int]),
                None => first_match_from(avs, sel as int, 0) is None,
            }
        }),
{
    let ghost avs = anchors@.map_values(|a: Anchor| av(a));
    let mut k: usize = 0;
    while k < anchors.len()
        invariant
            k <= anchors@.len(),
            avs == anchors@.map_values(|a: Anchor| av(a)),
            avs.len() == anchors@.len(),
            first_match_from(avs, sel as int, 0) == first_match_from(avs, sel as int, k as int),
        decreases anchors@.len() - k,
    {
        proof {
            assert(avs[k as int] == av(anchors@[k as int]));
        }
        if anchor_sel_exec(&anchors[k], sel) {
            return Some(k);
        }
        k += 1;
    }
    None
}

fn last_sel(anchors: &Vec<Anchor>, sel: u8) -> (r: Option<usize>)
    ensures
        ({
            let avs = anchors@.map_values(|a: Anchor| av(a));
            match r {
                Some(idx) => idx < anchors@.len() && last_match_upto(
                    avs,
                    sel as int,
                    avs.len() as int,
                ) == Some(avs[idx as int]),
                None => last_match_upto(avs, sel as int, avs.len() as int) is None,
            }
        }),
{
    let ghost avs = anchors@.map_values(|a: Anchor| av(a));
    let mut k: usize = anchors.len();
    while k > 0
        invariant
            k <= anchors@.len(),
            avs == anchors@.map_values(|a: Anchor| av(a)),
            avs.len() == anchors@.len(),
            last_match_upto(avs, sel as int, avs.len() as int) == last_match_upto(
                avs,
                sel as int,
                k as int,
            ),
        decreases k,
    {
        proof {
            assert(avs[k - 1] == av(anchors@[k - 1]));
        }
        if anchor_sel_exec(&anchors[k - 1], sel) {
            return Some(k - 1);
        }
        k -= 1;
    }
    None
}

/// The anchor the pagination probe settles on: the first hit of the first
/// selector that hits at all, except that the pagination-class selector takes
/// the last hit. A page's pagination list is read as the anchors whose own
/// class names pagination, the last of which is taken.
pub open spec fn selected_anchor(anchors: Seq<AnchorV>) -> Option<AnchorV> {
    if first_match_from(anchors, 0, 0) is Some {
        first_match_from(anchors, 0, 0)
    } else if first_match_from(anchors, 1, 0) is Some {
        first_match_from(anchors, 1, 0)
    } else if first_match_from(anchors, 2, 0) is Some {
        first_match_from(anchors, 2, 0)
    } else if first_match_from(anchors, 3, 0) is Some {
        first_match_from(anchors, 3, 0)
    } else {
        last_match_upto(anchors, 4, anchors.len() as int)
    }
}

/// How the selected anchor's href resolves: an absolute href stands as it
/// is, anything else is resolved against the current URL.
pub open spec fn resolved_href(a: AnchorV, current: Seq<char>) -> Option<Seq<char>> {
    match a.href {
        Some(h) => if starts_with(h, http_pre()) || starts_with(h, https_pre()) {
            Some(h)
        } else {
            url_joined(current, h)
        },
        None => None,
    }
}

/// The next-page URL of a page: the selected pagination anchor's href,
/// resolved against the current URL.
pub open spec fn spec_next_url(html: Seq<char>, current: Seq<char>) -> Option<Seq<char>> {
    match selected_anchor(scan_anchors(html, 0)) {
        None => None,
        Some(a) => resolved_href(a, current),
    }
}

fn resolve_href(a: &Anchor, current: &str) -> (r: Option<String>)
    ensures
        os(r) == resolved_href(av(*a), current@),
{
    match &a.href {
        Some(h) => {
            let hp = chars_of("http://");
            let hsp = chars_of("https://");
            if starts_with_exec(h, &hp) || starts_with_exec(h, &hsp) {
                Some(string_of(h))
            } else {
                let hs = string_of(h);
                url_join(current, hs.as_str())
            }
        },
        None => None,
    }
}

/// Probes the page for a pagination link and resolves it against the current
/// URL.
pub fn find_next_page_url(html: &str, current_url: &str) -> (r: Option<String>)
    ensures
        os(r) == spec_next_url(html@, current_url@),
{
    let hv = chars_of(html);
    let anchors = scan_anchors_exec(&hv);
    match first_sel(&anchors, 0) {
        Some(idx) => resolve_href(&anchors[idx], current_url),
        None => match first_sel(&anchors, 1) {
            Some(idx) => resolve_href(&anchors[idx], current_url),
            None => match first_sel(&anchors, 2) {
                Some(idx) => resolve_href(&anchors[idx], current_url),
                None => match first_sel(&anchors, 3) {
                    Some(idx) => resolve_href(&anchors[idx], current_url),
                    None => match last_sel(&anchors, 4) {
                        Some(idx) => resolve_href(&anchors[idx], current_url),
                        None => None,
                    },
                },
            },
        },
    }
}

} // verus!
