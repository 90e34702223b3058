//! Keyword scoring: case-insensitive occurrence search, context windows
//! around each occurrence, and the relevance heuristic.
//!
//! Case folding is ASCII: letters `A`..`Z` compare equal to their lower-case
//! forms, and all other characters compare exactly.

use vstd::prelude::*;
use crate::text::{
    chars_of, copy_range, lower_seq, occurrences, push_all, spec_count, spec_occurrences,
    string_of, to_lower,
};

verus! {

/// One keyword's aggregated result for one page: the keyword as requested,
/// the joined context windows (raw and cleaned forms), the occurrence count,
/// the relevance score in 0..=100, and the page URL.
#[derive(Debug)]
pub struct KeywordMatch {
    pub keyword: String,
    pub context: String,
    pub cleaned_text: String,
    pub count: usize,
    pub relevance_score: u32,
    pub source_url: String,
}

/// The mathematical shadow of `KeywordMatch`.
#[verifier::ext_equal]
pub ghost struct KeywordMatchV {
    pub keyword: Seq<char>,
    pub context: Seq<char>,
    pub cleaned_text: Seq<char>,
    pub count: int,
    pub relevance_score: int,
    pub source_url: Seq<char>,
}

pub open spec fn km_view(m: KeywordMatch) -> KeywordMatchV {
    KeywordMatchV {
        keyword: m.keyword@,
        context: m.context@,
        cleaned_text: m.cleaned_text@,
        count: m.count as int,
        relevance_score: m.relevance_score as int,
        source_url: m.source_url@,
    }
}

// ---------------------------------------------------------------------------
// context windows
// ---------------------------------------------------------------------------

/// The window of 50 characters before and after the occurrence at `p`,
/// clamped to the content bounds.
pub open spec fn spec_window(content: Seq<char>, p: int, klen: int) -> Seq<char> {
    let lo = if p >= 50 {
        p - 50
    } else {
        0
    };
    let hi = if p + klen + 50 <= content.len() {
        p + klen + 50
    } else {
        content.len() as int
    };
    content.subrange(lo, hi)
}

/// The separator between joined context windows.
pub open spec fn ctx_sep() -> Seq<char> {
    " ... "@
}

/// The context windows of the occurrences `ps[from..]`, joined with the
/// separator.
pub open spec fn spec_windows_from(
    content: Seq<char>,
    ps: Seq<int>,
    from: int,
    klen: int,
) -> Seq<char>
    decreases ps.len() - from,
        when from >= 0
{
    if from >= ps.len() {
        Seq::empty()
    } else if from == ps.len() - 1 {
        spec_window(content, ps[from], klen)
    } else {
        spec_window(content, ps[from], klen) + ctx_sep() + spec_windows_from(
            content,
            ps,
            from + 1,
            klen,
        )
    }
}

fn ctx_sep_vec() -> (r: Vec<char>)
    ensures
        r@ == ctx_sep(),
{
    chars_of(" ... ")
}

fn windows_join(
    content: &Vec<char>,
    positions: &Vec<usize>,
    from: usize,
    klen: usize,
    Ghost(ps): Ghost<Seq<int>>,
) -> (r: Vec<char>)
    requires
        from <= positions@.len(),
        ps.len() == positions@.len(),
        forall|k: int| 0 <= k < ps.len() ==> ps[k] == #[trigger] positions@[k] as int,
        forall|k: int| 0 <= k < positions@.len() ==> #[trigger] positions@[k] + klen
            <= content@.len(),
    ensures
        r@ == spec_windows_from(content@, ps, from as int, klen as int),
    decreases positions@.len() - from,
{
    let n = content.len();
    if from >= positions.len() {
        Vec::new()
    } else {
        let p = positions[from];
        let lo = if p >= 50 {
            p - 50
        } else {
            0
        };
        let hi = if n - (p + klen) >= 50 {
            p + klen + 50
        } else {
            n
        };
        let w = copy_range(content, lo, hi);
        proof {
            assert(w@ == spec_window(content@, ps[from as int], klen as int));
        }
        if from == positions.len() - 1 {
            w
        } else {
            let rest = windows_join(content, positions, from + 1, klen, Ghost(ps));
            let mut r = w;
            let sep = ctx_sep_vec();
            push_all(&mut r, &sep);
            push_all(&mut r, &rest);
            r
        }
    }
}

// ---------------------------------------------------------------------------
// the relevance heuristic
// ---------------------------------------------------------------------------

/// The relevance heuristic over plain numbers: occurrence density per 100
/// characters of context, weighted 0.7, plus a 0.3 bonus when the keyword
/// shows up in the first third of the context, everything scaled by 10 and
/// capped at 100. In integers: `min(100, 700*count/len + (early ? 3 : 0))`.
pub open spec fn spec_score(count: int, early: bool, ctx_len: int) -> int {
    if count <= 0 || ctx_len <= 0 {
        0
    } else {
        let bonus: int = if early {
            3
        } else {
            0
        };
        let raw = 700 * count / ctx_len + bonus;
        if raw > 100 {
            100
        } else {
            raw
        }
    }
}

/// The relevance of a keyword within a context text: occurrences are counted
/// case-insensitively, and the bonus fires when the first occurrence lies in
/// the first third of the context.
pub open spec fn spec_relevance(kw: Seq<char>, ctx: Seq<char>) -> int {
    if kw.len() == 0 {
        0
    } else {
        let occ = spec_occurrences(lower_seq(ctx), lower_seq(kw), 0);
        let early = occ.len() > 0 && occ[0] * 3 < ctx.len();
        spec_score(occ.len() as int, early, ctx.len() as int)
    }
}

/// Law: the relevance score is monotone in the occurrence count. For one
/// context length, more occurrences (with the early-occurrence bonus kept)
/// never score lower; in particular doubling the occurrences in an
/// otherwise-identical context never decreases the score.
pub proof fn lemma_score_monotone(c1: int, c2: int, e1: bool, e2: bool, len: int)
    requires
        0 <= c1 <= c2,
        0 < len,
        e1 ==> e2,
    ensures
        spec_score(c1, e1, len) <= spec_score(c2, e2, len),
{
    if c1 > 0 {
        vstd::arithmetic::div_mod::lemma_div_is_ordered(700 * c1, 700 * c2, len);
        vstd::arithmetic::div_mod::lemma_div_pos_is_pos(700 * c1, len);
    }
}

/// Computes the relevance score of a keyword against a context.
pub fn calculate_relevance_score(keyword: &str, context: &str) -> (r: u32)
    ensures
        r as int == spec_relevance(keyword@, context@),
        r <= 100,
{
    let kchars = chars_of(keyword);
    if kchars.len() == 0 {
        return 0;
    }
    let cchars = chars_of(context);
    let k = to_lower(&kchars);
    let c = to_lower(&cchars);
    let occ = occurrences(&c, &k);
    let count = occ.len();
    if count == 0 {
        return 0;
    }
    let early = (occ[0] as u128) * 3 < (c.len() as u128);
    let raw: u128 = 700u128 * (count as u128) / (c.len() as u128) + if early {
        3
    } else {
        0
    };
    if raw > 100 {
        100
    } else {
        raw as u32
    }
}

// ---------------------------------------------------------------------------
// one keyword against one page
// ---------------------------------------------------------------------------

/// What matching one keyword against one page's content yields: nothing when
/// the keyword is empty or absent, else the aggregated match with joined
/// context windows and the relevance of the keyword within that joined
/// context.
pub open spec fn spec_keyword_match(kw: Seq<char>, content: Seq<char>, url: Seq<char>) -> Option<
    KeywordMatchV,
> {
    if kw.len() == 0 {
        None
    } else {
        let occ = spec_occurrences(lower_seq(content), lower_seq(kw), 0);
        if occ.len() == 0 {
            None
        } else {
            let ctx = spec_windows_from(content, occ, 0, kw.len() as int);
            Some(
                KeywordMatchV {
                    keyword: kw,
                    context: ctx,
                    cleaned_text: ctx,
                    count: occ.len() as int,
                    relevance_score: spec_relevance(kw, ctx),
                    source_url: url,
                },
            )
        }
    }
}

/// Matches one keyword against one page's (already cleaned) content.
pub fn keyword_match(keyword: &String, content: &Vec<char>, url: &String) -> (r: Option<
    KeywordMatch,
>)
    ensures
        match r {
            Some(m) => spec_keyword_match(keyword@, content@, url@) == Some(km_view(m))
                && m.relevance_score <= 100 && m.count > 0,
            None => spec_keyword_match(keyword@, content@, url@) is None,
        },
{
    let kchars = chars_of(keyword.as_str());
    if kchars.len() == 0 {
        return None;
    }
    let k = to_lower(&kchars);
    let c = to_lower(content);
    let occ = occurrences(&c, &k);
    if occ.len() == 0 {
        return None;
    }
    let ghost ps = spec_occurrences(c@, k@, 0);
    proof {
        assert(c@.len() == content@.len());
        assert(k@.len() == kchars@.len());
    }
    let ctx = windows_join(content, &occ, 0, kchars.len(), Ghost(ps));
    let context = string_of(&ctx);
    let cleaned_text = string_of(&ctx);
    let relevance_score = calculate_relevance_score(keyword.as_str(), context.as_str());
    let m = KeywordMatch {
        keyword: keyword.clone(),
        context,
        cleaned_text,
        count: occ.len(),
        relevance_score,
        source_url: url.clone(),
    };
    proof {
        let v = spec_keyword_match(keyword@, content@, url@);
        assert(v matches Some(w) && w =~= km_view(m));
    }
    Some(m)
}

/// The matches of one page: for each keyword from index `k` on, in request
/// order, the aggregated match when the keyword occurs in the content.
pub open spec fn spec_page_matches_from(
    keywords: Seq<Seq<char>>,
    k: int,
    content: Seq<char>,
    url: Seq<char>,
) -> Seq<KeywordMatchV>
    decreases keywords.len() - k,
        when k >= 0
{
    if k >= keywords.len() {
        Seq::empty()
    } else {
        (match spec_keyword_match(keywords[k], content, url) {
            Some(v) => seq![v],
            None => Seq::empty(),
        }) + spec_page_matches_from(keywords, k + 1, content, url)
    }
}

/// The matches of one page's first `kk` keywords, in request order: the
/// aggregated match of each keyword among them that occurs in the content.
pub open spec fn spec_page_matches_upto(
    keywords: Seq<Seq<char>>,
    kk: int,
    content: Seq<char>,
    url: Seq<char>,
) -> Seq<KeywordMatchV>
    decreases kk,
        when kk <= keywords.len()
{
    if kk <= 0 {
        Seq::empty()
    } else {
        spec_page_matches_upto(keywords, kk - 1, content, url) + (match spec_keyword_match(
            keywords[kk - 1],
            content,
            url,
        ) {
            Some(v) => seq![v],
            None => Seq::empty(),
        })
    }
}

/// The matches of the first `kk` keywords and of the rest together make the
/// page's matches.
pub proof fn lemma_page_matches_split(
    keywords: Seq<Seq<char>>,
    kk: int,
    content: Seq<char>,
    url: Seq<char>,
)
    requires
        0 <= kk <= keywords.len(),
    ensures
        spec_page_matches_upto(keywords, kk, content, url) + spec_page_matches_from(
            keywords,
            kk,
            content,
            url,
        ) == spec_page_matches_from(keywords, 0, content, url),
    decreases kk,
{
    if kk == 0 {
        assert(spec_page_matches_upto(keywords, 0, content, url) + spec_page_matches_from(
            keywords,
            0,
            content,
            url,
        ) =~= spec_page_matches_from(keywords, 0, content, url));
    } else {
        lemma_page_matches_split(keywords, kk - 1, content, url);
        let item = match spec_keyword_match(keywords[kk - 1], content, url) {
            Some(v) => seq![v],
            None => Seq::<KeywordMatchV>::empty(),
        };
        assert(spec_page_matches_from(keywords, kk - 1, content, url) == item
            + spec_page_matches_from(keywords, kk, content, url));
        assert((spec_page_matches_upto(keywords, kk - 1, content, url) + item)
            + spec_page_matches_from(keywords, kk, content, url) =~= spec_page_matches_upto(
            keywords,
            kk - 1,
            content,
            url,
        ) + (item + spec_page_matches_from(keywords, kk, content, url)));
    }
}

/// Counts the case-insensitive occurrences of a keyword in a content text.
pub fn count_occurrences(keyword: &String, content: &Vec<char>) -> (r: usize)
    ensures
        r == spec_count(lower_seq(content@), lower_seq(keyword@)),
{
    let kchars = chars_of(keyword.as_str());
    if kchars.len() == 0 {
        return 0;
    }
    let k = to_lower(&kchars);
    let c = to_lower(content);
    let occ = occurrences(&c, &k);
    occ.len()
}

/// The note appended to a context cut short by the time budget.
pub open spec fn trunc_marker() -> Seq<char> {
    " ... [scan cut short by the time budget]"@
}

/// A keyword match built from only the first `done` occurrences, its context
/// ending in the truncation note: what a scan interrupted by the time budget
/// leaves behind. Nothing is left when no occurrence was reached.
pub open spec fn spec_keyword_match_partial(
    kw: Seq<char>,
    content: Seq<char>,
    url: Seq<char>,
    done: int,
) -> Option<KeywordMatchV> {
    if kw.len() == 0 {
        None
    } else {
        let occ = spec_occurrences(lower_seq(content), lower_seq(kw), 0);
        let n = if done <= occ.len() {
            done
        } else {
            occ.len() as int
        };
        if n <= 0 {
            None
        } else {
            let ctx = spec_windows_from(content, occ.take(n), 0, kw.len() as int)
                + trunc_marker();
            Some(
                KeywordMatchV {
                    keyword: kw,
                    context: ctx,
                    cleaned_text: ctx,
                    count: n,
                    relevance_score: spec_relevance(kw, ctx),
                    source_url: url,
                },
            )
        }
    }
}

/// Builds the partial match that a budget-interrupted scan preserves: the
/// first `done` occurrences, their context windows joined and marked as cut
/// short.
pub fn keyword_match_partial(
    keyword: &String,
    content: &Vec<char>,
    url: &String,
    done: usize,
) -> (r: Option<KeywordMatch>)
    ensures
        match r {
            Some(m) => spec_keyword_match_partial(keyword@, content@, url@, done as int) == Some(
                km_view(m),
            ) && m.relevance_score <= 100 && m.count > 0,
            None => spec_keyword_match_partial(keyword@, content@, url@, done as int) is None,
        },
{
    let kchars = chars_of(keyword.as_str());
    if kchars.len() == 0 {
        return None;
    }
    let k = to_lower(&kchars);
    let c = to_lower(content);
    let occ = occurrences(&c, &k);
    let n = if done <= occ.len() {
        done
    } else {
        occ.len()
    };
    if n == 0 {
        return None;
    }
    let ghost ps = spec_occurrences(c@, k@, 0);
    let mut prefix: Vec<usize> = Vec::new();
    let mut j: usize = 0;
    while j < n
        invariant
            n <= occ@.len(),
            j <= n,
            prefix@.len() == j,
            forall|t: int| 0 <= t < j ==> prefix@[t] == #[trigger] occ@[t],
        decreases n - j,
    {
        let p = occ[j];
        prefix.push(p);
        j += 1;
    }
    proof {
        assert(c@.len() == content@.len());
        assert(k@.len() == kchars@.len());
        assert forall|t: int| 0 <= t < prefix@.len() implies #[trigger] prefix@[t] as int
            == ps.take(n as int)[t] by {
            assert(occ@[t] as int == ps[t]);
        }
        assert(ps.take(n as int).len() == n);
        assert forall|t: int| 0 <= t < prefix@.len() implies #[trigger] prefix@[t] + kchars@.len()
            <= content@.len() by {
            assert(occ@[t] + k@.len() <= c@.len());
        }
    }
    let core = windows_join(content, &prefix, 0, kchars.len(), Ghost(ps.take(n as int)));
    let mut ctx_chars = core;
    let marker = chars_of(" ... [scan cut short by the time budget]");
    push_all(&mut ctx_chars, &marker);
    let context = string_of(&ctx_chars);
    let cleaned_text = string_of(&ctx_chars);
    let relevance_score = calculate_relevance_score(keyword.as_str(), context.as_str());
    let m = KeywordMatch {
        keyword: keyword.clone(),
        context,
        cleaned_text,
        count: n,
        relevance_score,
        source_url: url.clone(),
    };
    proof {
        let v = spec_keyword_match_partial(keyword@, content@, url@, done as int);
        assert(v matches Some(w) && w =~= km_view(m));
    }
    Some(m)
}

} // verus!
