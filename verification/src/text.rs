//! Verified text toolkit: substring search over character sequences, ASCII
//! case folding, trimming, line tidying, and decimal rendering.
//!
//! All executable routines work on `Vec<char>` so that every index the code
//! touches is a character index of the mathematical view (`Seq<char>`).

use vstd::prelude::*;

verus! {

// ---------------------------------------------------------------------------
// chars <-> strings
// ---------------------------------------------------------------------------

/// The characters of a string slice, as a vector with the same view.
pub fn chars_of(s: &str) -> (r: Vec<char>)
    ensures
        r@ == s@,
{
    let n = s.unicode_len();
    let mut r: Vec<char> = Vec::new();
    let mut i: usize = 0;
    while i < n
        invariant
            n == s@.len(),
            i <= n,
            r@ == s@.subrange(0, i as int),
        decreases n - i,
    {
        let c = s.get_char(i);
        r.push(c);
        proof {
            assert(s@.subrange(0, i as int).push(s@[i as int]) =~= s@.subrange(0, i + 1));
        }
        i += 1;
    }
    proof {
        assert(s@.subrange(0, n as int) =~= s@);
    }
    r
}

/// Relies on `String`'s `FromIterator<char>` impl: collecting characters
/// yields the string holding exactly those characters in order.
#[verifier::external_body]
pub(crate) fn string_of(chars: &Vec<char>) -> (r: String)
    ensures
        r@ == chars@,
{
    chars.iter().collect()
}

// ---------------------------------------------------------------------------
// substring search
// ---------------------------------------------------------------------------

/// `pat` occurs in `hay` starting at position `i`.
pub open spec fn match_at(hay: Seq<char>, pat: Seq<char>, i: int) -> bool {
    &&& 0 <= i
    &&& i + pat.len() <= hay.len()
    &&& forall|k: int| 0 <= k < pat.len() ==> hay[i + k] == #[trigger] pat[k]
}

/// The first position at or after `from` where `pat` occurs in `hay`.
pub open spec fn spec_find(hay: Seq<char>, pat: Seq<char>, from: int) -> Option<int>
    decreases hay.len() - from,
        when from >= 0
{
    if from + pat.len() > hay.len() {
        None
    } else if match_at(hay, pat, from) {
        Some(from)
    } else {
        spec_find(hay, pat, from + 1)
    }
}

/// What a successful search means: a match at the found position and none
/// before it.
pub proof fn lemma_find_bounds(hay: Seq<char>, pat: Seq<char>, from: int, i: int)
    requires
        from >= 0,
        spec_find(hay, pat, from) == Some(i),
    ensures
        from <= i,
        i + pat.len() <= hay.len(),
        match_at(hay, pat, i),
        forall|j: int| from <= j < i ==> !match_at(hay, pat, j),
    decreases hay.len() - from,
{
    if from + pat.len() > hay.len() {
    } else if match_at(hay, pat, from) {
    } else {
        lemma_find_bounds(hay, pat, from + 1, i);
    }
}

fn match_at_exec(hay: &Vec<char>, pat: &Vec<char>, i: usize) -> (r: bool)
    requires
        i + pat@.len() <= hay@.len(),
    ensures
        r == match_at(hay@, pat@, i as int),
{
    let hn = hay.len();
    let mut j: usize = 0;
    while j < pat.len()
        invariant
            hn == hay@.len(),
            i + pat@.len() <= hay@.len(),
            j <= pat@.len(),
            forall|k: int| 0 <= k < j ==> hay@[i + k] == #[trigger] pat@[k],
        decreases pat@.len() - j,
    {
        if hay[i + j] != pat[j] {
            return false;
        }
        j += 1;
    }
    true
}

/// The first occurrence of `pat` in `hay` at or after `from`.
pub fn find_from(hay: &Vec<char>, pat: &Vec<char>, from: usize) -> (r: Option<usize>)
    ensures
        match r {
            Some(i) => spec_find(hay@, pat@, from as int) == Some(i as int),
            None => spec_find(hay@, pat@, from as int) is None,
        },
{
    if pat.len() > hay.len() {
        return None;
    }
    let last = hay.len() - pat.len();
    let mut i = from;
    if i > last {
        return None;
    }
    while i <= last
        invariant
            pat@.len() <= hay@.len(),
            last == hay@.len() - pat@.len(),
            from <= i,
            i <= last + 1,
            spec_find(hay@, pat@, from as int) == spec_find(hay@, pat@, i as int),
        decreases last - i,
    {
        if match_at_exec(hay, pat, i) {
            return Some(i);
        }
        if i == last {
            proof {
                assert(spec_find(hay@, pat@, i as int) == spec_find(hay@, pat@, i + 1));
                assert(spec_find(hay@, pat@, i + 1) is None);
            }
            return None;
        }
        i += 1;
    }
    None
}

/// `pat` occurs somewhere in `hay`.
pub open spec fn spec_contains(hay: Seq<char>, pat: Seq<char>) -> bool {
    spec_find(hay, pat, 0) is Some
}

pub fn contains_pat(hay: &Vec<char>, pat: &Vec<char>) -> (r: bool)
    ensures
        r == spec_contains(hay@, pat@),
{
    find_from(hay, pat, 0).is_some()
}

/// `s` begins with `p`.
pub open spec fn starts_with(s: Seq<char>, p: Seq<char>) -> bool {
    match_at(s, p, 0)
}

pub fn starts_with_exec(s: &Vec<char>, p: &Vec<char>) -> (r: bool)
    ensures
        r == starts_with(s@, p@),
{
    if p.len() > s.len() {
        return false;
    }
    match_at_exec(s, p, 0)
}

// ---------------------------------------------------------------------------
// non-overlapping occurrences
// ---------------------------------------------------------------------------

/// Positions of the non-overlapping occurrences of `pat` in `hay`, scanning
/// left to right from `from`; after a match the scan resumes past it.
pub open spec fn spec_occurrences(hay: Seq<char>, pat: Seq<char>, from: int) -> Seq<int>
    decreases hay.len() - from,
        when 0 <= from && pat.len() > 0
{
    match spec_find(hay, pat, from) {
        None => Seq::empty(),
        Some(i) => if from <= i && i + pat.len() <= hay.len() {
            seq![i] + spec_occurrences(hay, pat, i + pat.len())
        } else {
            Seq::empty()
        },
    }
}

/// Occurrence count of `pat` in `hay`.
pub open spec fn spec_count(hay: Seq<char>, pat: Seq<char>) -> nat {
    if pat.len() > 0 {
        spec_occurrences(hay, pat, 0).len()
    } else {
        0
    }
}

/// The positions of the non-overlapping occurrences of `pat` in `hay`.
pub fn occurrences(hay: &Vec<char>, pat: &Vec<char>) -> (r: Vec<usize>)
    requires
        pat@.len() > 0,
    ensures
        r@.len() == spec_occurrences(hay@, pat@, 0).len(),
        forall|k: int| 0 <= k < r@.len() ==> r@[k] as int == #[trigger] spec_occurrences(
            hay@,
            pat@,
            0,
        )[k],
        forall|k: int| 0 <= k < r@.len() ==> #[trigger] r@[k] + pat@.len() <= hay@.len(),
{
    let ghost full = spec_occurrences(hay@, pat@, 0);
    let hn = hay.len();
    let mut out: Vec<usize> = Vec::new();
    let mut pos: usize = 0;
    loop
        invariant
            hn == hay@.len(),
            pat@.len() > 0,
            pos <= hay@.len(),
            out@.len() <= full.len(),
            full == spec_occurrences(hay@, pat@, 0),
            spec_occurrences(hay@, pat@, pos as int) == full.skip(out@.len() as int),
            forall|k: int| 0 <= k < out@.len() ==> out@[k] as int == full[k],
            forall|k: int| 0 <= k < out@.len() ==> #[trigger] out@[k] + pat@.len()
                <= hay@.len(),
        ensures
            out@.len() == full.len(),
            forall|k: int| 0 <= k < out@.len() ==> out@[k] as int == full[k],
            forall|k: int| 0 <= k < out@.len() ==> #[trigger] out@[k] + pat@.len()
                <= hay@.len(),
        decreases hay@.len() - pos,
    {
        let ghost m = out@.len() as int;
        match find_from(hay, pat, pos) {
            None => {
                proof {
                    assert(full.skip(m) =~= Seq::<int>::empty());
                    assert(out@.len() == full.len());
                }
                break ;
            },
            Some(i) => {
                proof {
                    lemma_find_bounds(hay@, pat@, pos as int, i as int);
                    assert(full.skip(m) == seq![i as int] + spec_occurrences(
                        hay@,
                        pat@,
                        i + pat@.len(),
                    ));
                    assert(full.skip(m).len() > 0);
                    assert(full[m] == full.skip(m)[0]);
                    assert(full[m] == i as int);
                    assert(full.skip(m + 1) =~= spec_occurrences(hay@, pat@, i + pat@.len()))
                        by {
                        assert forall|j: int| 0 <= j < full.len() - (m + 1) implies #[trigger] full.skip(
                            m + 1,
                        )[j] == spec_occurrences(hay@, pat@, i + pat@.len())[j] by {
                            assert(full.skip(m)[j + 1] == full[m + 1 + j]);
                        }
                    };
                }
                out.push(i);
                pos = i + pat.len();
            },
        }
    }
    out
}

// ---------------------------------------------------------------------------
// ASCII case folding
// ---------------------------------------------------------------------------

/// ASCII lower-casing of one character; anything but `'A'..='Z'` is kept.
pub open spec fn lower_char(c: char) -> char {
    match c {
        'A' => 'a',
        'B' => 'b',
        'C' => 'c',
        'D' => 'd',
        'E' => 'e',
        'F' => 'f',
        'G' => 'g',
        'H' => 'h',
        'I' => 'i',
        'J' => 'j',
        'K' => 'k',
        'L' => 'l',
        'M' => 'm',
        'N' => 'n',
        'O' => 'o',
        'P' => 'p',
        'Q' => 'q',
        'R' => 'r',
        'S' => 's',
        'T' => 't',
        'U' => 'u',
        'V' => 'v',
        'W' => 'w',
        'X' => 'x',
        'Y' => 'y',
        'Z' => 'z',
        _ => c,
    }
}

pub open spec fn lower_seq(s: Seq<char>) -> Seq<char> {
    s.map_values(|c: char| lower_char(c))
}

fn lower_char_exec(c: char) -> (r: char)
    ensures
        r == lower_char(c),
{
    match c {
        'A' => 'a',
        'B' => 'b',
        'C' => 'c',
        'D' => 'd',
        'E' => 'e',
        'F' => 'f',
        'G' => 'g',
        'H' => 'h',
        'I' => 'i',
        'J' => 'j',
        'K' => 'k',
        'L' => 'l',
        'M' => 'm',
        'N' => 'n',
        'O' => 'o',
        'P' => 'p',
        'Q' => 'q',
        'R' => 'r',
        'S' => 's',
        'T' => 't',
        'U' => 'u',
        'V' => 'v',
        'W' => 'w',
        'X' => 'x',
        'Y' => 'y',
        'Z' => 'z',
        _ => c,
    }
}

/// ASCII lower-casing of a whole text.
pub fn to_lower(s: &Vec<char>) -> (r: Vec<char>)
    ensures
        r@ == lower_seq(s@),
{
    let mut r: Vec<char> = Vec::new();
    let mut i: usize = 0;
    while i < s.len()
        invariant
            i <= s@.len(),
            r@.len() == i,
            forall|k: int| 0 <= k < i ==> r@[k] == lower_char(#[trigger] s@[k]),
        decreases s@.len() - i,
    {
        let c = lower_char_exec(s[i]);
        r.push(c);
        i += 1;
    }
    proof {
        assert(r@ =~= lower_seq(s@));
    }
    r
}

// ---------------------------------------------------------------------------
// trimming
// ---------------------------------------------------------------------------

/// ASCII whitespace.
pub open spec fn is_space(c: char) -> bool {
    c == ' ' || c == '\t' || c == '\r' || c == '\n'
}

fn is_space_exec(c: char) -> (r: bool)
    ensures
        r == is_space(c),
{
    c == ' ' || c == '\t' || c == '\r' || c == '\n'
}

pub open spec fn trim_front(s: Seq<char>) -> Seq<char>
    decreases s.len(),
{
    if s.len() > 0 && is_space(s[0]) {
        trim_front(s.drop_first())
    } else {
        s
    }
}

pub open spec fn trim_back(s: Seq<char>) -> Seq<char>
    decreases s.len(),
{
    if s.len() > 0 && is_space(s[s.len() - 1]) {
        trim_back(s.drop_last())
    } else {
        s
    }
}

/// Leading and trailing ASCII whitespace removed.
pub open spec fn spec_trim(s: Seq<char>) -> Seq<char> {
    trim_back(trim_front(s))
}

proof fn lemma_trim_front_range(s: Seq<char>, i: int)
    requires
        0 <= i <= s.len(),
        forall|k: int| 0 <= k < i ==> is_space(#[trigger] s[k]),
        i < s.len() ==> !is_space(s[i]),
    ensures
        trim_front(s) == s.subrange(i, s.len() as int),
    decreases i,
{
    if i == 0 {
        assert(s.subrange(0, s.len() as int) =~= s);
    } else {
        assert(is_space(s[0]));
        lemma_trim_front_range(s.drop_first(), i - 1);
        assert(s.drop_first().subrange(i - 1, s.len() - 1) =~= s.subrange(i, s.len() as int));
    }
}

proof fn lemma_trim_back_range(s: Seq<char>, j: int)
    requires
        0 <= j <= s.len(),
        forall|k: int| j <= k < s.len() ==> is_space(#[trigger] s[k]),
        j > 0 ==> !is_space(s[j - 1]),
    ensures
        trim_back(s) == s.subrange(0, j),
    decreases s.len(),
{
    if j == s.len() {
        if s.len() > 0 && is_space(s[s.len() - 1]) {
            lemma_trim_back_range(s.drop_last(), j - 1);
            assert(s.drop_last().subrange(0, j - 1) =~= s.subrange(0, j - 1));
            assert(s.subrange(0, j - 1) =~= s.drop_last());
        } else {
            assert(s.subrange(0, j) =~= s);
        }
    } else {
        assert(is_space(s[s.len() - 1]));
        lemma_trim_back_range(s.drop_last(), j);
        assert(s.drop_last().subrange(0, j) =~= s.subrange(0, j));
    }
}

/// A copy of `s[a..b]`.
pub fn copy_range(s: &Vec<char>, a: usize, b: usize) -> (r: Vec<char>)
    requires
        a <= b,
        b <= s@.len(),
    ensures
        r@ == s@.subrange(a as int, b as int),
{
    let mut r: Vec<char> = Vec::new();
    let mut i = a;
    while i < b
        invariant
            a <= i <= b,
            b <= s@.len(),
            r@ == s@.subrange(a as int, i as int),
        decreases b - i,
    {
        let c = s[i];
        r.push(c);
        proof {
            assert(s@.subrange(a as int, i as int).push(s@[i as int]) =~= s@.subrange(
                a as int,
                i + 1,
            ));
        }
        i += 1;
    }
    r
}

/// `s[a..b]` with leading and trailing ASCII whitespace removed.
pub fn trim_range(s: &Vec<char>, a: usize, b: usize) -> (r: Vec<char>)
    requires
        a <= b,
        b <= s@.len(),
    ensures
        r@ == spec_trim(s@.subrange(a as int, b as int)),
{
    let mut lo = a;
    while lo < b && is_space_exec(s[lo])
        invariant
            a <= lo <= b,
            b <= s@.len(),
            forall|k: int| a <= k < lo ==> is_space(#[trigger] s@[k]),
        decreases b - lo,
    {
        lo += 1;
    }
    let mut hi = b;
    while hi > lo && is_space_exec(s[hi - 1])
        invariant
            lo <= hi <= b,
            b <= s@.len(),
            forall|k: int| hi <= k < b ==> is_space(#[trigger] s@[k]),
        decreases hi,
    {
        hi -= 1;
    }
    let r = copy_range(s, lo, hi);
    proof {
        let t = s@.subrange(a as int, b as int);
        lemma_trim_front_range(t, lo - a);
        assert(t.subrange(lo - a, t.len() as int) =~= s@.subrange(lo as int, b as int));
        let u = s@.subrange(lo as int, b as int);
        lemma_trim_back_range(u, hi - lo);
        assert(u.subrange(0, hi - lo) =~= s@.subrange(lo as int, hi as int));
    }
    r
}

// ---------------------------------------------------------------------------
// concatenation helper
// ---------------------------------------------------------------------------

/// Appends a copy of `src` to `dst`.
pub fn push_all(dst: &mut Vec<char>, src: &Vec<char>)
    ensures
        final(dst)@ == old(dst)@ + src@,
{
    let mut i: usize = 0;
    while i < src.len()
        invariant
            i <= src@.len(),
            dst@ == old(dst)@ + src@.subrange(0, i as int),
        decreases src@.len() - i,
    {
        let c = src[i];
        dst.push(c);
        proof {
            assert(old(dst)@ + src@.subrange(0, i as int).push(src@[i as int]) =~= old(dst)@
                + src@.subrange(0, i + 1));
        }
        i += 1;
    }
    proof {
        assert(old(dst)@ + src@.subrange(0, src@.len() as int) =~= old(dst)@ + src@);
    }
}

// ---------------------------------------------------------------------------
// line tidying
// ---------------------------------------------------------------------------

pub open spec fn nl() -> Seq<char> {
    seq!['\n']
}

fn nl_vec() -> (r: Vec<char>)
    ensures
        r@ == nl(),
{
    let mut v: Vec<char> = Vec::new();
    v.push('\n');
    proof {
        assert(v@ =~= nl());
    }
    v
}

/// The text from `pos` on, split at newlines, each line trimmed, empty lines
/// dropped, and the remaining lines joined with single newlines. `started`
/// says whether earlier output exists, so that a separator is owed first.
pub open spec fn spec_tidy_from(s: Seq<char>, pos: int, started: bool) -> Seq<char>
    decreases s.len() - pos,
        when 0 <= pos <= s.len()
{
    match spec_find(s, nl(), pos) {
        None => {
            let line = spec_trim(s.subrange(pos, s.len() as int));
            if line.len() == 0 {
                Seq::empty()
            } else if started {
                nl() + line
            } else {
                line
            }
        },
        Some(i) => if pos <= i && i < s.len() {
            let line = spec_trim(s.subrange(pos, i));
            if line.len() == 0 {
                spec_tidy_from(s, i + 1, started)
            } else if started {
                nl() + line + spec_tidy_from(s, i + 1, true)
            } else {
                line + spec_tidy_from(s, i + 1, true)
            }
        } else {
            Seq::empty()
        },
    }
}

/// Trimmed, blank-free, newline-joined form of a text.
pub open spec fn spec_tidy(s: Seq<char>) -> Seq<char> {
    spec_tidy_from(s, 0, false)
}

fn tidy_from(s: &Vec<char>, pos: usize, started: bool) -> (r: Vec<char>)
    requires
        pos <= s@.len(),
    ensures
        r@ == spec_tidy_from(s@, pos as int, started),
    decreases s@.len() - pos,
{
    let n = s.len();
    let nlv = nl_vec();
    match find_from(s, &nlv, pos) {
        None => {
            let line = trim_range(s, pos, s.len());
            if line.len() == 0 {
                Vec::new()
            } else if started {
                let mut r = nl_vec();
                push_all(&mut r, &line);
                r
            } else {
                line
            }
        },
        Some(i) => {
            proof {
                lemma_find_bounds(s@, nl(), pos as int, i as int);
            }
            let line = trim_range(s, pos, i);
            if line.len() == 0 {
                tidy_from(s, i + 1, started)
            } else if started {
                let rest = tidy_from(s, i + 1, true);
                let mut r = nl_vec();
                push_all(&mut r, &line);
                push_all(&mut r, &rest);
                r
            } else {
                let rest = tidy_from(s, i + 1, true);
                let mut r = line;
                push_all(&mut r, &rest);
                r
            }
        },
    }
}

/// Tidies a whole text: lines trimmed, blank lines dropped, the rest joined
/// with single newlines.
pub fn tidy_text(s: &Vec<char>) -> (r: Vec<char>)
    ensures
        r@ == spec_tidy(s@),
{
    tidy_from(s, 0, false)
}

// ---------------------------------------------------------------------------
// decimal rendering
// ---------------------------------------------------------------------------

pub open spec fn digit_char(d: int) -> char {
    if d == 0 {
        '0'
    } else if d == 1 {
        '1'
    } else if d == 2 {
        '2'
    } else if d == 3 {
        '3'
    } else if d == 4 {
        '4'
    } else if d == 5 {
        '5'
    } else if d == 6 {
        '6'
    } else if d == 7 {
        '7'
    } else if d == 8 {
        '8'
    } else {
        '9'
    }
}

/// The decimal digits of `n`, most significant first.
pub open spec fn spec_digits(n: int) -> Seq<char>
    decreases n,
        when n >= 0
{
    if n < 10 {
        seq![digit_char(n)]
    } else {
        spec_digits(n / 10) + seq![digit_char(n % 10)]
    }
}

fn digit_char_exec(d: u64) -> (r: char)
    requires
        d < 10,
    ensures
        r == digit_char(d as int),
{
    if d == 0 {
        '0'
    } else if d == 1 {
        '1'
    } else if d == 2 {
        '2'
    } else if d == 3 {
        '3'
    } else if d == 4 {
        '4'
    } else if d == 5 {
        '5'
    } else if d == 6 {
        '6'
    } else if d == 7 {
        '7'
    } else if d == 8 {
        '8'
    } else {
        '9'
    }
}

fn u64_digits(n: u64) -> (r: Vec<char>)
    ensures
        r@ == spec_digits(n as int),
    decreases n,
{
    if n < 10 {
        let mut v: Vec<char> = Vec::new();
        v.push(digit_char_exec(n));
        proof {
            assert(v@ =~= spec_digits(n as int));
        }
        v
    } else {
        let mut v = u64_digits(n / 10);
        v.push(digit_char_exec(n % 10));
        proof {
            assert(spec_digits((n / 10) as int).push(digit_char((n % 10) as int)) =~= spec_digits(
                n as int,
            ));
        }
        v
    }
}

/// `n` written in decimal.
pub fn u64_to_string(n: u64) -> (r: String)
    ensures
        r@ == spec_digits(n as int),
{
    let v = u64_digits(n);
    string_of(&v)
}

} // verus!
