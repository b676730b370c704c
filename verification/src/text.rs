//! Character-sequence model of the string operations the library relies on.
//!
//! Every operation works on `Vec<char>` (or `&str` viewed as `Seq<char>`) and
//! is specified by a spec function over `Seq<char>` that follows the
//! documented behaviour of the corresponding `str` method.

use vstd::prelude::*;
use vstd::string::StringExecFns;

verus! {

// ───────────────────────────── specifications ─────────────────────────────

/// `s` begins with `p` (`str::starts_with`).
pub open spec fn starts_with(s: Seq<char>, p: Seq<char>) -> bool {
    p.len() <= s.len() && s.take(p.len() as int) == p
}

/// `pat` occurs in `s` at position `k`.
pub open spec fn occurs_at(s: Seq<char>, pat: Seq<char>, k: int) -> bool {
    0 <= k && k + pat.len() <= s.len() && s.subrange(k, k + pat.len()) == pat
}

/// `pat` occurs somewhere in `s` (`str::contains`).
pub open spec fn contains(s: Seq<char>, pat: Seq<char>) -> bool {
    exists|k: int| occurs_at(s, pat, k)
}

/// The least position at or after `k` where the non-empty `pat` occurs.
pub open spec fn find_from(s: Seq<char>, pat: Seq<char>, k: int) -> Option<int>
    decreases s.len() - k,
{
    if k < 0 || k >= s.len() || k + pat.len() > s.len() {
        None
    } else if occurs_at(s, pat, k) {
        Some(k)
    } else {
        find_from(s, pat, k + 1)
    }
}

/// The first position of the non-empty `pat` in `s` (`str::find`).
pub open spec fn find(s: Seq<char>, pat: Seq<char>) -> Option<int> {
    find_from(s, pat, 0)
}

/// The position of the first `'\n'` at or after `k`, or `s.len()` if none.
pub open spec fn newline_from(s: Seq<char>, k: int) -> int
    decreases s.len() - k,
{
    if k < 0 || k >= s.len() {
        s.len() as int
    } else if s[k] == '\n' {
        k
    } else {
        newline_from(s, k + 1)
    }
}

/// A line that ended with `'\n'` loses a trailing `'\r'` too.
pub open spec fn strip_cr(line: Seq<char>) -> Seq<char> {
    if line.len() > 0 && line.last() == '\r' {
        line.drop_last()
    } else {
        line
    }
}

/// The lines of `s` that start at or after position `k` (`str::lines`):
/// pieces separated by `'\n'`, where a piece followed by `'\n'` also loses
/// one trailing `'\r'`, and a final `'\n'` opens no further line.
pub open spec fn lines_from(s: Seq<char>, k: int) -> Seq<Seq<char>>
    decreases s.len() - k,
{
    if k < 0 || k >= s.len() {
        Seq::empty()
    } else {
        let e = newline_from(s, k);
        proof {
            lemma_newline_from_bounds(s, k);
        }
        if e >= s.len() {
            seq![s.subrange(k, s.len() as int)]
        } else {
            seq![strip_cr(s.subrange(k, e))] + lines_from(s, e + 1)
        }
    }
}

/// The lines of `s` (`str::lines`).
pub open spec fn lines(s: Seq<char>) -> Seq<Seq<char>> {
    lines_from(s, 0)
}

/// Unicode white space, as `char::is_whitespace` decides it.
pub open spec fn is_whitespace(c: char) -> bool {
    let n = c as int;
    ||| 0x09 <= n <= 0x0D
    ||| n == 0x20
    ||| n == 0x85
    ||| n == 0xA0
    ||| n == 0x1680
    ||| 0x2000 <= n <= 0x200A
    ||| n == 0x2028
    ||| n == 0x2029
    ||| n == 0x202F
    ||| n == 0x205F
    ||| n == 0x3000
}

/// `s` without leading white space (`str::trim_start`).
pub open spec fn trim_start(s: Seq<char>) -> Seq<char>
    decreases s.len(),
{
    if s.len() > 0 && is_whitespace(s[0]) {
        trim_start(s.drop_first())
    } else {
        s
    }
}

/// `s` without trailing white space (`str::trim_end`).
pub open spec fn trim_end(s: Seq<char>) -> Seq<char>
    decreases s.len(),
{
    if s.len() > 0 && is_whitespace(s.last()) {
        trim_end(s.drop_last())
    } else {
        s
    }
}

/// `s` without leading and trailing white space (`str::trim`).
pub open spec fn trim(s: Seq<char>) -> Seq<char> {
    trim_end(trim_start(s))
}

/// `s` with every occurrence of the non-empty `pat`, taken from left to
/// right without overlap, replaced by `rep` (`str::replace`).
pub open spec fn replace(s: Seq<char>, pat: Seq<char>, rep: Seq<char>) -> Seq<char>
    decreases s.len(),
{
    if s.len() == 0 {
        Seq::empty()
    } else if pat.len() > 0 && starts_with(s, pat) {
        rep + replace(s.skip(pat.len() as int), pat, rep)
    } else {
        seq![s[0]] + replace(s.drop_first(), pat, rep)
    }
}

/// The character sequence an optional string holds.
pub open spec fn opt_view(o: Option<String>) -> Option<Seq<char>> {
    match o {
        Some(s) => Some(s@),
        None => None,
    }
}

/// What `str::to_lowercase` returns for a string: its Unicode lowercase
/// mapping, which Unicode's case tables define character by character.
pub uninterp spec fn lowercase(s: Seq<char>) -> Seq<char>;


/// The least index `i >= k` whose line satisfies `p`.
pub open spec fn first_where(ls: Seq<Seq<char>>, p: spec_fn(Seq<char>) -> bool, k: int) -> Option<int>
    decreases ls.len() - k,
{
    if k < 0 || k >= ls.len() {
        None
    } else if p(ls[k]) {
        Some(k)
    } else {
        first_where(ls, p, k + 1)
    }
}

// ───────────────────────────── lemmas ─────────────────────────────

pub proof fn lemma_newline_from_bounds(s: Seq<char>, k: int)
    requires
        0 <= k <= s.len(),
    ensures
        k <= newline_from(s, k) <= s.len(),
        newline_from(s, k) < s.len() ==> s[newline_from(s, k)] == '\n',
        forall|i: int| k <= i < newline_from(s, k) ==> s[i] != '\n',
    decreases s.len() - k,
{
    if k < s.len() && s[k] != '\n' {
        lemma_newline_from_bounds(s, k + 1);
    }
}

/// `find_from` returns the least occurrence at or after `k`.
pub proof fn lemma_find_from(s: Seq<char>, pat: Seq<char>, k: int)
    requires
        pat.len() > 0,
        k >= 0,
    ensures
        find_from(s, pat, k) matches Some(j) ==> k <= j && occurs_at(s, pat, j) && forall|i: int|
            k <= i < j ==> !occurs_at(s, pat, i),
        find_from(s, pat, k) is None ==> forall|i: int| k <= i ==> !occurs_at(s, pat, i),
    decreases s.len() - k,
{
    if k >= s.len() || k + pat.len() > s.len() {
    } else if occurs_at(s, pat, k) {
    } else {
        lemma_find_from(s, pat, k + 1);
    }
}

/// `find` is defined exactly when the pattern occurs.
pub proof fn lemma_find_iff_contains(s: Seq<char>, pat: Seq<char>)
    requires
        pat.len() > 0,
    ensures
        find(s, pat) is Some <==> contains(s, pat),
        find(s, pat) matches Some(j) ==> occurs_at(s, pat, j) && forall|i: int|
            0 <= i < j ==> !occurs_at(s, pat, i),
{
    lemma_find_from(s, pat, 0);
    if find(s, pat) is Some {
        let j = find(s, pat)->0;
        assert(occurs_at(s, pat, j));
    }
}


/// `first_where` finds the least matching index, and finds one whenever some
/// line at or after `k` matches.
pub proof fn lemma_first_where(ls: Seq<Seq<char>>, p: spec_fn(Seq<char>) -> bool, k: int)
    requires
        k >= 0,
    ensures
        first_where(ls, p, k) matches Some(j) ==> k <= j < ls.len() && p(ls[j]) && forall|i: int|
            k <= i < j ==> !p(#[trigger] ls[i]),
        first_where(ls, p, k) is None ==> forall|i: int| k <= i < ls.len() ==> !p(#[trigger] ls[i]),
    decreases ls.len() - k,
{
    if k < ls.len() && !p(ls[k]) {
        lemma_first_where(ls, p, k + 1);
    }
}


// ───────────────────────────── laws of the text model ─────────────────────────────

proof fn lemma_trim_start_skips(s: Seq<char>)
    ensures
        exists|a: int|
            0 <= a <= s.len() && trim_start(s) == s.skip(a) && (forall|i: int|
                0 <= i < a ==> is_whitespace(#[trigger] s[i])) && (a < s.len() ==> !is_whitespace(s[a])),
    decreases s.len(),
{
    if s.len() > 0 && is_whitespace(s[0]) {
        let t = s.drop_first();
        lemma_trim_start_skips(t);
        let a = choose|a: int|
            0 <= a <= t.len() && trim_start(t) == t.skip(a) && (forall|i: int|
                0 <= i < a ==> is_whitespace(#[trigger] t[i])) && (a < t.len() ==> !is_whitespace(t[a]));
        assert(t.skip(a) == s.skip(a + 1));
        assert forall|i: int| 0 <= i < a + 1 implies is_whitespace(#[trigger] s[i]) by {
            if i > 0 {
                assert(s[i] == t[i - 1]);
            }
        }
        assert(a + 1 < s.len() ==> s[a + 1] == t[a]);
    } else {
        assert(s.skip(0) == s);
    }
}

proof fn lemma_trim_end_takes(s: Seq<char>)
    ensures
        exists|b: int|
            0 <= b <= s.len() && trim_end(s) == s.take(b) && (forall|i: int|
                b <= i < s.len() ==> is_whitespace(#[trigger] s[i])) && (b > 0 ==> !is_whitespace(s[b - 1])),
    decreases s.len(),
{
    if s.len() > 0 && is_whitespace(s.last()) {
        let t = s.drop_last();
        lemma_trim_end_takes(t);
        let b = choose|b: int|
            0 <= b <= t.len() && trim_end(t) == t.take(b) && (forall|i: int|
                b <= i < t.len() ==> is_whitespace(#[trigger] t[i])) && (b > 0 ==> !is_whitespace(t[b - 1]));
        assert(t.take(b) == s.take(b));
        assert forall|i: int| b <= i < s.len() implies is_whitespace(#[trigger] s[i]) by {
            if i < t.len() {
                assert(s[i] == t[i]);
            }
        }
    } else {
        assert(s.take(s.len() as int) == s);
    }
}

/// `trim(s)` is the part of `s` left when all white space at both ends is
/// cut off: a contiguous part of `s`, preceded and followed only by white
/// space, that neither begins nor ends with white space.
pub proof fn lemma_trim_cuts_whitespace_ends(s: Seq<char>)
    ensures
        exists|a: int, b: int|
            0 <= a <= b <= s.len() && trim(s) == s.subrange(a, b) && (forall|i: int|
                0 <= i < a ==> is_whitespace(#[trigger] s[i])) && (forall|i: int|
                b <= i < s.len() ==> is_whitespace(#[trigger] s[i])) && (a < b ==> !is_whitespace(s[a])
                && !is_whitespace(s[b - 1])),
{
    lemma_trim_start_skips(s);
    let a = choose|a: int|
        0 <= a <= s.len() && trim_start(s) == s.skip(a) && (forall|i: int|
            0 <= i < a ==> is_whitespace(#[trigger] s[i])) && (a < s.len() ==> !is_whitespace(s[a]));
    let t = s.skip(a);
    lemma_trim_end_takes(t);
    let b = choose|b: int|
        0 <= b <= t.len() && trim_end(t) == t.take(b) && (forall|i: int|
            b <= i < t.len() ==> is_whitespace(#[trigger] t[i])) && (b > 0 ==> !is_whitespace(t[b - 1]));
    assert(t.take(b) == s.subrange(a, a + b));
    assert forall|i: int| a + b <= i < s.len() implies is_whitespace(#[trigger] s[i]) by {
        assert(s[i] == t[i - a]);
    }
    if b > 0 {
        assert(s[a] == t[0]);
        assert(s[a + b - 1] == t[b - 1]);
    }
}

proof fn lemma_lines_from_no_newline(s: Seq<char>, k: int)
    requires
        0 <= k,
    ensures
        forall|i: int, j: int|
            0 <= i < lines_from(s, k).len() && 0 <= j < lines_from(s, k)[i].len() ==> #[trigger] lines_from(
                s,
                k,
            )[i][j] != '\n',
    decreases s.len() - k,
{
    if k < s.len() {
        lemma_newline_from_bounds(s, k);
        let e = newline_from(s, k);
        if e < s.len() {
            lemma_lines_from_no_newline(s, e + 1);
            let first = strip_cr(s.subrange(k, e));
            let rest = lines_from(s, e + 1);
            assert(lines_from(s, k) == seq![first] + rest);
            assert forall|i: int, j: int|
                0 <= i < lines_from(s, k).len() && 0 <= j < lines_from(s, k)[i].len() implies #[trigger] lines_from(
                s,
                k,
            )[i][j] != '\n' by {
                if i == 0 {
                    assert(first[j] == s[k + j]);
                } else {
                    assert(lines_from(s, k)[i] == rest[i - 1]);
                }
            }
        } else {
            assert forall|i: int, j: int|
                0 <= i < lines_from(s, k).len() && 0 <= j < lines_from(s, k)[i].len() implies #[trigger] lines_from(
                s,
                k,
            )[i][j] != '\n' by {
                assert(lines_from(s, k)[i][j] == s[k + j]);
            }
        }
    }
}

/// No line holds a line break, and a non-empty text without a line break
/// is a single line, itself.
pub proof fn lemma_lines_split_at_newlines(s: Seq<char>)
    ensures
        forall|i: int, j: int|
            0 <= i < lines(s).len() && 0 <= j < lines(s)[i].len() ==> #[trigger] lines(s)[i][j] != '\n',
        (s.len() > 0 && forall|j: int| 0 <= j < s.len() ==> #[trigger] s[j] != '\n') ==> lines(s)
            == seq![s],
        s.len() == 0 ==> lines(s).len() == 0,
{
    lemma_lines_from_no_newline(s, 0);
    if s.len() > 0 && forall|j: int| 0 <= j < s.len() ==> #[trigger] s[j] != '\n' {
        lemma_newline_from_bounds(s, 0);
        if newline_from(s, 0) < s.len() {
            assert(s[newline_from(s, 0)] == '\n');
        }
        assert(s.subrange(0, s.len() as int) == s);
    }
}

// ───────────────────────────── wrappers ─────────────────────────────

/// Appends one character to a `String` (`String::push`); the contract is the
/// method's documented effect.
#[verifier::external_body]
pub(crate) fn push_char(s: &mut String, c: char)
    ensures
        final(s)@ == old(s)@.push(c),
{
    s.push(c);
}

/// Calls `str::to_lowercase`; the contract names its result `lowercase` and
/// says nothing of the Unicode case mapping itself.
#[verifier::external_body]
pub(crate) fn to_lowercase(s: &str) -> (r: String)
    ensures
        r@ == lowercase(s@),
{
    s.to_lowercase()
}

// ───────────────────────────── executable operations ─────────────────────────────

/// The characters of a string slice, in order.
pub fn chars_of(s: &str) -> (v: Vec<char>)
    ensures
        v@ == s@,
{
    let mut v: Vec<char> = Vec::new();
    for c in it: s.chars()
        invariant
            v@ == it.seq().take(it.index() as int),
            it.seq() == s@,
    {
        v.push(c);
    }
    v
}

/// The characters `s[a..b]` as a `String`.
pub fn string_from(s: &Vec<char>, a: usize, b: usize) -> (r: String)
    requires
        a <= b <= s.len(),
    ensures
        r@ == s@.subrange(a as int, b as int),
{
    let mut r = String::new();
    let mut i = a;
    while i < b
        invariant
            a <= i <= b <= s.len(),
            r@ == s@.subrange(a as int, i as int),
        decreases b - i,
    {
        push_char(&mut r, s[i]);
        assert(s@.subrange(a as int, i + 1) == s@.subrange(a as int, i as int).push(s@[i as int]));
        i = i + 1;
    }
    r
}

/// The characters `s[a..b]` as a `Vec<char>`.
pub fn chars_between(s: &Vec<char>, a: usize, b: usize) -> (r: Vec<char>)
    requires
        a <= b <= s.len(),
    ensures
        r@ == s@.subrange(a as int, b as int),
{
    let mut r: Vec<char> = Vec::new();
    let mut i = a;
    while i < b
        invariant
            a <= i <= b <= s.len(),
            r@ == s@.subrange(a as int, i as int),
        decreases b - i,
    {
        r.push(s[i]);
        assert(s@.subrange(a as int, i + 1) == s@.subrange(a as int, i as int).push(s@[i as int]));
        i = i + 1;
    }
    r
}

/// Whether `pat` occurs in `s` at position `k`.
pub fn occurs_at_exec(s: &Vec<char>, pat: &Vec<char>, k: usize) -> (r: bool)
    ensures
        r == occurs_at(s@, pat@, k as int),
{
    if k > s.len() || pat.len() > s.len() - k {
        return false;
    }
    let mut i: usize = 0;
    while i < pat.len()
        invariant
            k + pat.len() <= s.len(),
            0 <= i <= pat.len(),
            forall|j: int| 0 <= j < i ==> s@[k + j] == pat@[j],
        decreases pat.len() - i,
    {
        if s[k + i] != pat[i] {
            assert(s@.subrange(k as int, k + pat.len())[i as int] != pat@[i as int]);
            return false;
        }
        i = i + 1;
    }
    assert(s@.subrange(k as int, k + pat.len()) == pat@);
    true
}

/// Whether `s` begins with `p`.
pub fn starts_with_exec(s: &Vec<char>, p: &Vec<char>) -> (r: bool)
    ensures
        r == starts_with(s@, p@),
{
    let r = occurs_at_exec(s, p, 0);
    assert(s@.subrange(0, p@.len() as int) == s@.take(p@.len() as int));
    r
}

/// The least position at or after `from` where the non-empty `pat` occurs.
pub fn find_from_exec(s: &Vec<char>, pat: &Vec<char>, from: usize) -> (r: Option<usize>)
    requires
        pat@.len() > 0,
    ensures
        r matches Some(j) ==> find_from(s@, pat@, from as int) == Some(j as int),
        r is None ==> find_from(s@, pat@, from as int) is None,
{
    let mut i = from;
    while i < s.len() && pat.len() <= s.len() - i
        invariant
            pat@.len() > 0,
            from <= i,
            find_from(s@, pat@, from as int) == find_from(s@, pat@, i as int),
        decreases s.len() - i,
    {
        if occurs_at_exec(s, pat, i) {
            return Some(i);
        }
        i = i + 1;
    }
    None
}

/// Whether `pat` occurs in `s` (the empty pattern occurs everywhere).
pub fn contains_exec(s: &Vec<char>, pat: &Vec<char>) -> (r: bool)
    ensures
        r == contains(s@, pat@),
{
    if pat.len() == 0 {
        assert(s@.subrange(0, 0) == pat@);
        assert(occurs_at(s@, pat@, 0));
        return true;
    }
    proof {
        lemma_find_iff_contains(s@, pat@);
    }
    find_from_exec(s, pat, 0).is_some()
}


/// The character sequences held by a vector of lines.
pub open spec fn views(v: Seq<Vec<char>>) -> Seq<Seq<char>> {
    v.map_values(|l: Vec<char>| l@)
}

/// The lines of `s`, each as its characters (`str::lines`).
pub fn split_lines(s: &Vec<char>) -> (r: Vec<Vec<char>>)
    ensures
        views(r@) == lines(s@),
{
    let mut out: Vec<Vec<char>> = Vec::new();
    let n = s.len();
    let mut start: usize = 0;
    while start < n
        invariant
            n == s.len(),
            start <= n,
            views(out@) + lines_from(s@, start as int) == lines(s@),
        decreases n - start,
    {
        let mut e = start;
        while e < n && s[e] != '\n'
            invariant
                n == s.len(),
                start <= e <= n,
                newline_from(s@, start as int) == newline_from(s@, e as int),
            decreases n - e,
        {
            e = e + 1;
        }
        assert(newline_from(s@, e as int) == e);
        let ghost before = views(out@);
        let mut line = chars_between(s, start, e);
        if e < n {
            if line.len() > 0 && line[line.len() - 1] == '\r' {
                line.pop();
            }
            assert(line@ == strip_cr(s@.subrange(start as int, e as int)));
            out.push(line);
            assert(views(out@) == before.push(strip_cr(s@.subrange(start as int, e as int))));
            assert(lines_from(s@, start as int) == seq![strip_cr(s@.subrange(start as int, e as int))]
                + lines_from(s@, e + 1));
            assert(views(out@) + lines_from(s@, e + 1) == before + lines_from(s@, start as int));
            start = e + 1;
        } else {
            out.push(line);
            assert(views(out@) == before.push(s@.subrange(start as int, n as int)));
            assert(lines_from(s@, start as int) == seq![s@.subrange(start as int, n as int)]);
            assert(views(out@) + lines_from(s@, n as int) == before + lines_from(s@, start as int));
            start = n;
        }
    }
    assert(views(out@) + lines_from(s@, start as int) == views(out@));
    out
}

/// Whether `c` is white space (`char::is_whitespace`).
pub fn is_whitespace_exec(c: char) -> (r: bool)
    ensures
        r == is_whitespace(c),
{
    let n = c as u32;
    (0x09 <= n && n <= 0x0D) || n == 0x20 || n == 0x85 || n == 0xA0 || n == 0x1680 || (0x2000 <= n
        && n <= 0x200A) || n == 0x2028 || n == 0x2029 || n == 0x202F || n == 0x205F || n == 0x3000
}

/// Bounds of `s[a..b]` with the white space at both ends removed
/// (`str::trim`).
pub fn trim_bounds(s: &Vec<char>, a: usize, b: usize) -> (r: (usize, usize))
    requires
        a <= b <= s.len(),
    ensures
        a <= r.0 <= r.1 <= b,
        s@.subrange(r.0 as int, r.1 as int) == trim(s@.subrange(a as int, b as int)),
{
    let mut lo = a;
    while lo < b && is_whitespace_exec(s[lo])
        invariant
            a <= lo <= b <= s.len(),
            trim_start(s@.subrange(a as int, b as int)) == trim_start(
                s@.subrange(lo as int, b as int),
            ),
        decreases b - lo,
    {
        assert(s@.subrange(lo as int, b as int).drop_first() == s@.subrange(lo + 1, b as int));
        lo = lo + 1;
    }
    let mut hi = b;
    while hi > lo && is_whitespace_exec(s[hi - 1])
        invariant
            a <= lo <= hi <= b <= s.len(),
            trim_end(s@.subrange(lo as int, b as int)) == trim_end(s@.subrange(lo as int, hi as int)),
        decreases hi - lo,
    {
        assert(s@.subrange(lo as int, hi as int).drop_last() == s@.subrange(lo as int, hi - 1));
        hi = hi - 1;
    }
    (lo, hi)
}

/// `s` with each left-to-right, non-overlapping occurrence of the non-empty
/// `pat` replaced by `rep` (`str::replace`).
pub fn replace_exec(s: &Vec<char>, pat: &Vec<char>, rep: &str) -> (r: String)
    requires
        pat@.len() > 0,
    ensures
        r@ == replace(s@, pat@, rep@),
{
    let mut r = String::new();
    let n = s.len();
    let mut i: usize = 0;
    assert(s@.skip(0) == s@);
    assert(r@ + replace(s@, pat@, rep@) == replace(s@, pat@, rep@));
    while i < n
        invariant
            n == s.len(),
            pat@.len() > 0,
            i <= n,
            r@ + replace(s@.skip(i as int), pat@, rep@) == replace(s@, pat@, rep@),
        decreases n - i,
    {
        let ghost rest = s@.skip(i as int);
        let ghost before = r@;
        assert(rest.len() > 0);
        if occurs_at_exec(s, pat, i) {
            assert(rest.take(pat@.len() as int) == s@.subrange(i as int, i + pat@.len()));
            assert(rest.skip(pat@.len() as int) == s@.skip(i + pat@.len()));
            r.append(rep);
            assert(before + replace(rest, pat@, rep@) == r@ + replace(s@.skip(i + pat@.len()), pat@, rep@));
            i = i + pat.len();
        } else {
            assert(pat@.len() <= rest.len() ==> rest.take(pat@.len() as int) == s@.subrange(i as int, i + pat@.len()));
            assert(rest.drop_first() == s@.skip(i + 1));
            assert(rest[0] == s@[i as int]);
            push_char(&mut r, s[i]);
            assert(before + replace(rest, pat@, rep@) == r@ + replace(s@.skip(i + 1), pat@, rep@));
            i = i + 1;
        }
    }
    assert(s@.skip(n as int) == Seq::<char>::empty());
    assert(r@ + replace(s@.skip(i as int), pat@, rep@) == r@);
    r
}

} // verus!
