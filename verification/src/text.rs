//! Text model shared by every patcher: strings are sequences of `char`, and
//! the search / replace primitives are stated over those sequences.

use vstd::prelude::*;

verus! {

/// `pat` occurs in `s` starting at index `i`.
pub open spec fn matches_at(s: Seq<char>, pat: Seq<char>, i: int) -> bool {
    &&& 0 <= i
    &&& i + pat.len() <= s.len()
    &&& s.subrange(i, i + pat.len()) == pat
}

/// Index of the first occurrence of `pat` in `s` at or after `k`.
pub open spec fn find_from(s: Seq<char>, pat: Seq<char>, k: int) -> Option<int>
    decreases s.len() - k,
{
    if k < 0 || k + pat.len() > s.len() {
        None
    } else if matches_at(s, pat, k) {
        Some(k)
    } else if k >= s.len() {
        None
    } else {
        find_from(s, pat, k + 1)
    }
}

/// Index of the first occurrence of `pat` in `s` (Rust's `str::find`).
pub open spec fn find(s: Seq<char>, pat: Seq<char>) -> Option<int> {
    find_from(s, pat, 0)
}

/// `pat` occurs somewhere in `s` (Rust's `str::contains`).
pub open spec fn contains(s: Seq<char>, pat: Seq<char>) -> bool {
    find(s, pat) is Some
}

/// `s` with its first occurrence of `pat` replaced by `rep`
/// (Rust's `str::replacen(pat, rep, 1)`); `s` itself when `pat` is absent.
pub open spec fn replace_first(s: Seq<char>, pat: Seq<char>, rep: Seq<char>) -> Seq<char> {
    match find(s, pat) {
        Some(i) => s.take(i) + rep + s.skip(i + pat.len()),
        None => s,
    }
}

/// Every non-overlapping occurrence of `pat` in `s` from index `k` on,
/// scanned left to right, replaced by `rep` (Rust's `str::replace`).
pub open spec fn replace_all_from(s: Seq<char>, pat: Seq<char>, rep: Seq<char>, k: int) -> Seq<char>
    decreases s.len() - k,
{
    if k < 0 || k > s.len() {
        Seq::empty()
    } else if pat.len() == 0 {
        if k == s.len() {
            rep
        } else {
            rep + seq![s[k]] + replace_all_from(s, pat, rep, k + 1)
        }
    } else {
        match find_from(s, pat, k) {
            None => s.skip(k),
            Some(i) => {
                proof {
                    lemma_find_from(s, pat, k);
                }
                s.subrange(k, i) + rep + replace_all_from(s, pat, rep, i + pat.len())
            },
        }
    }
}

/// Rust's `str::replace(pat, rep)`.
pub open spec fn replace_all(s: Seq<char>, pat: Seq<char>, rep: Seq<char>) -> Seq<char> {
    replace_all_from(s, pat, rep, 0)
}

/// `pre` is a prefix of `s` (Rust's `str::starts_with`).
pub open spec fn starts_with(s: Seq<char>, pre: Seq<char>) -> bool {
    pre.len() <= s.len() && s.take(pre.len() as int) == pre
}

/// `suf` is a suffix of `s` (Rust's `str::ends_with`).
pub open spec fn ends_with(s: Seq<char>, suf: Seq<char>) -> bool {
    suf.len() <= s.len() && s.skip(s.len() - suf.len()) == suf
}

/// Unicode `White_Space`, as `char::is_whitespace` decides it.
pub open spec fn is_ws(c: char) -> bool {
    ||| ('\u{9}' <= c && c <= '\u{d}')
    ||| c == ' '
    ||| c == '\u{85}'
    ||| c == '\u{a0}'
    ||| c == '\u{1680}'
    ||| ('\u{2000}' <= c && c <= '\u{200a}')
    ||| c == '\u{2028}'
    ||| c == '\u{2029}'
    ||| c == '\u{202f}'
    ||| c == '\u{205f}'
    ||| c == '\u{3000}'
}

/// Number of leading whitespace characters of `s`.
pub open spec fn lead_ws(s: Seq<char>) -> nat
    decreases s.len(),
{
    if s.len() > 0 && is_ws(s[0]) {
        1 + lead_ws(s.drop_first())
    } else {
        0
    }
}

/// Number of trailing whitespace characters of `s`.
pub open spec fn trail_ws(s: Seq<char>) -> nat
    decreases s.len(),
{
    if s.len() > 0 && is_ws(s.last()) {
        1 + trail_ws(s.drop_last())
    } else {
        0
    }
}

/// Rust's `str::trim_end`.
pub open spec fn trim_end(s: Seq<char>) -> Seq<char> {
    s.take(s.len() - trail_ws(s))
}

/// Rust's `str::trim_start`.
pub open spec fn trim_start(s: Seq<char>) -> Seq<char> {
    s.skip(lead_ws(s) as int)
}

/// Rust's `str::trim`.
pub open spec fn trim(s: Seq<char>) -> Seq<char> {
    trim_end(trim_start(s))
}

// ── Lemmas ──────────────────────────────────────────────────────────────────

/// What `find_from` returns: the least matching index at or after `k`.
pub proof fn lemma_find_from(s: Seq<char>, pat: Seq<char>, k: int)
    requires
        0 <= k,
    ensures
        match find_from(s, pat, k) {
            Some(i) => k <= i && matches_at(s, pat, i) && forall|j: int|
                k <= j < i ==> !#[trigger] matches_at(s, pat, j),
            None => forall|j: int| k <= j ==> !#[trigger] matches_at(s, pat, j),
        },
    decreases s.len() - k,
{
    if k + pat.len() > s.len() {
    } else if matches_at(s, pat, k) {
    } else if k >= s.len() {
        assert(pat.len() == 0);
        assert(s.subrange(k, k + pat.len()) =~= pat);
    } else {
        lemma_find_from(s, pat, k + 1);
    }
}

/// A match at `i` that no earlier index (from `k`) shares is what `find_from` returns.
pub proof fn lemma_find_from_is(s: Seq<char>, pat: Seq<char>, k: int, i: int)
    requires
        0 <= k <= i,
        matches_at(s, pat, i),
        forall|j: int| k <= j < i ==> !#[trigger] matches_at(s, pat, j),
    ensures
        find_from(s, pat, k) == Some(i),
{
    lemma_find_from(s, pat, k);
    match find_from(s, pat, k) {
        Some(i2) => {
            if i2 < i {
                assert(!matches_at(s, pat, i2));
            }
            if i < i2 {
                assert(!matches_at(s, pat, i));
            }
        },
        None => {
            assert(!matches_at(s, pat, i));
        },
    }
}

/// `contains` means there is a matching index.
pub proof fn lemma_contains(s: Seq<char>, pat: Seq<char>)
    ensures
        contains(s, pat) <==> exists|i: int| matches_at(s, pat, i),
{
    lemma_find_from(s, pat, 0);
    if let Some(i) = find(s, pat) {
        assert(matches_at(s, pat, i));
    }
}

/// A match at index `i` witnesses `contains`.
pub proof fn lemma_contains_at(s: Seq<char>, pat: Seq<char>, i: int)
    requires
        matches_at(s, pat, i),
    ensures
        contains(s, pat),
{
    lemma_contains(s, pat);
}

/// The empty pattern is found at the start.
pub proof fn lemma_find_empty(s: Seq<char>, pat: Seq<char>)
    requires
        pat.len() == 0,
    ensures
        find(s, pat) == Some(0int),
{
    assert(s.subrange(0, 0) =~= pat);
}

// ── Executable primitives ───────────────────────────────────────────────────

/// The characters of `s`.
pub fn str_chars(s: &str) -> (r: Vec<char>)
    ensures
        r@ == s@,
{
    let mut out: Vec<char> = Vec::new();
    for c in it: s.chars()
        invariant
            out@ == it.seq().take(it.index() as int),
    {
        out.push(c);
    }
    out
}

/// Builds a `String` holding exactly the characters of `v`.
pub fn chars_string(v: &[char]) -> (r: String)
    ensures
        r@ == v@,
{
    let mut out = String::new();
    let mut i: usize = 0;
    while i < v.len()
        invariant
            i <= v.len(),
            out@ == v@.take(i as int),
        decreases v.len() - i,
    {
        out.push(v[i]);
        i += 1;
        assert(out@ =~= v@.take(i as int));
    }
    assert(v@.take(i as int) =~= v@);
    out
}

/// Appends `s[lo..hi]` to `out`.
pub fn push_range(out: &mut Vec<char>, s: &[char], lo: usize, hi: usize)
    requires
        lo <= hi <= s.len(),
    ensures
        final(out)@ == old(out)@ + s@.subrange(lo as int, hi as int),
{
    let mut i = lo;
    while i < hi
        invariant
            lo <= i <= hi <= s.len(),
            out@ == old(out)@ + s@.subrange(lo as int, i as int),
        decreases hi - i,
    {
        out.push(s[i]);
        i += 1;
        assert(out@ =~= old(out)@ + s@.subrange(lo as int, i as int));
    }
}

/// Appends all of `s` to `out`.
pub fn push_all(out: &mut Vec<char>, s: &[char])
    ensures
        final(out)@ == old(out)@ + s@,
{
    push_range(out, s, 0, s.len());
    assert(s@.subrange(0, s@.len() as int) =~= s@);
}

/// Appends the characters of `s` to `out`.
pub fn push_str(out: &mut Vec<char>, s: &str)
    ensures
        final(out)@ == old(out)@ + s@,
{
    let v = str_chars(s);
    push_all(out, v.as_slice());
}

/// Whether `pat` occurs in `s` at index `i`.
pub fn matches_at_exec(s: &[char], pat: &[char], i: usize) -> (r: bool)
    ensures
        r == matches_at(s@, pat@, i as int),
{
    if i > s.len() || pat.len() > s.len() - i {
        return false;
    }
    let mut j: usize = 0;
    while j < pat.len()
        invariant
            j <= pat.len(),
            i + pat.len() <= s.len(),
            s@.subrange(i as int, i + j) == pat@.subrange(0, j as int),
        decreases pat.len() - j,
    {
        if s[i + j] != pat[j] {
            assert(s@.subrange(i as int, i + pat.len())[j as int] != pat@[j as int]);
            return false;
        }
        j += 1;
        assert(s@.subrange(i as int, i + j) =~= pat@.subrange(0, j as int));
    }
    assert(pat@.subrange(0, j as int) =~= pat@);
    true
}

/// First occurrence of `pat` in `s` at or after `k`.
pub fn find_from_exec(s: &[char], pat: &[char], k: usize) -> (r: Option<usize>)
    ensures
        match r {
            Some(i) => find_from(s@, pat@, k as int) == Some(i as int),
            None => find_from(s@, pat@, k as int) is None,
        },
{
    let mut p = k;
    loop
        invariant
            k <= p,
            find_from(s@, pat@, k as int) == find_from(s@, pat@, p as int),
        decreases s.len() - p,
    {
        if p > s.len() || pat.len() > s.len() - p {
            return None;
        }
        if matches_at_exec(s, pat, p) {
            return Some(p);
        }
        if p >= s.len() {
            return None;
        }
        p += 1;
    }
}

/// First occurrence of `pat` in `s`.
pub fn find_exec(s: &[char], pat: &[char]) -> (r: Option<usize>)
    ensures
        match r {
            Some(i) => find(s@, pat@) == Some(i as int),
            None => find(s@, pat@) is None,
        },
{
    find_from_exec(s, pat, 0)
}

/// Whether `pat` occurs in `s`.
pub fn contains_exec(s: &[char], pat: &[char]) -> (r: bool)
    ensures
        r == contains(s@, pat@),
{
    find_exec(s, pat).is_some()
}

/// Whether the characters of `pat` occur in `s`.
pub fn contains_str(s: &[char], pat: &str) -> (r: bool)
    ensures
        r == contains(s@, pat@),
{
    let p = str_chars(pat);
    contains_exec(s, p.as_slice())
}

/// `s` with its first occurrence of `pat` replaced by `rep`.
pub fn replace_first_exec(s: &[char], pat: &[char], rep: &[char]) -> (r: Vec<char>)
    ensures
        r@ == replace_first(s@, pat@, rep@),
{
    match find_exec(s, pat) {
        Some(i) => {
            proof {
                lemma_find_from(s@, pat@, 0);
                assert(matches_at(s@, pat@, i as int));
            }
            assert(i + pat.len() <= s.len());
            let mut out: Vec<char> = Vec::new();
            push_range(&mut out, s, 0, i);
            push_all(&mut out, rep);
            push_range(&mut out, s, i + pat.len(), s.len());
            assert(s@.take(i as int) =~= s@.subrange(0, i as int));
            assert(s@.skip(i + pat.len()) =~= s@.subrange(i + pat.len(), s.len() as int));
            out
        },
        None => {
            let mut out: Vec<char> = Vec::new();
            push_all(&mut out, s);
            assert(out@ =~= s@);
            out
        },
    }
}

/// `s` with its first occurrence of the characters of `pat` replaced by those of `rep`.
pub fn replace_first_str(s: &[char], pat: &str, rep: &str) -> (r: Vec<char>)
    ensures
        r@ == replace_first(s@, pat@, rep@),
{
    let p = str_chars(pat);
    let q = str_chars(rep);
    replace_first_exec(s, p.as_slice(), q.as_slice())
}

/// `s` with every non-overlapping occurrence of `pat` replaced by `rep`.
pub fn replace_all_exec(s: &[char], pat: &[char], rep: &[char]) -> (r: Vec<char>)
    ensures
        r@ == replace_all(s@, pat@, rep@),
{
    let mut out: Vec<char> = Vec::new();
    let mut p: usize = 0;
    if pat.len() == 0 {
        while p < s.len()
            invariant
                p <= s.len(),
                pat@.len() == 0,
                out@ + replace_all_from(s@, pat@, rep@, p as int) == replace_all(s@, pat@, rep@),
            decreases s.len() - p,
        {
            let ghost before = out@;
            push_all(&mut out, rep);
            out.push(s[p]);
            assert(replace_all_from(s@, pat@, rep@, p as int) == rep@ + seq![s@[p as int]]
                + replace_all_from(s@, pat@, rep@, p + 1));
            assert(out@ + replace_all_from(s@, pat@, rep@, p + 1) =~= before
                + replace_all_from(s@, pat@, rep@, p as int));
            p += 1;
        }
        push_all(&mut out, rep);
        return out;
    }
    loop
        invariant
            p <= s.len(),
            pat@.len() > 0,
            out@ + replace_all_from(s@, pat@, rep@, p as int) == replace_all(s@, pat@, rep@),
        decreases s.len() - p,
    {
        let ghost before = out@;
        match find_from_exec(s, pat, p) {
            None => {
                push_range(&mut out, s, p, s.len());
                assert(s@.skip(p as int) =~= s@.subrange(p as int, s.len() as int));
                assert(out@ =~= replace_all(s@, pat@, rep@));
                return out;
            },
            Some(i) => {
                proof {
                    lemma_find_from(s@, pat@, p as int);
                    assert(matches_at(s@, pat@, i as int));
                }
                assert(i + pat.len() <= s.len());
                push_range(&mut out, s, p, i);
                push_all(&mut out, rep);
                assert(out@ + replace_all_from(s@, pat@, rep@, i + pat.len()) =~= before
                    + replace_all_from(s@, pat@, rep@, p as int));
                p = i + pat.len();
            },
        }
    }
}

/// `s` with every occurrence of the characters of `pat` replaced by those of `rep`.
pub fn replace_all_str(s: &[char], pat: &str, rep: &str) -> (r: Vec<char>)
    ensures
        r@ == replace_all(s@, pat@, rep@),
{
    let p = str_chars(pat);
    let q = str_chars(rep);
    replace_all_exec(s, p.as_slice(), q.as_slice())
}

/// Whether `c` is Unicode whitespace.
pub fn is_ws_exec(c: char) -> (r: bool)
    ensures
        r == is_ws(c),
{
    ('\u{9}' <= c && c <= '\u{d}') || c == ' ' || c == '\u{85}' || c == '\u{a0}' || c
        == '\u{1680}' || ('\u{2000}' <= c && c <= '\u{200a}') || c == '\u{2028}' || c
        == '\u{2029}' || c == '\u{202f}' || c == '\u{205f}' || c == '\u{3000}'
}

/// `lead_ws` of a subrange, counted from its front.
proof fn lemma_lead_ws_step(s: Seq<char>, lo: int, hi: int)
    requires
        0 <= lo < hi <= s.len(),
        is_ws(s[lo]),
    ensures
        lead_ws(s.subrange(lo, hi)) == 1 + lead_ws(s.subrange(lo + 1, hi)),
{
    assert(s.subrange(lo, hi).drop_first() =~= s.subrange(lo + 1, hi));
}

/// `trail_ws` of a subrange, counted from its back.
proof fn lemma_trail_ws_step(s: Seq<char>, lo: int, hi: int)
    requires
        0 <= lo < hi <= s.len(),
        is_ws(s[hi - 1]),
    ensures
        trail_ws(s.subrange(lo, hi)) == 1 + trail_ws(s.subrange(lo, hi - 1)),
{
    assert(s.subrange(lo, hi).drop_last() =~= s.subrange(lo, hi - 1));
}

/// Bounds `(lo, hi)` such that `s[lo..hi]` is `trim(s)`.
pub fn trim_bounds(s: &[char]) -> (r: (usize, usize))
    ensures
        r.0 <= r.1 <= s.len(),
        s@.subrange(r.0 as int, r.1 as int) == trim(s@),
{
    let mut lo: usize = 0;
    assert(s@.subrange(0, s.len() as int) =~= s@);
    while lo < s.len() && is_ws_exec(s[lo])
        invariant
            lo <= s.len(),
            lead_ws(s@) == lo + lead_ws(s@.subrange(lo as int, s.len() as int)),
        decreases s.len() - lo,
    {
        proof {
            lemma_lead_ws_step(s@, lo as int, s.len() as int);
        }
        lo += 1;
    }
    assert(s@.subrange(0, s.len() as int) =~= s@);
    proof {
        if lo < s.len() {
            assert(lead_ws(s@.subrange(lo as int, s.len() as int)) == 0);
        } else {
            assert(s@.subrange(lo as int, s.len() as int).len() == 0);
        }
    }
    let ghost t = trim_start(s@);
    assert(t =~= s@.subrange(lo as int, s.len() as int));
    let mut hi: usize = s.len();
    while hi > lo && is_ws_exec(s[hi - 1])
        invariant
            lo <= hi <= s.len(),
            trail_ws(t) == (s.len() - hi) + trail_ws(s@.subrange(lo as int, hi as int)),
        decreases hi,
    {
        proof {
            lemma_trail_ws_step(s@, lo as int, hi as int);
        }
        hi -= 1;
    }
    proof {
        if hi > lo {
            assert(trail_ws(s@.subrange(lo as int, hi as int)) == 0);
        } else {
            assert(s@.subrange(lo as int, hi as int).len() == 0);
        }
    }
    assert(trim(s@) =~= s@.subrange(lo as int, hi as int));
    (lo, hi)
}

/// Length of `s` once trailing whitespace is dropped (`trim_end`).
pub fn trim_end_len(s: &[char], lo: usize, hi: usize) -> (r: usize)
    requires
        lo <= hi <= s.len(),
    ensures
        lo <= r <= hi,
        s@.subrange(lo as int, r as int) == trim_end(s@.subrange(lo as int, hi as int)),
{
    let ghost t = s@.subrange(lo as int, hi as int);
    let mut e: usize = hi;
    while e > lo && is_ws_exec(s[e - 1])
        invariant
            lo <= e <= hi <= s.len(),
            trail_ws(t) == (hi - e) + trail_ws(s@.subrange(lo as int, e as int)),
        decreases e,
    {
        proof {
            lemma_trail_ws_step(s@, lo as int, e as int);
        }
        e -= 1;
    }
    proof {
        if e > lo {
            assert(trail_ws(s@.subrange(lo as int, e as int)) == 0);
        } else {
            assert(s@.subrange(lo as int, e as int).len() == 0);
        }
    }
    assert(trim_end(t) =~= s@.subrange(lo as int, e as int));
    e
}

/// Whether `s` starts with `pre`.
pub fn starts_with_exec(s: &[char], pre: &[char]) -> (r: bool)
    ensures
        r == starts_with(s@, pre@),
{
    let r = matches_at_exec(s, pre, 0);
    proof {
        if pre@.len() <= s@.len() {
            assert(s@.subrange(0, pre@.len() as int) =~= s@.take(pre@.len() as int));
        }
    }
    r
}

/// Whether `s` ends with `suf`.
pub fn ends_with_exec(s: &[char], suf: &[char]) -> (r: bool)
    ensures
        r == ends_with(s@, suf@),
{
    if suf.len() > s.len() {
        return false;
    }
    let r = matches_at_exec(s, suf, s.len() - suf.len());
    assert(s@.subrange(s.len() - suf.len(), s.len() as int) =~= s@.skip(s.len() - suf.len()));
    r
}

} // verus!

verus! {

/// The character views of a sequence of string slices.
pub open spec fn strs_view(v: Seq<&str>) -> Seq<Seq<char>> {
    v.map_values(|s: &str| s@)
}

/// The character views of a sequence of owned strings.
pub open spec fn strings_view(v: Seq<String>) -> Seq<Seq<char>> {
    v.map_values(|s: String| s@)
}

/// Index of the first of `pats[k..]` that occurs in `s`.
pub open spec fn first_present_from(s: Seq<char>, pats: Seq<Seq<char>>, k: int) -> Option<int>
    decreases pats.len() - k,
{
    if k < 0 || k >= pats.len() {
        None
    } else if contains(s, pats[k]) {
        Some(k)
    } else {
        first_present_from(s, pats, k + 1)
    }
}

/// Index of the first of `pats` that occurs in `s`.
pub open spec fn first_present(s: Seq<char>, pats: Seq<Seq<char>>) -> Option<int> {
    first_present_from(s, pats, 0)
}

/// What `first_present_from` returns.
pub proof fn lemma_first_present_from(s: Seq<char>, pats: Seq<Seq<char>>, k: int)
    requires
        0 <= k,
    ensures
        match first_present_from(s, pats, k) {
            Some(i) => k <= i < pats.len() && contains(s, pats[i]) && forall|j: int|
                k <= j < i ==> !contains(s, #[trigger] pats[j]),
            None => forall|j: int| k <= j < pats.len() ==> !contains(s, #[trigger] pats[j]),
        },
    decreases pats.len() - k,
{
    if k < pats.len() && !contains(s, pats[k]) {
        lemma_first_present_from(s, pats, k + 1);
    }
}

/// Index of the first of `pats` that occurs in `s`.
pub fn first_present_exec(s: &[char], pats: &[&str]) -> (r: Option<usize>)
    ensures
        match r {
            Some(i) => first_present(s@, strs_view(pats@)) == Some(i as int),
            None => first_present(s@, strs_view(pats@)) is None,
        },
{
    let ghost v = strs_view(pats@);
    let mut k: usize = 0;
    while k < pats.len()
        invariant
            k <= pats.len(),
            v.len() == pats.len(),
            v == strs_view(pats@),
            first_present(s@, v) == first_present_from(s@, v, k as int),
        decreases pats.len() - k,
    {
        if contains_str(s, pats[k]) {
            assert(v[k as int] == pats@[k as int]@);
            return Some(k);
        }
        assert(v[k as int] == pats@[k as int]@);
        k += 1;
    }
    None
}

} // verus!

verus! {

/// `parts` joined with `sep` between consecutive parts (Rust's `join`).
pub open spec fn seq_join(parts: Seq<Seq<char>>, sep: Seq<char>) -> Seq<char>
    decreases parts.len(),
{
    if parts.len() == 0 {
        Seq::empty()
    } else if parts.len() == 1 {
        parts[0]
    } else {
        seq_join(parts.drop_last(), sep) + sep + parts.last()
    }
}

/// Whether two character sequences are equal.
pub fn chars_eq(a: &[char], b: &[char]) -> (r: bool)
    ensures
        r == (a@ == b@),
{
    if a.len() != b.len() {
        return false;
    }
    let r = starts_with_exec(a, b);
    assert(a@.take(b@.len() as int) =~= a@);
    r
}

/// Whether a string holds exactly the characters `b`.
pub fn str_eq_chars(a: &str, b: &[char]) -> (r: bool)
    ensures
        r == (a@ == b@),
{
    let v = str_chars(a);
    chars_eq(v.as_slice(), b)
}

/// Whether two strings hold the same characters.
pub fn str_eq(a: &str, b: &str) -> (r: bool)
    ensures
        r == (a@ == b@),
{
    let v = str_chars(b);
    str_eq_chars(a, v.as_slice())
}

/// Appends `sep` and then `part` (or only `part` when it is the first) so
/// that `out` grows from `seq_join(parts[..k])` to `seq_join(parts[..k+1])`.
pub proof fn lemma_join_step(parts: Seq<Seq<char>>, sep: Seq<char>, k: int)
    requires
        0 <= k < parts.len(),
    ensures
        seq_join(parts.take(k + 1), sep) == if k == 0 {
            parts[0]
        } else {
            seq_join(parts.take(k), sep) + sep + parts[k]
        },
{
    assert(parts.take(k + 1).drop_last() =~= parts.take(k));
}

} // verus!

verus! {

/// A line without the `\r` of a `\r\n` ending.
pub open spec fn strip_cr(l: Seq<char>) -> Seq<char> {
    if l.len() > 0 && l.last() == '\r' {
        l.drop_last()
    } else {
        l
    }
}

/// The lines of `s` from index `k` on (Rust's `str::lines`: split at `\n`,
/// a `\r` before the `\n` dropped, no empty line after a final `\n`).
pub open spec fn lines_from(s: Seq<char>, k: int) -> Seq<Seq<char>>
    decreases s.len() - k,
{
    if k < 0 || k >= s.len() {
        Seq::empty()
    } else {
        match find_from(s, seq!['\n'], k) {
            None => seq![s.subrange(k, s.len() as int)],
            Some(i) => {
                proof {
                    lemma_find_from(s, seq!['\n'], k);
                }
                seq![strip_cr(s.subrange(k, i))] + lines_from(s, i + 1)
            },
        }
    }
}

/// The lines of `s` (Rust's `str::lines`).
pub open spec fn lines(s: Seq<char>) -> Seq<Seq<char>> {
    lines_from(s, 0)
}

/// The lines of `s`.
pub fn split_lines(s: &[char]) -> (r: Vec<Vec<char>>)
    ensures
        r@.map_values(|l: Vec<char>| l@) == lines(s@),
{
    let mut nl: Vec<char> = Vec::new();
    nl.push('\n');
    assert(nl@ =~= seq!['\n']);
    let mut out: Vec<Vec<char>> = Vec::new();
    let mut k: usize = 0;
    while k < s.len()
        invariant
            k <= s.len(),
            nl@ == seq!['\n'],
            lines(s@) == out@.map_values(|l: Vec<char>| l@) + lines_from(s@, k as int),
        decreases s.len() - k,
    {
        let ghost prev = out@.map_values(|l: Vec<char>| l@);
        match find_from_exec(s, nl.as_slice(), k) {
            None => {
                let mut line: Vec<char> = Vec::new();
                push_range(&mut line, s, k, s.len());
                out.push(line);
                assert(out@.map_values(|l: Vec<char>| l@) =~= prev + lines_from(s@, k as int));
                assert(lines_from(s@, s.len() as int) =~= Seq::<Seq<char>>::empty());
                k = s.len();
            },
            Some(i) => {
                proof {
                    lemma_find_from(s@, nl@, k as int);
                    assert(matches_at(s@, nl@, i as int));
                }
                assert(i < s.len());
                let mut end = i;
                if end > k && s[end - 1] == '\r' {
                    end -= 1;
                }
                let mut line: Vec<char> = Vec::new();
                push_range(&mut line, s, k, end);
                assert(line@ =~= strip_cr(s@.subrange(k as int, i as int)));
                out.push(line);
                assert(out@.map_values(|l: Vec<char>| l@) + lines_from(s@, i + 1) =~= prev
                    + lines_from(s@, k as int));
                k = i + 1;
            },
        }
    }
    assert(out@.map_values(|l: Vec<char>| l@) + lines_from(s@, k as int) =~= out@.map_values(
        |l: Vec<char>| l@,
    ));
    out
}

/// End of the word (run of non-whitespace) starting at `i`.
pub open spec fn word_end(s: Seq<char>, i: int) -> int
    decreases s.len() - i,
{
    if 0 <= i < s.len() && !is_ws(s[i]) {
        word_end(s, i + 1)
    } else {
        i
    }
}

/// `word_end` does not move backwards and stays inside the text.
pub proof fn lemma_word_end(s: Seq<char>, i: int)
    requires
        0 <= i <= s.len(),
    ensures
        i <= word_end(s, i) <= s.len(),
        forall|j: int| i <= j < word_end(s, i) ==> !is_ws(#[trigger] s[j]),
    decreases s.len() - i,
{
    if i < s.len() && !is_ws(s[i]) {
        lemma_word_end(s, i + 1);
    }
}

/// The whitespace-separated words of `s` from index `i` on (Rust's
/// `str::split_whitespace`).
pub open spec fn words_from(s: Seq<char>, i: int) -> Seq<Seq<char>>
    decreases s.len() - i,
{
    if i < 0 || i >= s.len() {
        Seq::empty()
    } else if is_ws(s[i]) {
        words_from(s, i + 1)
    } else {
        let e = word_end(s, i);
        proof {
            lemma_word_end(s, i + 1);
        }
        seq![s.subrange(i, e)] + words_from(s, e)
    }
}

/// The whitespace-separated words of `s`.
pub open spec fn words(s: Seq<char>) -> Seq<Seq<char>> {
    words_from(s, 0)
}

/// The whitespace-separated words of `s`.
pub fn split_words(s: &[char]) -> (r: Vec<Vec<char>>)
    ensures
        r@.map_values(|w: Vec<char>| w@) == words(s@),
{
    let mut out: Vec<Vec<char>> = Vec::new();
    let mut i: usize = 0;
    while i < s.len()
        invariant
            i <= s.len(),
            words(s@) == out@.map_values(|w: Vec<char>| w@) + words_from(s@, i as int),
        decreases s.len() - i,
    {
        let ghost prev = out@.map_values(|w: Vec<char>| w@);
        if is_ws_exec(s[i]) {
            i += 1;
        } else {
            let start = i;
            proof {
                lemma_word_end(s@, start as int);
            }
            while i < s.len() && !is_ws_exec(s[i])
                invariant
                    start <= i <= s.len(),
                    word_end(s@, start as int) == word_end(s@, i as int),
                decreases s.len() - i,
            {
                i += 1;
            }
            let mut w: Vec<char> = Vec::new();
            push_range(&mut w, s, start, i);
            out.push(w);
            assert(out@.map_values(|w: Vec<char>| w@) + words_from(s@, i as int) =~= prev
                + words_from(s@, start as int));
        }
    }
    assert(out@.map_values(|w: Vec<char>| w@) + words_from(s@, i as int) =~= out@.map_values(
        |w: Vec<char>| w@,
    ));
    out
}

/// `parts` joined by `sep`.
pub fn join_chars(parts: &[Vec<char>], sep: &str) -> (r: Vec<char>)
    ensures
        r@ == seq_join(parts@.map_values(|w: Vec<char>| w@), sep@),
{
    let ghost pv = parts@.map_values(|w: Vec<char>| w@);
    let mut out: Vec<char> = Vec::new();
    let mut k: usize = 0;
    while k < parts.len()
        invariant
            k <= parts.len(),
            pv == parts@.map_values(|w: Vec<char>| w@),
            out@ == seq_join(pv.take(k as int), sep@),
        decreases parts.len() - k,
    {
        proof {
            lemma_join_step(pv, sep@, k as int);
        }
        if k > 0 {
            push_str(&mut out, sep);
        }
        push_all(&mut out, parts[k].as_slice());
        k += 1;
    }
    assert(pv.take(k as int) =~= pv);
    out
}

} // verus!

verus! {

/// An occurrence of `m` inside an occurrence of `p` is an occurrence in `s`.
pub proof fn lemma_matches_within(s: Seq<char>, p: Seq<char>, m: Seq<char>, i: int, j: int)
    requires
        matches_at(s, p, i),
        matches_at(p, m, j),
    ensures
        matches_at(s, m, i + j),
{
    assert(s.subrange(i + j, i + j + m.len()) =~= p.subrange(j, j + m.len()));
}

/// Text that contains `p`, where `p` contains `m`, contains `m`.
pub proof fn lemma_contains_trans(s: Seq<char>, p: Seq<char>, m: Seq<char>)
    requires
        contains(s, p),
        contains(p, m),
    ensures
        contains(s, m),
{
    lemma_contains(s, p);
    lemma_contains(p, m);
    let i = choose|i: int| matches_at(s, p, i);
    let j = choose|j: int| matches_at(p, m, j);
    lemma_matches_within(s, p, m, i, j);
    lemma_contains_at(s, m, i + j);
}

/// Replacing an occurrence of `pat` puts `rep` where it was.
pub proof fn lemma_replace_first_has_rep(s: Seq<char>, pat: Seq<char>, rep: Seq<char>)
    requires
        contains(s, pat),
    ensures
        matches_at(replace_first(s, pat, rep), rep, find(s, pat)->0),
        contains(replace_first(s, pat, rep), rep),
{
    lemma_find_from(s, pat, 0);
    let i = find(s, pat)->0;
    let t = replace_first(s, pat, rep);
    assert(t.subrange(i, i + rep.len()) =~= rep);
    lemma_contains_at(t, rep, i);
}

/// When `pat` is absent, replacing it changes nothing.
pub proof fn lemma_replace_first_absent(s: Seq<char>, pat: Seq<char>, rep: Seq<char>)
    requires
        !contains(s, pat),
    ensures
        replace_first(s, pat, rep) == s,
{
}

/// Text `a + b` contains both of its parts.
pub proof fn lemma_contains_parts(a: Seq<char>, b: Seq<char>)
    ensures
        contains(a + b, a),
        contains(a + b, b),
{
    assert((a + b).subrange(0, a.len() as int) =~= a);
    lemma_contains_at(a + b, a, 0);
    assert((a + b).subrange(a.len() as int, (a.len() + b.len()) as int) =~= b);
    lemma_contains_at(a + b, b, a.len() as int);
}

/// `s` with every `p` replaced by `r`, character by character.
pub open spec fn map_char(s: Seq<char>, p: char, r: Seq<char>) -> Seq<char>
    decreases s.len(),
{
    if s.len() == 0 {
        Seq::empty()
    } else {
        (if s[0] == p {
            r
        } else {
            seq![s[0]]
        }) + map_char(s.drop_first(), p, r)
    }
}

/// The character map distributes over concatenation.
pub proof fn lemma_map_char_concat(a: Seq<char>, b: Seq<char>, p: char, r: Seq<char>)
    ensures
        map_char(a + b, p, r) == map_char(a, p, r) + map_char(b, p, r),
    decreases a.len(),
{
    if a.len() == 0 {
        assert(a + b =~= b);
        assert(map_char(a, p, r) + map_char(b, p, r) =~= map_char(b, p, r));
    } else {
        assert((a + b).drop_first() =~= a.drop_first() + b);
        assert((a + b)[0] == a[0]);
        lemma_map_char_concat(a.drop_first(), b, p, r);
        assert(map_char(a + b, p, r) =~= map_char(a, p, r) + map_char(b, p, r));
    }
}

/// Without `p` the character map changes nothing.
pub proof fn lemma_map_char_absent(s: Seq<char>, p: char, r: Seq<char>)
    requires
        forall|i: int| 0 <= i < s.len() ==> s[i] != p,
    ensures
        map_char(s, p, r) == s,
    decreases s.len(),
{
    if s.len() > 0 {
        assert forall|i: int| 0 <= i < s.drop_first().len() implies s.drop_first()[i] != p by {
            assert(s.drop_first()[i] == s[i + 1]);
        }
        lemma_map_char_absent(s.drop_first(), p, r);
        assert(seq![s[0]] + s.drop_first() =~= s);
    }
}

/// Replacing every occurrence of a single character, scanning from `k`, is
/// the character map of the rest of the text.
proof fn lemma_replace_all_from_single(s: Seq<char>, p: char, r: Seq<char>, k: int)
    requires
        0 <= k <= s.len(),
    ensures
        replace_all_from(s, seq![p], r, k) == map_char(s.skip(k), p, r),
    decreases s.len() - k,
{
    let pat = seq![p];
    lemma_find_from(s, pat, k);
    match find_from(s, pat, k) {
        None => {
            assert forall|j: int| 0 <= j < s.skip(k).len() implies s.skip(k)[j] != p by {
                if s.skip(k)[j] == p {
                    assert(s.subrange(k + j, k + j + 1) =~= pat);
                    assert(matches_at(s, pat, k + j));
                }
            }
            lemma_map_char_absent(s.skip(k), p, r);
        },
        Some(i) => {
            assert(s.subrange(i, i + 1)[0] == s[i]);
            assert(s[i] == p);
            assert forall|j: int| 0 <= j < s.subrange(k, i).len() implies s.subrange(k, i)[j] != p by {
                if s.subrange(k, i)[j] == p {
                    assert(s.subrange(k + j, k + j + 1) =~= pat);
                    assert(matches_at(s, pat, k + j));
                }
            }
            lemma_map_char_absent(s.subrange(k, i), p, r);
            lemma_replace_all_from_single(s, p, r, i + 1);
            assert(s.skip(k) =~= s.subrange(k, i) + (seq![s[i]] + s.skip(i + 1)));
            lemma_map_char_concat(s.subrange(k, i), seq![s[i]] + s.skip(i + 1), p, r);
            assert((seq![s[i]] + s.skip(i + 1)).drop_first() =~= s.skip(i + 1));
            assert(map_char(seq![s[i]] + s.skip(i + 1), p, r) == r + map_char(s.skip(i + 1), p, r));
        },
    }
}

/// Replacing every occurrence of a single character is its character map.
pub proof fn lemma_replace_all_single(s: Seq<char>, p: char, r: Seq<char>)
    ensures
        replace_all(s, seq![p], r) == map_char(s, p, r),
{
    lemma_replace_all_from_single(s, p, r, 0);
    assert(s.skip(0) =~= s);
}

/// Text that neither starts nor ends with whitespace is its own trim.
pub proof fn lemma_trim_noop(s: Seq<char>)
    requires
        s.len() > 0,
        !is_ws(s[0]),
        !is_ws(s.last()),
    ensures
        trim(s) == s,
{
    assert(lead_ws(s) == 0);
    assert(s.skip(0) =~= s);
    assert(trail_ws(s) == 0);
    assert(s.take(s.len() as int) =~= s);
}

/// A join of two or more parts is its first part, the separator, and the
/// join of the rest.
pub proof fn lemma_join_front(parts: Seq<Seq<char>>, sep: Seq<char>)
    requires
        parts.len() >= 2,
    ensures
        seq_join(parts, sep) == parts[0] + sep + seq_join(parts.drop_first(), sep),
    decreases parts.len(),
{
    let rest = parts.drop_first();
    if parts.len() == 2 {
        assert(parts.drop_last().len() == 1);
        assert(seq_join(parts.drop_last(), sep) == parts.drop_last()[0]);
        assert(parts.drop_last()[0] == parts[0]);
        assert(rest.len() == 1);
        assert(seq_join(rest, sep) == rest[0]);
        assert(parts.last() == rest[0]);
    } else {
        lemma_join_front(parts.drop_last(), sep);
        assert(parts.drop_last().drop_first() =~= rest.drop_last());
        assert(rest.last() == parts.last());
        assert(parts.drop_last()[0] == parts[0]);
        assert(seq_join(parts, sep) =~= parts[0] + sep + seq_join(rest, sep));
    }
}

/// No character of `r` occurs in `p`.
pub open spec fn disjoint_chars(r: Seq<char>, p: Seq<char>) -> bool {
    forall|i: int, j: int| 0 <= i < r.len() && 0 <= j < p.len() ==> r[i] != p[j]
}

/// Replacing every occurrence of `p` by a non-empty `r` that shares no
/// character with `p` leaves no occurrence of `p`, scanning from `k`.
proof fn lemma_replace_all_from_removes(s: Seq<char>, p: Seq<char>, r: Seq<char>, k: int)
    requires
        0 <= k <= s.len(),
        p.len() > 0,
        r.len() > 0,
        disjoint_chars(r, p),
    ensures
        forall|q: int| !matches_at(#[trigger] replace_all_from(s, p, r, k), p, q),
    decreases s.len() - k,
{
    lemma_find_from(s, p, k);
    let out = replace_all_from(s, p, r, k);
    match find_from(s, p, k) {
        None => {
            assert forall|q: int| !matches_at(out, p, q) by {
                if matches_at(out, p, q) {
                    assert(out == s.skip(k));
                    assert(s.subrange(k + q, k + q + p.len()) =~= out.subrange(q, q + p.len()));
                    assert(matches_at(s, p, k + q));
                }
            }
        },
        Some(i) => {
            let e = i + p.len();
            lemma_replace_all_from_removes(s, p, r, e);
            let tail = replace_all_from(s, p, r, e);
            let head = s.subrange(k, i);
            assert(out == head + r + tail);
            assert forall|q: int| !matches_at(out, p, q) by {
                if matches_at(out, p, q) {
                    let h = head.len() as int;
                    let n = p.len() as int;
                    if q + n <= h {
                        assert(s.subrange(k + q, k + q + n) =~= out.subrange(q, q + n));
                        assert(matches_at(s, p, k + q));
                    } else if q < h {
                        assert(out[h] == r[0]);
                        assert(out.subrange(q, q + n)[h - q] == out[h]);
                        assert(p[h - q] == r[0]);
                    } else if q < h + r.len() {
                        assert(out[q] == r[q - h]);
                        assert(out.subrange(q, q + n)[0] == out[q]);
                        assert(p[0] == r[q - h]);
                    } else {
                        let t = q - h - r.len();
                        assert(tail.subrange(t, t + n) =~= out.subrange(q, q + n));
                        assert(matches_at(tail, p, t));
                    }
                }
            }
        },
    }
}

/// Replacing every occurrence of `p` by a non-empty `r` that shares no
/// character with `p` leaves no occurrence of `p`.
pub proof fn lemma_replace_all_removes(s: Seq<char>, p: Seq<char>, r: Seq<char>)
    requires
        p.len() > 0,
        r.len() > 0,
        disjoint_chars(r, p),
    ensures
        !contains(replace_all(s, p, r), p),
{
    lemma_replace_all_from_removes(s, p, r, 0);
    lemma_contains(replace_all(s, p, r), p);
}

// ── Overlap of occurrences ───────────────────────────────────────────────────

/// An occurrence of `b` starting `d` characters into an occurrence of `a`
/// disagrees with it somewhere.
pub open spec fn clash_at(a: Seq<char>, b: Seq<char>, d: int) -> bool {
    exists|idx: int| 0 <= idx < b.len() && d + idx < a.len() && a[d + idx] != b[idx]
}

/// No occurrence of `b` can start `d` characters into an occurrence of `a`,
/// for any `d` from `lo` up to the end of `a`.
pub open spec fn clash_from(a: Seq<char>, b: Seq<char>, lo: int) -> bool {
    forall|d: int| lo <= d < a.len() ==> #[trigger] clash_at(a, b, d)
}

/// Clashing texts cannot both occur at overlapping positions.
pub proof fn lemma_no_overlap(x: Seq<char>, a: Seq<char>, b: Seq<char>, lo: int, i: int, j: int)
    requires
        0 <= lo,
        clash_from(a, b, lo),
        matches_at(x, a, i),
        i + lo <= j < i + a.len(),
    ensures
        !matches_at(x, b, j),
{
    if matches_at(x, b, j) {
        let d = j - i;
        assert(clash_at(a, b, d));
        let idx = choose|idx: int| 0 <= idx < b.len() && d + idx < a.len() && a[d + idx] != b[idx];
        assert(x.subrange(j, j + b.len())[idx] == x[j + idx]);
        assert(x.subrange(i, i + a.len())[d + idx] == x[i + d + idx]);
    }
}

/// A match in the right part of a concatenation is a match in that part.
pub proof fn lemma_matches_right(a: Seq<char>, b: Seq<char>, pat: Seq<char>, q: int)
    requires
        0 <= q,
    ensures
        matches_at(a + b, pat, a.len() + q) == matches_at(b, pat, q),
{
    if q + pat.len() <= b.len() {
        assert((a + b).subrange(a.len() + q, a.len() + q + pat.len()) =~= b.subrange(q, q + pat.len()));
    }
}

/// A match inside the left part of a concatenation is a match in that part.
pub proof fn lemma_matches_left(a: Seq<char>, b: Seq<char>, pat: Seq<char>, p: int)
    requires
        0 <= p,
        p + pat.len() <= a.len(),
    ensures
        matches_at(a + b, pat, p) == matches_at(a, pat, p),
{
    assert((a + b).subrange(p, p + pat.len()) =~= a.subrange(p, p + pat.len()));
}

/// A match in a suffix is a match in the whole text.
pub proof fn lemma_matches_skip(s: Seq<char>, pat: Seq<char>, k: int, p: int)
    requires
        0 <= k <= s.len(),
        0 <= p,
    ensures
        matches_at(s.skip(k), pat, p) == matches_at(s, pat, k + p),
{
    if p + pat.len() <= s.len() - k {
        assert(s.skip(k).subrange(p, p + pat.len()) =~= s.subrange(k + p, k + p + pat.len()));
    }
}

/// A match in a slice is a match in the whole text.
pub proof fn lemma_matches_slice(s: Seq<char>, pat: Seq<char>, k: int, e: int, p: int)
    requires
        0 <= k <= e <= s.len(),
        0 <= p,
        p + pat.len() <= e - k,
    ensures
        matches_at(s.subrange(k, e), pat, p) == matches_at(s, pat, k + p),
{
    assert(s.subrange(k, e).subrange(p, p + pat.len()) =~= s.subrange(k + p, k + p + pat.len()));
}

/// After replacing every `old`, none is left, when `old` can neither start
/// inside nor cut into the replacement.
pub proof fn lemma_replace_all_clears(s: Seq<char>, old: Seq<char>, new: Seq<char>, k: int)
    requires
        0 <= k <= s.len(),
        old.len() > 0,
        new.len() > 0,
        clash_from(new, old, 0),
        clash_from(old, new, 1),
    ensures
        forall|p: int| !#[trigger] matches_at(replace_all_from(s, old, new, k), old, p),
    decreases s.len() - k,
{
    let out = replace_all_from(s, old, new, k);
    lemma_find_from(s, old, k);
    match find_from(s, old, k) {
        None => {
            assert forall|p: int| !#[trigger] matches_at(out, old, p) by {
                if p >= 0 {
                    lemma_matches_skip(s, old, k, p);
                }
            }
        },
        Some(i) => {
            let e = i + old.len();
            lemma_replace_all_clears(s, old, new, e);
            let rest = replace_all_from(s, old, new, e);
            let a = s.subrange(k, i);
            let b = new + rest;
            assert(out =~= a + b);
            assert(matches_at(b, new, 0)) by {
                assert(b.subrange(0, new.len() as int) =~= new);
            }
            lemma_matches_right(a, b, new, 0);
            assert forall|p: int| !#[trigger] matches_at(out, old, p) by {
                if matches_at(out, old, p) {
                    if p + old.len() <= a.len() {
                        lemma_matches_left(a, b, old, p);
                        lemma_matches_slice(s, old, k, i, p);
                        assert(!matches_at(s, old, k + p));
                    } else if p < a.len() {
                        lemma_no_overlap(out, old, new, 1, p, a.len() as int);
                    } else if p < a.len() + new.len() {
                        lemma_no_overlap(out, new, old, 0, a.len() as int, p);
                    } else {
                        lemma_matches_right(a, b, old, p - a.len());
                        lemma_matches_right(new, rest, old, p - a.len() - new.len());
                    }
                }
            }
        },
    }
}

/// Replacing every `old`, when some is present, writes `new`.
pub proof fn lemma_replace_all_writes(s: Seq<char>, old: Seq<char>, new: Seq<char>)
    requires
        old.len() > 0,
        contains(s, old),
    ensures
        contains(replace_all(s, old, new), new),
{
    lemma_find_from(s, old, 0);
    let i = find_from(s, old, 0)->0;
    let out = replace_all(s, old, new);
    let a = s.subrange(0, i);
    let b = new + replace_all_from(s, old, new, i + old.len());
    assert(out =~= a + b);
    assert(matches_at(b, new, 0)) by {
        assert(b.subrange(0, new.len() as int) =~= new);
    }
    lemma_matches_right(a, b, new, 0);
    lemma_contains_at(out, new, i);
}

/// An occurrence of a text that cannot overlap `old` survives replacing
/// every `old`.
pub proof fn lemma_replace_all_keeps(s: Seq<char>, old: Seq<char>, new: Seq<char>, m: Seq<char>, k: int, p: int)
    requires
        0 <= k <= p,
        old.len() > 0,
        matches_at(s, m, p),
        clash_from(old, m, 0),
        clash_from(m, old, 1),
    ensures
        contains(replace_all_from(s, old, new, k), m),
    decreases s.len() - k,
{
    let out = replace_all_from(s, old, new, k);
    lemma_find_from(s, old, k);
    match find_from(s, old, k) {
        None => {
            lemma_matches_skip(s, m, k, p - k);
            lemma_contains_at(out, m, p - k);
        },
        Some(i) => {
            let e = i + old.len();
            let rest = replace_all_from(s, old, new, e);
            let a = s.subrange(k, i);
            assert(out =~= a + (new + rest));
            if p + m.len() <= i {
                lemma_matches_slice(s, m, k, i, p - k);
                lemma_matches_left(a, new + rest, m, p - k);
                lemma_contains_at(out, m, p - k);
            } else if p < i {
                lemma_no_overlap(s, m, old, 1, p, i);
            } else if p < e {
                lemma_no_overlap(s, old, m, 0, i, p);
            } else {
                lemma_replace_all_keeps(s, old, new, m, e, p);
                lemma_contains(rest, m);
                let q = choose|q: int| matches_at(rest, m, q);
                lemma_matches_right(new, rest, m, q);
                lemma_matches_right(a, new + rest, m, new.len() + q);
                lemma_contains_at(out, m, a.len() + new.len() + q);
            }
        },
    }
}

/// A text absent from the scanned part stays absent after replacing every
/// `old`, when it can neither start inside nor cut into the replacement.
pub proof fn lemma_replace_all_keeps_out(s: Seq<char>, old: Seq<char>, new: Seq<char>, m: Seq<char>, k: int)
    requires
        0 <= k <= s.len(),
        old.len() > 0,
        new.len() > 0,
        forall|q: int| k <= q ==> !#[trigger] matches_at(s, m, q),
        clash_from(new, m, 0),
        clash_from(m, new, 1),
    ensures
        forall|p: int| !#[trigger] matches_at(replace_all_from(s, old, new, k), m, p),
    decreases s.len() - k,
{
    let out = replace_all_from(s, old, new, k);
    lemma_find_from(s, old, k);
    match find_from(s, old, k) {
        None => {
            assert forall|p: int| !#[trigger] matches_at(out, m, p) by {
                if p >= 0 {
                    lemma_matches_skip(s, m, k, p);
                }
            }
        },
        Some(i) => {
            let e = i + old.len();
            lemma_replace_all_keeps_out(s, old, new, m, e);
            let rest = replace_all_from(s, old, new, e);
            let a = s.subrange(k, i);
            let b = new + rest;
            assert(out =~= a + b);
            assert(matches_at(b, new, 0)) by {
                assert(b.subrange(0, new.len() as int) =~= new);
            }
            lemma_matches_right(a, b, new, 0);
            assert forall|p: int| !#[trigger] matches_at(out, m, p) by {
                if matches_at(out, m, p) {
                    if p + m.len() <= a.len() {
                        lemma_matches_left(a, b, m, p);
                        lemma_matches_slice(s, m, k, i, p);
                    } else if p < a.len() {
                        lemma_no_overlap(out, m, new, 1, p, a.len() as int);
                    } else if p < a.len() + new.len() {
                        lemma_no_overlap(out, new, m, 0, a.len() as int, p);
                    } else {
                        lemma_matches_right(a, b, m, p - a.len());
                        lemma_matches_right(new, rest, m, p - a.len() - new.len());
                    }
                }
            }
        },
    }
}

/// Two texts in which no shifted copy of `m` fits keep that property when
/// joined.
pub proof fn lemma_clash_concat(a: Seq<char>, b: Seq<char>, m: Seq<char>)
    requires
        clash_from(a, m, 0),
        clash_from(b, m, 0),
    ensures
        clash_from(a + b, m, 0),
{
    assert forall|d: int| 0 <= d < (a + b).len() implies #[trigger] clash_at(a + b, m, d) by {
        if d < a.len() {
            assert(clash_at(a, m, d));
            let idx = choose|idx: int| 0 <= idx < m.len() && d + idx < a.len() && a[d + idx] != m[idx];
            assert((a + b)[d + idx] == a[d + idx]);
        } else {
            assert(clash_at(b, m, d - a.len()));
            let idx = choose|idx: int| 0 <= idx < m.len() && d - a.len() + idx < b.len() && b[d - a.len() + idx] != m[idx];
            assert((a + b)[d + idx] == b[d - a.len() + idx]);
        }
    }
}

/// Searching from `k + j` is searching the suffix from `k` at `j`, shifted.
pub proof fn lemma_find_from_skip(x: Seq<char>, pat: Seq<char>, k: int, j: int)
    requires
        0 <= k <= x.len(),
        0 <= j,
    ensures
        find_from(x, pat, k + j) == match find_from(x.skip(k), pat, j) {
            Some(r) => Some(r + k),
            None => None::<int>,
        },
    decreases x.len() - (k + j),
{
    lemma_matches_skip(x, pat, k, j);
    if k + j + pat.len() <= x.len() && !matches_at(x, pat, k + j) && k + j < x.len() {
        lemma_find_from_skip(x, pat, k, j + 1);
    }
}

/// Two replacements at the first occurrences of two texts that do not
/// overlap, each leaving the other's first occurrence where it was
/// (shifted when it lies behind), give the same text in either order.
pub proof fn lemma_replace_commutes(s: Seq<char>, x: Seq<char>, x2: Seq<char>, y: Seq<char>, y2: Seq<char>)
    requires
        x.len() > 0,
        y.len() > 0,
        find(s, x) is Some,
        find(s, y) is Some,
        find(s, x)->0 + x.len() <= find(s, y)->0 || find(s, y)->0 + y.len() <= find(s, x)->0,
        find(replace_first(s, x, x2), y) == Some(
            if find(s, y)->0 < find(s, x)->0 {
                find(s, y)->0
            } else {
                find(s, y)->0 + x2.len() - x.len()
            },
        ),
        find(replace_first(s, y, y2), x) == Some(
            if find(s, x)->0 < find(s, y)->0 {
                find(s, x)->0
            } else {
                find(s, x)->0 + y2.len() - y.len()
            },
        ),
    ensures
        replace_first(replace_first(s, x, x2), y, y2) == replace_first(replace_first(s, y, y2), x, x2),
{
    let i = find(s, x)->0;
    let j = find(s, y)->0;
    lemma_find_from(s, x, 0);
    lemma_find_from(s, y, 0);
    let rx = s.take(i) + x2 + s.skip(i + x.len());
    let ry = s.take(j) + y2 + s.skip(j + y.len());
    assert(replace_first(s, x, x2) == rx);
    assert(replace_first(s, y, y2) == ry);
    if i + x.len() <= j {
        let j1 = j + x2.len() - x.len();
        let both = s.take(i) + x2 + s.subrange(i + x.len(), j) + y2 + s.skip(j + y.len());
        assert(replace_first(rx, y, y2) == rx.take(j1) + y2 + rx.skip(j1 + y.len()));
        assert(replace_first(ry, x, x2) == ry.take(i) + x2 + ry.skip(i + x.len()));
        assert(rx.take(j1) + y2 + rx.skip(j1 + y.len()) =~= both);
        assert(ry.take(i) + x2 + ry.skip(i + x.len()) =~= both);
    } else {
        let i1 = i + y2.len() - y.len();
        let both = s.take(j) + y2 + s.subrange(j + y.len(), i) + x2 + s.skip(i + x.len());
        assert(replace_first(rx, y, y2) == rx.take(j) + y2 + rx.skip(j + y.len()));
        assert(replace_first(ry, x, x2) == ry.take(i1) + x2 + ry.skip(i1 + x.len()));
        assert(rx.take(j) + y2 + rx.skip(j + y.len()) =~= both);
        assert(ry.take(i1) + x2 + ry.skip(i1 + x.len()) =~= both);
    }
}

/// A replacement is undone by replacing back: when no `new` ends at or
/// before the first `old` and `new` cannot overlap itself, the written
/// `new` is the first one, and replacing it by `old` gives the text back.
pub proof fn lemma_replace_undone(s: Seq<char>, old: Seq<char>, new: Seq<char>)
    requires
        find(s, old) is Some,
        forall|p: int| 0 <= p && p + new.len() <= find(s, old)->0 ==> !#[trigger] matches_at(s, new, p),
        clash_from(new, new, 1),
    ensures
        find(replace_first(s, old, new), new) == find(s, old),
        replace_first(replace_first(s, old, new), new, old) == s,
{
    let i = find(s, old)->0;
    lemma_find_from(s, old, 0);
    let r = s.take(i) + new + s.skip(i + old.len());
    assert(r.subrange(i, i + new.len()) =~= new);
    assert forall|p: int| 0 <= p < i implies !#[trigger] matches_at(r, new, p) by {
        if matches_at(r, new, p) {
            if p + new.len() <= i {
                assert(s.subrange(p, p + new.len()) =~= r.subrange(p, p + new.len()));
                assert(matches_at(s, new, p));
            } else {
                lemma_no_overlap(r, new, new, 1, p, i);
            }
        }
    }
    assert(matches_at(r, new, i));
    lemma_find_from_is(r, new, 0, i);
    assert(r.take(i) + old + r.skip(i + new.len()) =~= s);
}

/// A replacement is undone by replacing back, when `new` holds a marker
/// that the text lacks: an earlier `new` would bring its marker before the
/// written one unless it overlapped the written `new` by less than the
/// marker's end, and such overlaps clash.
pub proof fn lemma_replace_undone_marked(s: Seq<char>, old: Seq<char>, new: Seq<char>, mk: Seq<char>, off: int)
    requires
        find(s, old) is Some,
        !contains(s, mk),
        matches_at(new, mk, off),
        forall|d: int| 1 <= d < off + mk.len() ==> #[trigger] clash_at(new, new, d),
    ensures
        find(replace_first(s, old, new), new) == find(s, old),
        replace_first(replace_first(s, old, new), new, old) == s,
{
    let i = find(s, old)->0;
    lemma_find_from(s, old, 0);
    let r = s.take(i) + new + s.skip(i + old.len());
    assert(r.subrange(i, i + new.len()) =~= new);
    assert forall|p: int| 0 <= p < i implies !#[trigger] matches_at(r, new, p) by {
        if matches_at(r, new, p) {
            lemma_matches_within(r, new, mk, p, off);
            if p + off + mk.len() <= i {
                assert(s.subrange(p + off, p + off + mk.len()) =~= r.subrange(p + off, p + off + mk.len()));
                lemma_contains_at(s, mk, p + off);
            } else {
                let d = i - p;
                assert(clash_at(new, new, d));
                let idx = choose|idx: int| #![trigger new[idx]] 0 <= idx < new.len() && d + idx < new.len() && new[d + idx] != new[idx];
                assert(r.subrange(p, p + new.len())[d + idx] == r[i + idx]);
                assert(r.subrange(i, i + new.len())[idx] == r[i + idx]);
            }
        }
    }
    assert(matches_at(r, new, i));
    lemma_find_from_is(r, new, 0, i);
    assert(r.take(i) + old + r.skip(i + new.len()) =~= s);
}

} // verus!
