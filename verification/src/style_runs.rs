//! Why the unit-style normalisation of `containers.js` settles after one
//! pass: after inserting a style line behind every text line and collapsing
//! runs of style lines, every text line is followed by a style line and no
//! style line by another, and both passes leave such a text alone. The
//! argument needs only that the two lines cannot overlap each other (or
//! themselves) in a shifted position.

use vstd::prelude::*;
use crate::patch_disk::{collapse_runs_from, insert_after_each_from, lemma_run_end, run_end};
use crate::text::{
    clash_from, contains, find_from, lemma_contains_at, lemma_find_from, lemma_find_from_is, lemma_matches_left, lemma_matches_right,
    lemma_matches_skip, lemma_matches_slice, lemma_no_overlap, matches_at, replace_all_from,
};

verus! {

/// Every occurrence of `line` in `x` is directly followed by `extra`.
pub open spec fn each_followed(x: Seq<char>, line: Seq<char>, extra: Seq<char>) -> bool {
    forall|i: int| #[trigger] matches_at(x, line, i) ==> matches_at(x, extra, i + line.len())
}

/// No occurrence of `line` in `x` is directly followed by another.
pub open spec fn no_repeat(x: Seq<char>, line: Seq<char>) -> bool {
    forall|i: int| #[trigger] matches_at(x, line, i) ==> !matches_at(x, line, i + line.len())
}

/// A run ends where no further `line` follows.
pub proof fn lemma_run_end_stops(s: Seq<char>, line: Seq<char>, e: int)
    requires
        line.len() > 0,
    ensures
        !matches_at(s, line, run_end(s, line, e)),
    decreases s.len() - e,
{
    if matches_at(s, line, e) {
        lemma_run_end_stops(s, line, e + line.len());
    }
}

/// The insertion pass leaves alone a text in which every `line` is already
/// followed by `extra`.
pub proof fn lemma_insert_settled(x: Seq<char>, line: Seq<char>, extra: Seq<char>, k: int)
    requires
        0 <= k <= x.len(),
        line.len() > 0,
        each_followed(x, line, extra),
    ensures
        insert_after_each_from(x, line, extra, k) == x.skip(k),
    decreases x.len() - k,
{
    lemma_find_from(x, line, k);
    if let Some(i) = find_from(x, line, k) {
        let end = i + line.len();
        assert(matches_at(x, extra, end));
        lemma_insert_settled(x, line, extra, end);
        assert(x.subrange(k, end) + x.skip(end) =~= x.skip(k));
    }
}

/// The collapsing pass leaves alone a text with no back-to-back `line`s.
pub proof fn lemma_collapse_settled(x: Seq<char>, line: Seq<char>, k: int)
    requires
        0 <= k <= x.len(),
        line.len() > 0,
        no_repeat(x, line),
    ensures
        collapse_runs_from(x, line, k) == x.skip(k),
    decreases x.len() - k,
{
    lemma_find_from(x, line, k);
    if let Some(i) = find_from(x, line, k) {
        let e = i + line.len();
        assert(!matches_at(x, line, e));
        assert(run_end(x, line, e) == e);
        assert(run_end(x, line, i) == e);
        lemma_collapse_settled(x, line, e);
        assert(x.subrange(i, e) == line);
        assert(x.subrange(k, i) + line + x.skip(e) =~= x.skip(k));
    }
}

/// After the insertion pass every `line` is followed by `extra`; and when
/// `extra` already stood at the scan position, the output starts with it.
pub proof fn lemma_insert_followed(s: Seq<char>, line: Seq<char>, extra: Seq<char>, k: int)
    requires
        0 <= k <= s.len(),
        line.len() > 0,
        extra.len() > 0,
        clash_from(line, line, 1),
        clash_from(extra, line, 0),
    ensures
        each_followed(insert_after_each_from(s, line, extra, k), line, extra),
        matches_at(s, extra, k) ==> matches_at(insert_after_each_from(s, line, extra, k), extra, 0),
    decreases s.len() - k,
{
    let y = insert_after_each_from(s, line, extra, k);
    lemma_find_from(s, line, k);
    match find_from(s, line, k) {
        None => {
            assert(y == s.skip(k));
            assert forall|p: int| #[trigger] matches_at(y, line, p) implies matches_at(y, extra, p + line.len()) by {
                lemma_matches_skip(s, line, k, p);
            }
            lemma_matches_skip(s, extra, k, 0);
        },
        Some(i) => {
            let end = i + line.len();
            let ins = if matches_at(s, extra, end) {
                Seq::<char>::empty()
            } else {
                extra
            };
            let y_end = insert_after_each_from(s, line, extra, end);
            lemma_insert_followed(s, line, extra, end);
            let a = s.subrange(k, end);
            let b = ins + y_end;
            assert(y =~= a + b);
            lemma_matches_slice(s, line, k, end, i - k);
            lemma_matches_left(a, b, line, i - k);
            // The output starts with `extra` when the text did.
            if matches_at(s, extra, k) {
                if i < k + extra.len() {
                    lemma_no_overlap(s, extra, line, 0, k, i);
                }
                lemma_matches_slice(s, extra, k, end, 0);
                lemma_matches_left(a, b, extra, 0);
            }
            // Whatever follows the found line starts with `extra`.
            assert(matches_at(b, extra, 0)) by {
                if ins.len() == 0 {
                    assert(b =~= y_end);
                } else {
                    assert(b.subrange(0, extra.len() as int) =~= extra);
                }
            }
            lemma_matches_right(a, b, extra, 0);
            assert forall|p: int| #[trigger] matches_at(y, line, p) implies matches_at(y, extra, p + line.len()) by {
                if p + line.len() <= a.len() {
                    lemma_matches_left(a, b, line, p);
                    lemma_matches_slice(s, line, k, end, p);
                    if k + p < i {
                        assert(!matches_at(s, line, k + p));
                    }
                    if k + p > i {
                        lemma_no_overlap(s, line, line, 1, i, k + p);
                    }
                } else if p < a.len() {
                    if p < i - k {
                        lemma_no_overlap(y, line, line, 1, p, i - k);
                    } else {
                        lemma_no_overlap(y, line, line, 1, i - k, p);
                    }
                } else {
                    let q = p - a.len();
                    lemma_matches_right(a, b, line, q);
                    lemma_matches_right(a, b, extra, q + line.len());
                    if ins.len() == 0 {
                        assert(b =~= y_end);
                    } else {
                        if q < extra.len() {
                            lemma_no_overlap(b, extra, line, 0, 0, q);
                        }
                        lemma_matches_right(ins, y_end, line, q - extra.len());
                        lemma_matches_right(ins, y_end, extra, q - extra.len() + line.len());
                    }
                }
            }
        },
    }
}

/// After the collapsing pass no `extra` is followed by another, every `line`
/// that was followed by `extra` still is, and when no `extra` stood at the
/// scan position the output does not start with one.
pub proof fn lemma_collapse_settles(y: Seq<char>, line: Seq<char>, extra: Seq<char>, k: int)
    requires
        0 <= k <= y.len(),
        line.len() > 0,
        extra.len() > 0,
        clash_from(extra, extra, 1),
        clash_from(line, extra, 1),
        clash_from(extra, line, 0),
        each_followed(y, line, extra),
    ensures
        each_followed(collapse_runs_from(y, extra, k), line, extra),
        no_repeat(collapse_runs_from(y, extra, k), extra),
        !matches_at(y, extra, k) ==> !matches_at(collapse_runs_from(y, extra, k), extra, 0),
    decreases y.len() - k,
{
    let z = collapse_runs_from(y, extra, k);
    lemma_find_from(y, extra, k);
    match find_from(y, extra, k) {
        None => {
            assert(z == y.skip(k));
            assert forall|p: int| #[trigger] matches_at(z, line, p) implies matches_at(z, extra, p + line.len()) by {
                lemma_matches_skip(y, line, k, p);
                lemma_matches_skip(y, extra, k, p + line.len());
            }
            assert forall|p: int| #[trigger] matches_at(z, extra, p) implies !matches_at(z, extra, p + extra.len()) by {
                lemma_matches_skip(y, extra, k, p);
            }
            lemma_matches_skip(y, extra, k, 0);
        },
        Some(i) => {
            lemma_run_end(y, extra, i);
            let r = run_end(y, extra, i);
            lemma_run_end_stops(y, extra, i);
            lemma_collapse_settles(y, line, extra, r);
            let z_r = collapse_runs_from(y, extra, r);
            let a = y.subrange(k, i);
            let b = extra + z_r;
            assert(z =~= a + b);
            assert(matches_at(b, extra, 0)) by {
                assert(b.subrange(0, extra.len() as int) =~= extra);
            }
            lemma_matches_right(a, b, extra, 0);
            // The output starts with `extra` only when the text did.
            if !matches_at(y, extra, k) && matches_at(z, extra, 0) {
                if a.len() < extra.len() {
                    lemma_no_overlap(z, extra, extra, 1, 0, a.len() as int);
                } else {
                    lemma_matches_left(a, b, extra, 0);
                    lemma_matches_slice(y, extra, k, i, 0);
                }
            }
            assert forall|p: int| #[trigger] matches_at(z, extra, p) implies !matches_at(z, extra, p + extra.len()) by {
                if matches_at(z, extra, p + extra.len()) {
                    if p + extra.len() <= a.len() {
                        lemma_matches_left(a, b, extra, p);
                        lemma_matches_slice(y, extra, k, i, p);
                        assert(!matches_at(y, extra, k + p));
                    } else if p < a.len() {
                        lemma_no_overlap(z, extra, extra, 1, p, a.len() as int);
                    } else if p == a.len() {
                        lemma_matches_right(a, b, extra, extra.len() as int);
                        lemma_matches_right(extra, z_r, extra, 0);
                    } else if p < a.len() + extra.len() {
                        lemma_no_overlap(z, extra, extra, 1, a.len() as int, p);
                    } else {
                        let q = p - a.len() - extra.len();
                        lemma_matches_right(a, b, extra, p - a.len());
                        lemma_matches_right(a, b, extra, p - a.len() + extra.len());
                        lemma_matches_right(extra, z_r, extra, q);
                        lemma_matches_right(extra, z_r, extra, q + extra.len());
                    }
                }
            }
            assert forall|p: int| #[trigger] matches_at(z, line, p) implies matches_at(z, extra, p + line.len()) by {
                if p + line.len() <= a.len() {
                    lemma_matches_left(a, b, line, p);
                    lemma_matches_slice(y, line, k, i, p);
                    assert(matches_at(y, extra, k + p + line.len()));
                    if k + p + line.len() < i {
                        assert(!matches_at(y, extra, k + p + line.len()));
                    }
                } else if p < a.len() {
                    lemma_no_overlap(z, line, extra, 1, p, a.len() as int);
                } else if p < a.len() + extra.len() {
                    lemma_no_overlap(z, extra, line, 0, a.len() as int, p);
                } else {
                    let q = p - a.len() - extra.len();
                    lemma_matches_right(a, b, line, p - a.len());
                    lemma_matches_right(a, b, extra, p - a.len() + line.len());
                    lemma_matches_right(extra, z_r, line, q);
                    lemma_matches_right(extra, z_r, extra, q + line.len());
                }
            }
        },
    }
}

// ── Collapsing is local ──────────────────────────────────────────────────────

/// A run measured in a suffix is the run in the whole text, shifted.
pub proof fn lemma_run_end_skip(x: Seq<char>, line: Seq<char>, k: int, e: int)
    requires
        0 <= k <= e,
        k <= x.len(),
        line.len() > 0,
    ensures
        run_end(x, line, e) == k + run_end(x.skip(k), line, e - k),
    decreases x.len() - e,
{
    lemma_matches_skip(x, line, k, e - k);
    if matches_at(x, line, e) {
        lemma_run_end_skip(x, line, k, e + line.len());
    }
}

/// Collapsing from `k + j` is collapsing the suffix from `k` at `j`.
pub proof fn lemma_collapse_skip(x: Seq<char>, line: Seq<char>, k: int, j: int)
    requires
        0 <= k <= x.len(),
        0 <= j,
        k + j <= x.len(),
        line.len() > 0,
    ensures
        collapse_runs_from(x, line, k + j) == collapse_runs_from(x.skip(k), line, j),
    decreases x.len() - (k + j),
{
    let y = x.skip(k);
    lemma_find_from(x, line, k + j);
    lemma_find_from(y, line, j);
    assert forall|p: int| j <= p implies matches_at(y, line, p) == #[trigger] matches_at(x, line, k + p) by {
        lemma_matches_skip(x, line, k, p);
    }
    match find_from(y, line, j) {
        None => {
            assert forall|q: int| k + j <= q implies !#[trigger] matches_at(x, line, q) by {
                assert(matches_at(y, line, q - k) == matches_at(x, line, k + (q - k)));
            }
            if let Some(i) = find_from(x, line, k + j) {
                assert(matches_at(x, line, i));
            }
            assert(x.skip(k + j) =~= y.skip(j));
        },
        Some(i) => {
            assert(matches_at(x, line, k + i));
            assert forall|q: int| k + j <= q < k + i implies !#[trigger] matches_at(x, line, q) by {
                assert(matches_at(y, line, q - k) == matches_at(x, line, k + (q - k)));
            }
            lemma_find_from_is(x, line, k + j, k + i);
            lemma_run_end(y, line, i);
            lemma_run_end_skip(x, line, k, k + i);
            let r = run_end(y, line, i);
            lemma_collapse_skip(x, line, k, r);
            assert(x.subrange(k + j, k + i) =~= y.subrange(j, i));
        },
    }
}

/// A leading `line` merges into a run that already starts the text.
pub proof fn lemma_collapse_leading(y: Seq<char>, line: Seq<char>)
    requires
        line.len() > 0,
        matches_at(y, line, 0),
    ensures
        collapse_runs_from(line + y, line, 0) == collapse_runs_from(y, line, 0),
{
    let x = line + y;
    assert(matches_at(x, line, 0)) by {
        assert(x.subrange(0, line.len() as int) =~= line);
    }
    lemma_find_from_is(x, line, 0, 0);
    lemma_find_from_is(y, line, 0, 0);
    assert(x.skip(line.len() as int) =~= y);
    lemma_run_end_skip(x, line, line.len() as int, line.len() as int);
    assert(run_end(x, line, 0) == run_end(x, line, line.len() as int));
    lemma_run_end(y, line, 0);
    let r = run_end(y, line, 0);
    lemma_collapse_skip(x, line, line.len() as int, r);
    assert(x.subrange(0, 0) =~= y.subrange(0, 0));
}

/// Collapsing splits at a point that no `line` crosses or ends at, when a
/// `line` starts right after it.
#[verifier::spinoff_prover]
pub proof fn lemma_collapse_split(a: Seq<char>, y: Seq<char>, line: Seq<char>, k: int)
    requires
        0 <= k <= a.len(),
        line.len() > 0,
        matches_at(y, line, 0),
        forall|p: int| k <= p < a.len() && p + line.len() >= a.len() ==> !#[trigger] matches_at(a + y, line, p),
    ensures
        collapse_runs_from(a + y, line, k) == collapse_runs_from(a, line, k) + collapse_runs_from(y, line, 0),
    decreases a.len() - k,
{
    let x = a + y;
    lemma_matches_right(a, y, line, 0);
    lemma_find_from(x, line, k);
    lemma_find_from(a, line, k);
    assert forall|p: int| k <= p && p + line.len() <= a.len() implies matches_at(a, line, p) == #[trigger] matches_at(x, line, p) by {
        lemma_matches_left(a, y, line, p);
    }
    let i = find_from(x, line, k)->0;
    assert(i <= a.len());
    if i < a.len() {
        assert(i + line.len() < a.len());
        assert(matches_at(a, line, i));
        assert forall|q: int| k <= q < i implies !#[trigger] matches_at(a, line, q) by {
            if q + line.len() <= a.len() {
                assert(matches_at(a, line, q) == matches_at(x, line, q));
            }
        }
        lemma_find_from_is(a, line, k, i);
        lemma_run_end_split(a, y, line, k, i);
        lemma_run_end(a, line, i);
        let r = run_end(a, line, i);
        lemma_collapse_split(a, y, line, r);
        assert(x.subrange(k, i) =~= a.subrange(k, i));
    } else {
        assert forall|q: int| k <= q implies !#[trigger] matches_at(a, line, q) by {
            if q + line.len() <= a.len() {
                assert(matches_at(a, line, q) == matches_at(x, line, q));
            }
        }
        lemma_find_from(a, line, k);
        if let Some(j) = find_from(a, line, k) {
            assert(matches_at(a, line, j));
        }
        assert(x.skip(a.len() as int) =~= y);
        lemma_run_end_skip(x, line, a.len() as int, a.len() as int);
        lemma_find_from_is(y, line, 0, 0);
        lemma_run_end(y, line, 0);
        lemma_collapse_skip(x, line, a.len() as int, run_end(y, line, 0));
        assert(x.subrange(k, a.len() as int) =~= a.skip(k));
    }
}

/// Inside the first part, runs measured in the joined text and in the part
/// agree, when no `line` crosses or ends at the join.
proof fn lemma_run_end_split(a: Seq<char>, y: Seq<char>, line: Seq<char>, k: int, e: int)
    requires
        0 <= k <= e < a.len(),
        line.len() > 0,
        forall|p: int| k <= p < a.len() && p + line.len() >= a.len() ==> !#[trigger] matches_at(a + y, line, p),
    ensures
        run_end(a + y, line, e) == run_end(a, line, e),
        run_end(a, line, e) < a.len(),
    decreases a.len() - e,
{
    if e + line.len() <= a.len() {
        lemma_matches_left(a, y, line, e);
        if matches_at(a + y, line, e) {
            assert(e + line.len() < a.len());
            lemma_run_end_split(a, y, line, k, e + line.len());
        }
    } else {
        assert(!matches_at(a, line, e));
        assert(!matches_at(a + y, line, e));
    }
}

// ── A migration that appends a style line ────────────────────────────────────

/// `to` is `from` followed by a newline and `extra` without its final
/// newline, and `from` plus a newline ends with `line`.
pub open spec fn appends_extra(from: Seq<char>, to: Seq<char>, line: Seq<char>, extra: Seq<char>) -> bool {
    &&& from.len() > 0
    &&& from[0] != '\n'
    &&& line.len() > 0
    &&& extra.len() > 0
    &&& line.len() <= from.len() + 1
    &&& extra[extra.len() - 1] == '\n'
    &&& (from + seq!['\n']).subrange(from.len() + 1 - line.len(), (from.len() + 1) as int) == line
    &&& to == from + seq!['\n'] + extra.drop_last()
}

/// Every `from` in `n` is followed by a newline.
pub open spec fn ends_in_newline(n: Seq<char>, from: Seq<char>) -> bool {
    forall|i: int| #[trigger] matches_at(n, from, i) ==> i + from.len() < n.len() && n[i + from.len()] == '\n'
}

/// From a newline, the replacement scan copies it and goes on after it.
proof fn lemma_replace_from_newline(n: Seq<char>, from: Seq<char>, to: Seq<char>, e: int)
    requires
        0 <= e < n.len(),
        n[e] == '\n',
        from.len() > 0,
        from[0] != '\n',
    ensures
        replace_all_from(n, from, to, e) == seq!['\n'] + replace_all_from(n, from, to, e + 1),
{
    assert(!matches_at(n, from, e)) by {
        if matches_at(n, from, e) {
            assert(n.subrange(e, e + from.len())[0] == n[e]);
        }
    }
    lemma_find_from(n, from, e);
    lemma_find_from(n, from, e + 1);
    if let Some(j) = find_from(n, from, e) {
        lemma_find_from_is(n, from, e + 1, j);
        assert(n.subrange(e, j) =~= seq!['\n'] + n.subrange(e + 1, j));
    } else {
        assert(n.skip(e) =~= seq!['\n'] + n.skip(e + 1));
    }
}

/// No `extra` crosses or ends at the end of a text that ends with `line`.
proof fn lemma_join_clean(a: Seq<char>, y: Seq<char>, line: Seq<char>, extra: Seq<char>)
    requires
        0 < line.len() <= a.len(),
        matches_at(a, line, a.len() - line.len()),
        clash_from(extra, line, 0),
        clash_from(line, extra, 1),
    ensures
        forall|p: int| 0 <= p < a.len() && p + extra.len() >= a.len() ==> !#[trigger] matches_at(a + y, extra, p),
{
    let qa = a.len() - line.len();
    lemma_matches_left(a, y, line, qa);
    assert forall|p: int| 0 <= p < a.len() && p + extra.len() >= a.len() implies !#[trigger] matches_at(a + y, extra, p) by {
        if p <= qa {
            if matches_at(a + y, extra, p) {
                lemma_no_overlap(a + y, extra, line, 0, p, qa);
            }
        } else {
            lemma_no_overlap(a + y, line, extra, 1, qa, p);
        }
    }
}

/// A block of `n` ending with `line`, then `extra`, then a text in which
/// every `line` is followed by `extra`: every `line` in the whole is
/// followed by `extra`.
#[verifier::spinoff_prover]
proof fn lemma_followed_join(n: Seq<char>, line: Seq<char>, extra: Seq<char>, k: int, k2: int, rest: Seq<char>)
    requires
        0 <= k,
        line.len() > 0,
        k + line.len() <= k2 <= n.len(),
        matches_at(n, line, k2 - line.len()),
        clash_from(line, line, 1),
        clash_from(extra, line, 0),
        clash_from(line, extra, 1),
        each_followed(n, line, extra),
        each_followed(rest, line, extra),
    ensures
        each_followed(n.subrange(k, k2) + (extra + rest), line, extra),
{
    let a = n.subrange(k, k2);
    let b = extra + rest;
    let r = a + b;
    let q = k2 - line.len();
    let qa = a.len() - line.len();
    lemma_matches_slice(n, line, k, k2, qa);
    lemma_matches_left(a, b, line, qa);
    assert(matches_at(b, extra, 0)) by {
        assert(b.subrange(0, extra.len() as int) =~= extra);
    }
    lemma_matches_right(a, b, extra, 0);
    assert forall|p: int| #[trigger] matches_at(r, line, p) implies matches_at(r, extra, p + line.len()) by {
        if p + line.len() <= a.len() {
            lemma_matches_left(a, b, line, p);
            lemma_matches_slice(n, line, k, k2, p);
            let w = k + p + line.len();
            assert(matches_at(n, extra, w));
            if w < k2 {
                if w + extra.len() <= k2 {
                    lemma_matches_slice(n, extra, k, k2, p + line.len());
                    lemma_matches_left(a, b, extra, p + line.len());
                } else if w <= q {
                    lemma_no_overlap(n, extra, line, 0, w, q);
                } else {
                    lemma_no_overlap(n, line, extra, 1, q, w);
                }
            }
        } else if p < a.len() {
            if p < qa {
                lemma_no_overlap(r, line, line, 1, p, qa);
            } else {
                lemma_no_overlap(r, line, line, 1, qa, p);
            }
        } else if p < a.len() + extra.len() {
            lemma_no_overlap(r, extra, line, 0, a.len() as int, p);
        } else {
            lemma_matches_right(a, b, line, p - a.len());
            lemma_matches_right(a, b, extra, p - a.len() + line.len());
            lemma_matches_right(extra, rest, line, p - a.len() - extra.len());
            lemma_matches_right(extra, rest, extra, p - a.len() - extra.len() + line.len());
        }
    }
}

/// Replacing every `from` by `to` in a text in which every `line` is
/// followed by `extra` doubles the `extra` behind each replaced block: the
/// collapsing pass sees the same runs as on the text itself, every `line`
/// stays followed by `extra`, and a leading `extra` stays leading.
/// The shape of one replaced block: the text up to the newline after it,
/// then `extra`, then the rest of the scan.
#[verifier::spinoff_prover]
proof fn lemma_migrated_shape(n: Seq<char>, line: Seq<char>, extra: Seq<char>, from: Seq<char>, to: Seq<char>, k: int, i: int)
    requires
        0 <= k <= i,
        find_from(n, from, k) == Some(i),
        matches_at(n, from, i),
        appends_extra(from, to, line, extra),
        ends_in_newline(n, from),
    ensures
        i + from.len() + 1 <= n.len(),
        replace_all_from(n, from, to, k) == n.subrange(k, i + from.len() + 1) + (extra + replace_all_from(n, from, to, i + from.len() + 1)),
        n.skip(k) == n.subrange(k, i + from.len() + 1) + n.skip(i + from.len() + 1),
        matches_at(n, line, i + from.len() + 1 - line.len()),
{
    let e = i + from.len();
    let k2 = e + 1;
    lemma_replace_from_newline(n, from, to, e);
    let rest = replace_all_from(n, from, to, k2);
    let q = k2 - line.len();
    assert(n.subrange(i, k2) =~= from + seq!['\n']);
    assert(n.subrange(q, k2) =~= (from + seq!['\n']).subrange(from.len() + 1 - line.len(), (from.len() + 1) as int));
    assert(extra.drop_last() + seq!['\n'] =~= extra);
    assert(n.subrange(k, k2) =~= n.subrange(k, i) + from + seq!['\n']);
    assert(replace_all_from(n, from, to, k) =~= n.subrange(k, k2) + (extra + rest));
    assert(n.skip(k) =~= n.subrange(k, k2) + n.skip(k2));
}

/// Collapsing the block, a doubled `extra` and the rest agrees with
/// collapsing the block and the original rest, when the rests agree.
proof fn lemma_migrated_collapse(a: Seq<char>, rest: Seq<char>, orig: Seq<char>, line: Seq<char>, extra: Seq<char>)
    requires
        0 < line.len() <= a.len(),
        extra.len() > 0,
        matches_at(a, line, a.len() - line.len()),
        clash_from(extra, line, 0),
        clash_from(line, extra, 1),
        matches_at(rest, extra, 0),
        matches_at(orig, extra, 0),
        collapse_runs_from(rest, extra, 0) == collapse_runs_from(orig, extra, 0),
    ensures
        collapse_runs_from(a + (extra + rest), extra, 0) == collapse_runs_from(a + orig, extra, 0),
{
    let b = extra + rest;
    lemma_join_clean(a, b, line, extra);
    lemma_join_clean(a, orig, line, extra);
    assert(matches_at(b, extra, 0)) by {
        assert(b.subrange(0, extra.len() as int) =~= extra);
    }
    lemma_collapse_split(a, b, extra, 0);
    lemma_collapse_leading(rest, extra);
    lemma_collapse_split(a, orig, extra, 0);
}

/// Replacing every `from` by `to` in a text in which every `line` is
/// followed by `extra` doubles the `extra` behind each replaced block: the
/// collapsing pass sees the same runs as on the text itself, every `line`
/// stays followed by `extra`, and a leading `extra` stays leading.
#[verifier::spinoff_prover]
#[verifier::rlimit(50)]
pub proof fn lemma_migrated_runs(n: Seq<char>, line: Seq<char>, extra: Seq<char>, from: Seq<char>, to: Seq<char>, k: int)
    requires
        0 <= k <= n.len(),
        appends_extra(from, to, line, extra),
        clash_from(line, line, 1),
        clash_from(extra, line, 0),
        clash_from(line, extra, 1),
        clash_from(extra, from, 0),
        each_followed(n, line, extra),
        ends_in_newline(n, from),
    ensures
        collapse_runs_from(replace_all_from(n, from, to, k), extra, 0) == collapse_runs_from(n.skip(k), extra, 0),
        each_followed(replace_all_from(n, from, to, k), line, extra),
        matches_at(n, extra, k) ==> matches_at(replace_all_from(n, from, to, k), extra, 0),
    decreases n.len() - k,
{
    let r = replace_all_from(n, from, to, k);
    lemma_find_from(n, from, k);
    match find_from(n, from, k) {
        None => {
            assert(r == n.skip(k));
            assert forall|p: int| #[trigger] matches_at(r, line, p) implies matches_at(r, extra, p + line.len()) by {
                lemma_matches_skip(n, line, k, p);
                lemma_matches_skip(n, extra, k, p + line.len());
            }
            lemma_matches_skip(n, extra, k, 0);
        },
        Some(i) => {
            let k2 = i + from.len() + 1;
            lemma_migrated_shape(n, line, extra, from, to, k, i);
            let rest = replace_all_from(n, from, to, k2);
            lemma_migrated_runs(n, line, extra, from, to, k2);
            let a = n.subrange(k, k2);
            assert(matches_at(n, extra, k2));
            lemma_matches_slice(n, line, k, k2, k2 - line.len() - k);
            lemma_matches_skip(n, extra, k2, 0);
            lemma_migrated_collapse(a, rest, n.skip(k2), line, extra);
            lemma_followed_join(n, line, extra, k, k2, rest);
            if matches_at(n, extra, k) {
                if i < k + extra.len() {
                    lemma_no_overlap(n, extra, from, 0, k, i);
                }
                lemma_matches_slice(n, extra, k, k2, 0);
                lemma_matches_left(a, extra + rest, extra, 0);
            }
        },
    }
}

/// Normalising after such a migration gives back a normalised text: the
/// doubled `extra` lines collapse again.
pub proof fn lemma_migration_settles(n: Seq<char>, line: Seq<char>, extra: Seq<char>, from: Seq<char>, to: Seq<char>)
    requires
        appends_extra(from, to, line, extra),
        clash_from(line, line, 1),
        clash_from(extra, line, 0),
        clash_from(line, extra, 1),
        clash_from(extra, from, 0),
        each_followed(n, line, extra),
        no_repeat(n, extra),
        ends_in_newline(n, from),
    ensures
        collapse_runs_from(
            insert_after_each_from(replace_all_from(n, from, to, 0), line, extra, 0),
            extra,
            0,
        ) == n,
{
    let m = replace_all_from(n, from, to, 0);
    lemma_migrated_runs(n, line, extra, from, to, 0);
    lemma_insert_settled(m, line, extra, 0);
    assert(m.skip(0) =~= m);
    lemma_collapse_settled(n, extra, 0);
    assert(n.skip(0) =~= n);
}

/// `m` holds no newline.
pub open spec fn newline_free(m: Seq<char>) -> bool {
    forall|j: int| 0 <= j < m.len() ==> #[trigger] m[j] != '\n'
}

/// A newline-free text cannot contain position `q` of `s` when `s[q]` is a
/// newline.
proof fn lemma_newline_free_avoids(s: Seq<char>, m: Seq<char>, p: int, q: int)
    requires
        newline_free(m),
        p <= q < p + m.len(),
        0 <= q < s.len(),
        s[q] == '\n',
    ensures
        !matches_at(s, m, p),
{
    if matches_at(s, m, p) {
        assert(s.subrange(p, p + m.len())[q - p] == s[q]);
    }
}

/// A newline-free text at least as long as `line` (which ends in a newline)
/// cannot start inside a run of back-to-back `line`s.
proof fn lemma_newline_free_not_in_run(s: Seq<char>, line: Seq<char>, m: Seq<char>, e: int, p: int)
    requires
        line.len() > 0,
        line[line.len() - 1] == '\n',
        newline_free(m),
        m.len() >= line.len(),
        e <= p < run_end(s, line, e),
    ensures
        !matches_at(s, m, p),
    decreases s.len() - e,
{
    assert(matches_at(s, line, e));
    lemma_run_end(s, line, e);
    if p < e + line.len() {
        assert(s.subrange(e, e + line.len())[line.len() - 1] == s[e + line.len() - 1]);
        lemma_newline_free_avoids(s, m, p, e + line.len() - 1);
    } else {
        lemma_newline_free_not_in_run(s, line, m, e + line.len(), p);
    }
}

/// The style-insertion pass keeps every occurrence of a newline-free text
/// (insertions only follow a `line` ending in a newline).
pub proof fn lemma_insert_keeps(s: Seq<char>, line: Seq<char>, extra: Seq<char>, m: Seq<char>, k: int, p: int)
    requires
        0 <= k <= p,
        matches_at(s, m, p),
        line.len() > 0,
        line[line.len() - 1] == '\n',
        newline_free(m),
    ensures
        contains(insert_after_each_from(s, line, extra, k), m),
    decreases s.len() - k,
{
    lemma_find_from(s, line, k);
    match find_from(s, line, k) {
        None => {
            lemma_matches_skip(s, m, k, p - k);
            lemma_contains_at(s.skip(k), m, p - k);
        },
        Some(i) => {
            let end = i + line.len();
            let r = insert_after_each_from(s, line, extra, end);
            let mid = if matches_at(s, extra, end) { Seq::<char>::empty() } else { extra };
            let out = s.subrange(k, end) + mid + r;
            assert(insert_after_each_from(s, line, extra, k) == out);
            if p + m.len() <= end {
                assert(out.subrange(p - k, p - k + m.len()) =~= s.subrange(p, p + m.len()));
                lemma_contains_at(out, m, p - k);
            } else if p >= end {
                lemma_insert_keeps(s, line, extra, m, end, p);
                let q = choose|q: int| matches_at(r, m, q);
                crate::text::lemma_contains(r, m);
                lemma_matches_right(s.subrange(k, end) + mid, r, m, q);
                lemma_contains_at(out, m, (s.subrange(k, end) + mid).len() + q);
            } else {
                assert(s.subrange(i, end)[line.len() - 1] == s[end - 1]);
                lemma_newline_free_avoids(s, m, p, end - 1);
            }
        },
    }
}

/// The run-collapsing pass keeps every occurrence of a newline-free text at
/// least as long as `line` (which ends in a newline).
pub proof fn lemma_collapse_keeps(s: Seq<char>, line: Seq<char>, m: Seq<char>, k: int, p: int)
    requires
        0 <= k <= p,
        matches_at(s, m, p),
        line.len() > 0,
        line[line.len() - 1] == '\n',
        newline_free(m),
        m.len() >= line.len(),
    ensures
        contains(collapse_runs_from(s, line, k), m),
    decreases s.len() - k,
{
    lemma_find_from(s, line, k);
    match find_from(s, line, k) {
        None => {
            lemma_matches_skip(s, m, k, p - k);
            lemma_contains_at(s.skip(k), m, p - k);
        },
        Some(i) => {
            lemma_run_end(s, line, i);
            let re = run_end(s, line, i);
            let r = collapse_runs_from(s, line, re);
            let out = s.subrange(k, i) + line + r;
            assert(collapse_runs_from(s, line, k) == out);
            if p + m.len() <= i + line.len() {
                assert(out.subrange(p - k, p - k + m.len()) =~= s.subrange(p, p + m.len())) by {
                    assert forall|j: int| 0 <= j < m.len() implies #[trigger] out.subrange(p - k, p - k + m.len())[j]
                        == s.subrange(p, p + m.len())[j] by {
                        if p + j >= i {
                            assert(s.subrange(i, i + line.len())[p + j - i] == s[p + j]);
                        }
                    }
                }
                lemma_contains_at(out, m, p - k);
            } else if p >= re {
                lemma_collapse_keeps(s, line, m, re, p);
                crate::text::lemma_contains(r, m);
                let q = choose|q: int| matches_at(r, m, q);
                lemma_matches_right(s.subrange(k, i) + line, r, m, q);
                lemma_contains_at(out, m, (s.subrange(k, i) + line).len() + q);
            } else if p < i {
                assert(s.subrange(i, i + line.len())[line.len() - 1] == s[i + line.len() - 1]);
                lemma_newline_free_avoids(s, m, p, i + line.len() - 1);
            } else {
                lemma_newline_free_not_in_run(s, line, m, i, p);
            }
        },
    }
}

} // verus!
