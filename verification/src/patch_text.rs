//! Shared snippet-replacement helpers for idempotent extension source patches.
//!
//! Replacements stay fail-fast and migration-aware: an older patched form can
//! be upgraded to the current form, and a missing target is reported instead
//! of silently skipped.

use vstd::prelude::*;
use crate::regex_calls::{regex_is_match, regex_match, regex_replace_no_expand, regex_replaced};
use crate::text::{
    chars_string, contains, matches_at, contains_str, find, find_exec, find_from, find_from_exec,
    first_present, first_present_exec, lemma_find_from, lemma_first_present_from, push_all,
    push_range, push_str, replace_all, replace_all_str, replace_first, replace_first_str,
    starts_with_exec, str_chars, strs_view, trim_end, trim_end_len, lemma_contains_trans,
    lemma_replace_first_has_rep, clash_from, lemma_no_overlap,
};

verus! {

/// Fail-fast error when a required upstream snippet cannot be located; holds
/// the human label of the target.
#[derive(Debug)]
pub struct PatchTargetMissing(pub String);

impl PatchTargetMissing {
    /// The error's message: `Could not find target code in <target>`.
    pub fn message(&self) -> (r: String)
        ensures
            r@ == "Could not find target code in "@ + self.0@,
    {
        let mut out: Vec<char> = Vec::new();
        push_str(&mut out, "Could not find target code in ");
        push_str(&mut out, self.0.as_str());
        chars_string(out.as_slice())
    }
}

/// Migration from an older patched form to the current form.
///
/// - `from`: snippet that identifies the older patched form.
/// - `to`: replacement text for the current form.
/// - `all`: replace every occurrence of `from` when true, otherwise once.
/// - `required_marker`: marker that must already be present before the
///   migration runs (guards against applying migrations to clean upstream).
#[derive(Debug, Clone, Copy)]
pub struct Migration {
    pub from: &'static str,
    pub to: &'static str,
    pub all: bool,
    pub required_marker: Option<&'static str>,
}

/// Outcome of the stale-block replacements.
#[derive(Debug, PartialEq, Eq)]
pub enum StaleBlockOutcome {
    /// The block already matches the replacement; nothing to do.
    Unchanged,
    /// The block differed from the replacement; holds the new content.
    Replaced(String),
    /// The block's start marker or end bound could not be located.
    AnchorsMissing,
}

/// Mathematical outcome of a stale-block replacement.
#[verifier::ext_equal]
pub enum BlockSpec {
    Unchanged,
    Replaced(Seq<char>),
    AnchorsMissing,
}

impl StaleBlockOutcome {
    pub open spec fn view(&self) -> BlockSpec {
        match self {
            StaleBlockOutcome::Unchanged => BlockSpec::Unchanged,
            StaleBlockOutcome::Replaced(s) => BlockSpec::Replaced(s@),
            StaleBlockOutcome::AnchorsMissing => BlockSpec::AnchorsMissing,
        }
    }
}

// ── Specifications ──────────────────────────────────────────────────────────

/// Result of [`replace_known_snippet`]: `Some((text, already))`, or `None`
/// when no target can be found.
pub open spec fn known_snippet(
    content: Seq<char>,
    snippets: Seq<Seq<char>>,
    replacement: Seq<char>,
    marker: Seq<char>,
) -> Option<(Seq<char>, bool)> {
    let marker_present = contains(content, marker);
    if marker_present && (contains(content, replacement) || first_present(content, snippets) is None) {
        Some((content, true))
    } else {
        match first_present(content, snippets) {
            Some(i) => Some((replace_first(content, snippets[i], replacement), false)),
            None => None,
        }
    }
}

/// Result of [`replace_stale_block`].
pub open spec fn stale_block(
    content: Seq<char>,
    start_marker: Seq<char>,
    end_anchor: Seq<char>,
    replacement: Seq<char>,
) -> BlockSpec {
    match find(content, start_marker) {
        None => BlockSpec::AnchorsMissing,
        Some(start) => match find_from(content, end_anchor, start) {
            None => BlockSpec::AnchorsMissing,
            Some(end) => {
                let current = content.subrange(start, end);
                let body = trim_end(current);
                if body == replacement {
                    BlockSpec::Unchanged
                } else {
                    BlockSpec::Replaced(
                        content.take(start) + replacement + current.skip(body.len() as int)
                            + content.skip(end),
                    )
                }
            },
        },
    }
}

/// Result of [`replace_stale_block_including_anchor`].
pub open spec fn stale_block_including_anchor(
    content: Seq<char>,
    start_marker: Seq<char>,
    end_anchor: Seq<char>,
    replacement: Seq<char>,
) -> BlockSpec {
    match find(content, start_marker) {
        None => BlockSpec::AnchorsMissing,
        Some(start) => match find_from(content, end_anchor, start) {
            None => BlockSpec::AnchorsMissing,
            Some(anchor) => {
                let end = anchor + end_anchor.len();
                if content.subrange(start, end) == replacement {
                    BlockSpec::Unchanged
                } else {
                    BlockSpec::Replaced(content.take(start) + replacement + content.skip(end))
                }
            },
        },
    }
}

/// Index of the `close` that brings the nesting depth (currently `depth`
/// just before index `i`) back to zero, scanning `s` from `i`.
pub open spec fn matching_close_from(s: Seq<char>, i: int, depth: int, open: char, close: char) -> Option<int>
    decreases s.len() - i,
{
    if i < 0 || i >= s.len() {
        None
    } else if s[i] == open {
        matching_close_from(s, i + 1, depth + 1, open, close)
    } else if s[i] == close {
        if depth - 1 == 0 {
            Some(i)
        } else {
            matching_close_from(s, i + 1, depth - 1, open, close)
        }
    } else {
        matching_close_from(s, i + 1, depth, open, close)
    }
}

/// Index of the `close` delimiter balancing the `open` at `open_idx`.
pub open spec fn matching_close(s: Seq<char>, open_idx: int, open: char, close: char) -> Option<int> {
    matching_close_from(s, open_idx, 0, open, close)
}

/// Result of [`replace_stale_balanced_block`].
pub open spec fn stale_balanced_block(
    content: Seq<char>,
    start_marker: Seq<char>,
    open: char,
    close: char,
    extra_trailing: Option<char>,
    replacement: Seq<char>,
) -> BlockSpec {
    match find(content, start_marker) {
        None => BlockSpec::AnchorsMissing,
        Some(start) => match find_from(content, seq![open], start) {
            None => BlockSpec::AnchorsMissing,
            Some(open_idx) => match matching_close(content, open_idx, open, close) {
                None => BlockSpec::AnchorsMissing,
                Some(close_idx) => {
                    let end0 = close_idx + 1;
                    let end = match extra_trailing {
                        Some(x) => if end0 < content.len() && content[end0] == x {
                            end0 + 1
                        } else {
                            end0
                        },
                        None => end0,
                    };
                    if content.subrange(start, end) == replacement {
                        BlockSpec::Unchanged
                    } else {
                        BlockSpec::Replaced(content.take(start) + replacement + content.skip(end))
                    }
                },
            },
        },
    }
}

/// One migration applied to `text`, or `None` when it does not apply.
pub open spec fn migration_step(text: Seq<char>, m: Migration) -> Option<Seq<char>> {
    let required_ok = match m.required_marker {
        Some(mk) => contains(text, mk@),
        None => true,
    };
    if required_ok && contains(text, m.from@) {
        Some(
            if m.all {
                replace_all(text, m.from@, m.to@)
            } else {
                replace_first(text, m.from@, m.to@)
            },
        )
    } else {
        None
    }
}

/// All migrations applied in order: the migrated text and whether any applied.
pub open spec fn migrate_all(text: Seq<char>, ms: Seq<Migration>) -> (Seq<char>, bool)
    decreases ms.len(),
{
    if ms.len() == 0 {
        (text, false)
    } else {
        let (t, did) = migrate_all(text, ms.drop_last());
        match migration_step(t, ms.last()) {
            Some(t2) => (t2, true),
            None => (t, did),
        }
    }
}

/// Status word carried by a successful snippet replacement.
pub open spec fn status_view(kind: int) -> Seq<char> {
    if kind == 0 {
        "already"@
    } else if kind == 1 {
        "patched"@
    } else {
        "migrated"@
    }
}

/// Result of [`replace_known_snippet_with_migration`]:
/// `Some((text, status kind))` or `None` when no target can be found.
pub open spec fn known_snippet_with_migration(
    content: Seq<char>,
    snippets: Seq<Seq<char>>,
    replacement: Seq<char>,
    marker: Seq<char>,
    ms: Seq<Migration>,
) -> Option<(Seq<char>, int)> {
    let (migrated, did) = migrate_all(content, ms);
    if did {
        if contains(migrated, marker) {
            Some((migrated, 2))
        } else {
            lift_known(known_snippet(migrated, snippets, replacement, marker))
        }
    } else if contains(content, marker) {
        Some((content, 0))
    } else {
        lift_known(known_snippet(content, snippets, replacement, marker))
    }
}

/// [`known_snippet`]'s outcome with its status as a kind number.
pub open spec fn lift_known(o: Option<(Seq<char>, bool)>) -> Option<(Seq<char>, int)> {
    match o {
        Some((t, already)) => Some((t, if already { 0int } else { 1int })),
        None => None,
    }
}

/// Result of [`replace_known_snippet_optional`]: the outcome of
/// [`known_snippet`] where it finds a target (or the marked current form),
/// the content unchanged where it would fail.
pub open spec fn known_snippet_optional(
    content: Seq<char>,
    snippets: Seq<Seq<char>>,
    replacement: Seq<char>,
    marker: Seq<char>,
) -> Seq<char> {
    match known_snippet(content, snippets, replacement, marker) {
        Some((t, _)) => t,
        None => content,
    }
}

/// Whether a `Result` from the snippet helpers agrees with a spec outcome.
pub open spec fn known_result(
    r: Result<(String, &'static str), PatchTargetMissing>,
    o: Option<(Seq<char>, int)>,
    target_name: Seq<char>,
) -> bool {
    match o {
        Some((t, kind)) => r matches Ok((text, status)) && text@ == t && status@ == status_view(kind),
        None => r matches Err(e) && e.0@ == target_name,
    }
}

// ── Executable helpers ──────────────────────────────────────────────────────

/// Replace the first matching known snippet, or return the content unchanged
/// when `already_marker` is present and either the current `replacement` is
/// already there or none of the known old `snippets` forms is present (there
/// is then nothing safe to replace from).
///
/// Returns `(content, status)` where status is `"already"` or `"patched"`.
pub fn replace_known_snippet(
    content: &str,
    snippets: &[&str],
    replacement: &str,
    already_marker: &str,
    target_name: &str,
) -> (r: Result<(String, &'static str), PatchTargetMissing>)
    ensures
        known_result(
            r,
            lift_known(known_snippet(content@, strs_view(snippets@), replacement@, already_marker@)),
            target_name@,
        ),
{
    let c = str_chars(content);
    let out = known_snippet_chars(c.as_slice(), snippets, replacement, already_marker);
    match out {
        Some((v, already)) => {
            let s = chars_string(v.as_slice());
            if already {
                Ok((s, "already"))
            } else {
                Ok((s, "patched"))
            }
        },
        None => Err(PatchTargetMissing(target_name.to_owned())),
    }
}

/// [`replace_known_snippet`] on characters.
pub fn known_snippet_chars(
    c: &[char],
    snippets: &[&str],
    replacement: &str,
    already_marker: &str,
) -> (r: Option<(Vec<char>, bool)>)
    ensures
        match known_snippet(c@, strs_view(snippets@), replacement@, already_marker@) {
            Some((t, already)) => r matches Some((v, a)) && v@ == t && a == already,
            None => r is None,
        },
{
    let marker_present = contains_str(c, already_marker);
    let first = first_present_exec(c, snippets);
    if marker_present && (contains_str(c, replacement) || first.is_none()) {
        let mut v: Vec<char> = Vec::new();
        push_all(&mut v, c);
        assert(v@ =~= c@);
        return Some((v, true));
    }
    match first {
        Some(i) => {
            proof {
                lemma_first_present_from(c@, strs_view(snippets@), 0);
            }
            assert(strs_view(snippets@)[i as int] == snippets@[i as int]@);
            Some((replace_first_str(c, snippets[i], replacement), false))
        },
        None => None,
    }
}

/// Replace the text between `start_marker` (inclusive) and the first
/// `end_anchor` after it (exclusive) with `replacement` when it differs,
/// preserving the trailing whitespace that separated the block from
/// `end_anchor`.
pub fn replace_stale_block(
    content: &str,
    start_marker: &str,
    end_anchor: &str,
    replacement: &str,
) -> (r: StaleBlockOutcome)
    ensures
        r.view() == stale_block(content@, start_marker@, end_anchor@, replacement@),
{
    let c = str_chars(content);
    let sm = str_chars(start_marker);
    let ea = str_chars(end_anchor);
    let rep = str_chars(replacement);
    let start = match find_exec(c.as_slice(), sm.as_slice()) {
        Some(s) => s,
        None => return StaleBlockOutcome::AnchorsMissing,
    };
    proof {
        lemma_find_from(c@, sm@, 0);
    }
    let end = match find_from_exec(c.as_slice(), ea.as_slice(), start) {
        Some(e) => e,
        None => return StaleBlockOutcome::AnchorsMissing,
    };
    proof {
        lemma_find_from(c@, ea@, start as int);
    }
    let body_end = trim_end_len(c.as_slice(), start, end);
    let ghost current = c@.subrange(start as int, end as int);
    let mut body: Vec<char> = Vec::new();
    push_range(&mut body, c.as_slice(), start, body_end);
    assert(body@ =~= c@.subrange(start as int, body_end as int));
    if body.len() == rep.len() && starts_with_exec(body.as_slice(), rep.as_slice()) {
        assert(body@.take(rep@.len() as int) =~= body@);
        return StaleBlockOutcome::Unchanged;
    }
    proof {
        if body@ == rep@ {
            assert(body@.take(rep@.len() as int) =~= body@);
        }
    }
    let mut out: Vec<char> = Vec::new();
    push_range(&mut out, c.as_slice(), 0, start);
    push_all(&mut out, rep.as_slice());
    push_range(&mut out, c.as_slice(), body_end, end);
    push_range(&mut out, c.as_slice(), end, c.len());
    assert(out@ =~= c@.take(start as int) + rep@ + current.skip(trim_end(current).len() as int)
        + c@.skip(end as int));
    StaleBlockOutcome::Replaced(chars_string(out.as_slice()))
}

/// Like [`replace_stale_block`], but `end_anchor` is the block's own stable
/// tail, so it is included in the compared and replaced span.
pub fn replace_stale_block_including_anchor(
    content: &str,
    start_marker: &str,
    end_anchor: &str,
    replacement: &str,
) -> (r: StaleBlockOutcome)
    ensures
        r.view() == stale_block_including_anchor(content@, start_marker@, end_anchor@, replacement@),
{
    let c = str_chars(content);
    let sm = str_chars(start_marker);
    let ea = str_chars(end_anchor);
    let rep = str_chars(replacement);
    let start = match find_exec(c.as_slice(), sm.as_slice()) {
        Some(s) => s,
        None => return StaleBlockOutcome::AnchorsMissing,
    };
    proof {
        lemma_find_from(c@, sm@, 0);
    }
    let anchor = match find_from_exec(c.as_slice(), ea.as_slice(), start) {
        Some(e) => e,
        None => return StaleBlockOutcome::AnchorsMissing,
    };
    proof {
        lemma_find_from(c@, ea@, start as int);
        assert(matches_at(c@, ea@, anchor as int));
    }
    assert(anchor + ea@.len() <= c@.len());
    assert(ea@.len() == ea.len());
    assert(c@.len() == c.len());
    let end = anchor + ea.len();
    let mut cur: Vec<char> = Vec::new();
    push_range(&mut cur, c.as_slice(), start, end);
    if cur.len() == rep.len() && starts_with_exec(cur.as_slice(), rep.as_slice()) {
        assert(cur@.take(rep@.len() as int) =~= cur@);
        return StaleBlockOutcome::Unchanged;
    }
    proof {
        if cur@ == rep@ {
            assert(cur@.take(rep@.len() as int) =~= cur@);
        }
    }
    let mut out: Vec<char> = Vec::new();
    push_range(&mut out, c.as_slice(), 0, start);
    push_all(&mut out, rep.as_slice());
    push_range(&mut out, c.as_slice(), end, c.len());
    assert(out@ =~= c@.take(start as int) + rep@ + c@.skip(end as int));
    StaleBlockOutcome::Replaced(chars_string(out.as_slice()))
}

/// Index of the `close` delimiter that balances the `open` delimiter at
/// `open_idx`, tracking nesting depth so inner pairs do not end the scan.
pub(crate) fn find_matching_close(c: &[char], open_idx: usize, open: char, close: char) -> (r: Option<usize>)
    requires
        open_idx < c.len(),
        c@[open_idx as int] == open,
    ensures
        match r {
            Some(i) => matching_close(c@, open_idx as int, open, close) == Some(i as int),
            None => matching_close(c@, open_idx as int, open, close) is None,
        },
{
    let mut depth: usize = 0;
    let mut i: usize = open_idx;
    while i < c.len()
        invariant
            open_idx <= i <= c.len(),
            c@[open_idx as int] == open,
            depth <= i - open_idx,
            i == open_idx ==> depth == 0,
            i > open_idx ==> depth >= 1,
            matching_close(c@, open_idx as int, open, close) == matching_close_from(
                c@,
                i as int,
                depth as int,
                open,
                close,
            ),
        decreases c.len() - i,
    {
        let ch = c[i];
        if ch == open {
            depth += 1;
        } else if ch == close {
            if depth == 1 {
                return Some(i);
            }
            depth -= 1;
        }
        i += 1;
    }
    None
}

/// Like [`replace_stale_block`], but the block is a single balanced-delimiter
/// span: from `start_marker` through the `close` that balances the first
/// `open` at or after it, plus one `extra_trailing` character when present
/// right after.
pub fn replace_stale_balanced_block(
    content: &str,
    start_marker: &str,
    open: char,
    close: char,
    extra_trailing: Option<char>,
    replacement: &str,
) -> (r: StaleBlockOutcome)
    ensures
        r.view() == stale_balanced_block(
            content@,
            start_marker@,
            open,
            close,
            extra_trailing,
            replacement@,
        ),
{
    let c = str_chars(content);
    let sm = str_chars(start_marker);
    let rep = str_chars(replacement);
    let start = match find_exec(c.as_slice(), sm.as_slice()) {
        Some(s) => s,
        None => return StaleBlockOutcome::AnchorsMissing,
    };
    let mut ov: Vec<char> = Vec::new();
    ov.push(open);
    assert(ov@ =~= seq![open]);
    let open_idx = match find_from_exec(c.as_slice(), ov.as_slice(), start) {
        Some(o) => o,
        None => return StaleBlockOutcome::AnchorsMissing,
    };
    proof {
        lemma_find_from(c@, ov@, start as int);
        assert(c@.subrange(open_idx as int, open_idx + 1)[0] == c@[open_idx as int]);
    }
    let close_idx = match find_matching_close(c.as_slice(), open_idx, open, close) {
        Some(ci) => ci,
        None => return StaleBlockOutcome::AnchorsMissing,
    };
    proof {
        lemma_matching_close_bounds(c@, open_idx as int, 0, open, close);
    }
    assert(c@.len() == c.len());
    assert(close_idx < c.len());
    let mut end = close_idx + 1;
    match extra_trailing {
        Some(x) => {
            if end < c.len() && c[end] == x {
                end += 1;
            }
        },
        None => {},
    }
    let mut cur: Vec<char> = Vec::new();
    push_range(&mut cur, c.as_slice(), start, end);
    if cur.len() == rep.len() && starts_with_exec(cur.as_slice(), rep.as_slice()) {
        assert(cur@.take(rep@.len() as int) =~= cur@);
        return StaleBlockOutcome::Unchanged;
    }
    proof {
        if cur@ == rep@ {
            assert(cur@.take(rep@.len() as int) =~= cur@);
        }
    }
    let mut out: Vec<char> = Vec::new();
    push_range(&mut out, c.as_slice(), 0, start);
    push_all(&mut out, rep.as_slice());
    push_range(&mut out, c.as_slice(), end, c.len());
    assert(out@ =~= c@.take(start as int) + rep@ + c@.skip(end as int));
    StaleBlockOutcome::Replaced(chars_string(out.as_slice()))
}

/// A matching close lies at or after the scan position, inside the text.
pub proof fn lemma_matching_close_bounds(s: Seq<char>, i: int, depth: int, open: char, close: char)
    ensures
        matching_close_from(s, i, depth, open, close) matches Some(j) ==> i <= j < s.len(),
    decreases s.len() - i,
{
    if 0 <= i < s.len() {
        if s[i] == open {
            lemma_matching_close_bounds(s, i + 1, depth + 1, open, close);
        } else if s[i] == close {
            lemma_matching_close_bounds(s, i + 1, depth - 1, open, close);
        } else {
            lemma_matching_close_bounds(s, i + 1, depth, open, close);
        }
    }
}

/// The scan from `k + j` is the scan of the suffix from `k` at `j`, shifted.
pub proof fn lemma_matching_close_skip(x: Seq<char>, k: int, j: int, depth: int, open: char, close: char)
    requires
        0 <= k <= x.len(),
        0 <= j,
    ensures
        matching_close_from(x, k + j, depth, open, close) == match matching_close_from(x.skip(k), j, depth, open, close) {
            Some(r) => Some(r + k),
            None => None::<int>,
        },
    decreases x.len() - (k + j),
{
    if k + j < x.len() {
        assert(x.skip(k)[j] == x[k + j]);
        if x[k + j] == open {
            lemma_matching_close_skip(x, k, j + 1, depth + 1, open, close);
        } else if x[k + j] == close {
            lemma_matching_close_skip(x, k, j + 1, depth - 1, open, close);
        } else {
            lemma_matching_close_skip(x, k, j + 1, depth, open, close);
        }
    }
}

/// A run of characters that are neither delimiter leaves the scan's depth
/// unchanged.
pub proof fn lemma_close_skip_plain(s: Seq<char>, i: int, j: int, depth: int, open: char, close: char)
    requires
        0 <= i <= j <= s.len(),
        forall|x: int| i <= x < j ==> s[x] != open && s[x] != close,
    ensures
        matching_close_from(s, i, depth, open, close) == matching_close_from(s, j, depth, open, close),
    decreases j - i,
{
    if i < j {
        lemma_close_skip_plain(s, i + 1, j, depth, open, close);
    }
}

/// The scan over a text embedded at `off` in a larger one finds the same
/// close (shifted), when the scan over the embedded text alone finds one.
pub proof fn lemma_matching_close_embedded(
    s: Seq<char>,
    r: Seq<char>,
    off: int,
    i: int,
    depth: int,
    open: char,
    close: char,
)
    requires
        0 <= off,
        off + r.len() <= s.len(),
        s.subrange(off, off + r.len()) == r,
        0 <= i,
        matching_close_from(r, i, depth, open, close) is Some,
    ensures
        matching_close_from(s, off + i, depth, open, close)
            == Some(off + matching_close_from(r, i, depth, open, close)->0),
    decreases r.len() - i,
{
    assert(s[off + i] == r[i]);
    if r[i] == open {
        lemma_matching_close_embedded(s, r, off, i + 1, depth + 1, open, close);
    } else if r[i] == close {
        if depth - 1 != 0 {
            lemma_matching_close_embedded(s, r, off, i + 1, depth - 1, open, close);
        }
    } else {
        lemma_matching_close_embedded(s, r, off, i + 1, depth, open, close);
    }
}

/// A search over a text embedded at `off` in a larger one finds the same
/// occurrence (shifted), when the search over the embedded text finds one.
pub proof fn lemma_find_from_embedded(s: Seq<char>, r: Seq<char>, off: int, pat: Seq<char>, i: int)
    requires
        0 <= off,
        off + r.len() <= s.len(),
        s.subrange(off, off + r.len()) == r,
        0 <= i,
        find_from(r, pat, i) is Some,
    ensures
        find_from(s, pat, off + i) == Some(off + find_from(r, pat, i)->0),
    decreases r.len() - i,
{
    assert(s.subrange(off + i, off + i + pat.len()) =~= r.subrange(i, i + pat.len()));
    if !matches_at(r, pat, i) {
        lemma_find_from_embedded(s, r, off, pat, i + 1);
    }
}

/// The first occurrence of a character is the first index holding it.
pub proof fn lemma_find_char(s: Seq<char>, c: char, i: int, j: int)
    requires
        0 <= i <= j < s.len(),
        s[j] == c,
        forall|x: int| i <= x < j ==> s[x] != c,
    ensures
        find_from(s, seq![c], i) == Some(j),
    decreases j - i,
{
    assert(s.subrange(j, j + 1) =~= seq![c]);
    if i < j {
        assert(s.subrange(i, i + 1)[0] == s[i]);
        lemma_find_char(s, c, i + 1, j);
    }
}

/// `block` stands at the first occurrence of `signature` in `content`.
pub open spec fn block_in_place(content: Seq<char>, signature: Seq<char>, block: Seq<char>) -> bool {
    find(content, signature) matches Some(i) && i + block.len() <= content.len()
        && content.subrange(i, i + block.len()) == block
}

/// A match with none before it is the first occurrence.
pub proof fn lemma_find_is(s: Seq<char>, pat: Seq<char>, i: int)
    requires
        matches_at(s, pat, i),
        forall|p: int| 0 <= p < i ==> !#[trigger] matches_at(s, pat, p),
    ensures
        find(s, pat) == Some(i),
{
    lemma_find_from(s, pat, 0);
}

/// Replacing a block that stands at the first occurrence of its signature
/// by another block opening with the same signature: the old block is the
/// first of its kind, and the new one stands at that same first occurrence.
pub proof fn lemma_replace_block_in_place(c: Seq<char>, sig: Seq<char>, old: Seq<char>, new: Seq<char>)
    requires
        block_in_place(c, sig, old),
        sig.len() <= old.len(),
        old.take(sig.len() as int) == sig,
        sig.len() <= new.len(),
        new.take(sig.len() as int) == sig,
    ensures
        find(c, old) == find(c, sig),
        replace_first(c, old, new) == c.take(find(c, sig)->0) + new + c.skip(find(c, sig)->0 + old.len()),
        find(replace_first(c, old, new), sig) == find(c, sig),
        block_in_place(replace_first(c, old, new), sig, new),
{
    let i = find(c, sig)->0;
    lemma_find_from(c, sig, 0);
    assert forall|k: int| #![auto] 0 <= k < sig.len() implies old[k] == sig[k] && new[k] == sig[k] by {
        assert(old.take(sig.len() as int)[k] == old[k]);
        assert(new.take(sig.len() as int)[k] == new[k]);
    }
    assert(matches_at(c, old, i));
    assert forall|p: int| 0 <= p < i implies !#[trigger] matches_at(c, old, p) by {
        if matches_at(c, old, p) {
            assert(c.subrange(p, p + sig.len()) =~= sig) by {
                let lhs = c.subrange(p, p + sig.len());
                let rhs = sig;
                assert forall|k: int| 0 <= k < sig.len() implies #[trigger] lhs[k] == rhs[k] by {
                    assert(c.subrange(p, p + old.len())[k] == c[p + k]);
                }
            }
            assert(matches_at(c, sig, p));
        }
    }
    lemma_find_is(c, old, i);
    let r = c.take(i) + new + c.skip(i + old.len());
    assert(r.subrange(i, i + new.len()) =~= new);
    assert(r.subrange(i, i + sig.len()) =~= sig) by {
        let lhs = r.subrange(i, i + sig.len());
        let rhs = sig;
        assert forall|k: int| 0 <= k < sig.len() implies #[trigger] lhs[k] == rhs[k] by {
            assert(r[i + k] == new[k]);
        }
    }
    assert forall|p: int| 0 <= p < i implies !#[trigger] matches_at(r, sig, p) by {
        if matches_at(r, sig, p) {
            assert(c.subrange(p, p + sig.len()) =~= r.subrange(p, p + sig.len())) by {
                let lhs = c.subrange(p, p + sig.len());
                let rhs = r.subrange(p, p + sig.len());
                assert forall|k: int| 0 <= k < sig.len() implies #[trigger] lhs[k] == rhs[k] by {
                    if p + k < i {
                        assert(r[p + k] == c[p + k]);
                    } else {
                        assert(r[p + k] == new[p + k - i]);
                        assert(c.subrange(i, i + old.len())[p + k - i] == c[p + k]);
                    }
                }
            }
            assert(matches_at(c, sig, p));
        }
    }
    lemma_find_is(r, sig, i);
}

/// Under a replacement at the first occurrence of `old`, another block that
/// stands at the first occurrence of its signature, away from the replaced
/// text, keeps standing there (shifted when it lies behind), when the new
/// text can neither hold nor cut into an occurrence of that signature.
pub proof fn lemma_block_survives(
    c: Seq<char>,
    old: Seq<char>,
    new: Seq<char>,
    sig: Seq<char>,
    blk: Seq<char>,
)
    requires
        find(c, old) is Some,
        block_in_place(c, sig, blk),
        0 < sig.len() <= blk.len(),
        find(c, sig)->0 + blk.len() <= find(c, old)->0 || find(c, old)->0 + old.len() <= find(c, sig)->0,
        clash_from(new, sig, 0),
        clash_from(sig, new, 1),
    ensures
        block_in_place(replace_first(c, old, new), sig, blk),
        find(replace_first(c, old, new), sig) == Some(
            if find(c, sig)->0 < find(c, old)->0 {
                find(c, sig)->0
            } else {
                find(c, sig)->0 + new.len() - old.len()
            },
        ),
{
    let i = find(c, old)->0;
    let w = find(c, sig)->0;
    lemma_find_from(c, old, 0);
    lemma_find_from(c, sig, 0);
    let r = c.take(i) + new + c.skip(i + old.len());
    assert(r == replace_first(c, old, new));
    let w2 = if w < i { w } else { w + new.len() - old.len() };
    assert(matches_at(c, old, i));
    assert(matches_at(c, sig, w));
    assert(r.len() == c.len() - old.len() + new.len());
    assert(matches_at(r, new, i)) by {
        assert(r.subrange(i, i + new.len()) =~= new);
    }
    assert(r.subrange(w2, w2 + blk.len()) =~= c.subrange(w, w + blk.len())) by {
        let lhs = r.subrange(w2, w2 + blk.len());
        let rhs = c.subrange(w, w + blk.len());
        assert forall|k: int| 0 <= k < blk.len() implies #[trigger] lhs[k] == rhs[k] by {
            assert(lhs[k] == r[w2 + k]);
            assert(rhs[k] == c[w + k]);
            if w < i {
                assert(r[w + k] == c.take(i)[w + k]);
            } else {
                assert(r[w2 + k] == c.skip(i + old.len())[w2 + k - i - new.len()]);
            }
        }
    }
    assert(matches_at(r, sig, w2)) by {
        assert(r.subrange(w2, w2 + sig.len()) =~= c.subrange(w, w + sig.len())) by {
            let lhs = r.subrange(w2, w2 + sig.len());
            let rhs = c.subrange(w, w + sig.len());
            assert forall|k: int| 0 <= k < sig.len() implies #[trigger] lhs[k] == rhs[k] by {
                assert(r.subrange(w2, w2 + blk.len())[k] == c.subrange(w, w + blk.len())[k]);
            }
        }
    }
    assert forall|p: int| 0 <= p < w2 implies !#[trigger] matches_at(r, sig, p) by {
        if matches_at(r, sig, p) {
            if p + sig.len() <= i {
                assert(c.subrange(p, p + sig.len()) =~= r.subrange(p, p + sig.len())) by {
                    let lhs = c.subrange(p, p + sig.len());
                    let rhs = r.subrange(p, p + sig.len());
                    assert forall|k: int| 0 <= k < sig.len() implies #[trigger] lhs[k] == rhs[k] by {
                        assert(r[p + k] == c[p + k]);
                    }
                }
                assert(matches_at(c, sig, p));
            } else if p < i {
                lemma_no_overlap(r, sig, new, 1, p, i);
            } else if p < i + new.len() {
                lemma_no_overlap(r, new, sig, 0, i, p);
            } else {
                let q = p - new.len() + old.len();
                assert(c.subrange(q, q + sig.len()) =~= r.subrange(p, p + sig.len())) by {
                    let lhs = c.subrange(q, q + sig.len());
                    let rhs = r.subrange(p, p + sig.len());
                    assert forall|k: int| 0 <= k < sig.len() implies #[trigger] lhs[k] == rhs[k] by {
                        assert(r[p + k] == c[q + k]);
                    }
                }
                assert(matches_at(c, sig, q));
            }
        }
    }
    lemma_find_is(r, sig, w2);
}

/// Under a replacement at the first occurrence of `old`, a text that is
/// absent stays absent, when the new text can neither hold nor cut into an
/// occurrence of it.
pub proof fn lemma_absent_survives(c: Seq<char>, old: Seq<char>, new: Seq<char>, m: Seq<char>)
    requires
        find(c, old) is Some,
        !contains(c, m),
        clash_from(new, m, 0),
        clash_from(m, new, 1),
    ensures
        !contains(replace_first(c, old, new), m),
{
    let i = find(c, old)->0;
    lemma_find_from(c, old, 0);
    lemma_find_from(c, m, 0);
    let r = c.take(i) + new + c.skip(i + old.len());
    assert(matches_at(r, new, i)) by {
        assert(r.subrange(i, i + new.len()) =~= new);
    }
    assert forall|p: int| 0 <= p implies !#[trigger] matches_at(r, m, p) by {
        if matches_at(r, m, p) {
            if p + m.len() <= i {
                assert(c.subrange(p, p + m.len()) =~= r.subrange(p, p + m.len())) by {
                    let lhs = c.subrange(p, p + m.len());
                    let rhs = r.subrange(p, p + m.len());
                    assert forall|k: int| 0 <= k < m.len() implies #[trigger] lhs[k] == rhs[k] by {
                        assert(r[p + k] == c[p + k]);
                    }
                }
                assert(matches_at(c, m, p));
            } else if p < i {
                lemma_no_overlap(r, m, new, 1, p, i);
            } else if p < i + new.len() {
                lemma_no_overlap(r, new, m, 0, i, p);
            } else {
                let q = p - new.len() + old.len();
                assert(c.subrange(q, q + m.len()) =~= r.subrange(p, p + m.len())) by {
                    let lhs = c.subrange(q, q + m.len());
                    let rhs = r.subrange(p, p + m.len());
                    assert forall|k: int| 0 <= k < m.len() implies #[trigger] lhs[k] == rhs[k] by {
                        assert(r[p + k] == c[q + k]);
                    }
                }
                assert(matches_at(c, m, q));
            }
        }
    }
    lemma_find_from(r, m, 0);
}

/// Under a replacement at the first occurrence of `old`, an occurrence of a
/// text that cannot overlap `old` survives (shifted when it lies behind).
pub proof fn lemma_match_survives(c: Seq<char>, old: Seq<char>, new: Seq<char>, m: Seq<char>, p: int)
    requires
        find(c, old) is Some,
        matches_at(c, m, p),
        clash_from(old, m, 0),
        clash_from(m, old, 1),
    ensures
        matches_at(
            replace_first(c, old, new),
            m,
            if p < find(c, old)->0 {
                p
            } else {
                p + new.len() - old.len()
            },
        ),
{
    let i = find(c, old)->0;
    lemma_find_from(c, old, 0);
    if i <= p && p < i + old.len() {
        lemma_no_overlap(c, old, m, 0, i, p);
    }
    if p < i && i < p + m.len() {
        lemma_no_overlap(c, m, old, 1, p, i);
    }
    let r = c.take(i) + new + c.skip(i + old.len());
    let p2 = if p < i { p } else { p + new.len() - old.len() };
    assert(r.subrange(p2, p2 + m.len()) =~= c.subrange(p, p + m.len())) by {
        let lhs = r.subrange(p2, p2 + m.len());
        let rhs = c.subrange(p, p + m.len());
        assert forall|k: int| 0 <= k < m.len() implies #[trigger] lhs[k] == rhs[k] by {
            assert(lhs[k] == r[p2 + k]);
            assert(rhs[k] == c[p + k]);
            if p < i {
                assert(r[p2 + k] == c.take(i)[p + k]);
            } else {
                assert(r[p2 + k] == c.skip(i + old.len())[p2 + k - i - new.len()]);
            }
        }
    }
}

/// Under a replacement at the first occurrence of `old`, away from the first
/// occurrence of `y`, a text `m` that occurs nowhere before that first `y`
/// still occurs nowhere before it (the first `y` stays, shifted when it lies
/// behind), when the new text can neither hold nor cut into `y` or `m`.
pub proof fn lemma_none_before_survives(c: Seq<char>, old: Seq<char>, new: Seq<char>, y: Seq<char>, m: Seq<char>)
    requires
        find(c, old) is Some,
        find(c, y) is Some,
        y.len() > 0,
        m.len() > 0,
        find(c, y)->0 + y.len() <= find(c, old)->0 || find(c, old)->0 + old.len() <= find(c, y)->0,
        clash_from(new, y, 0),
        clash_from(y, new, 1),
        clash_from(new, m, 0),
        clash_from(m, new, 1),
        forall|p: int| 0 <= p < find(c, y)->0 ==> !#[trigger] matches_at(c, m, p),
    ensures
        find(replace_first(c, old, new), y) == Some(
            if find(c, y)->0 < find(c, old)->0 {
                find(c, y)->0
            } else {
                find(c, y)->0 + new.len() - old.len()
            },
        ),
        forall|p: int|
            0 <= p < find(replace_first(c, old, new), y)->0 ==> !#[trigger] matches_at(
                replace_first(c, old, new),
                m,
                p,
            ),
{
    let i = find(c, old)->0;
    let j = find(c, y)->0;
    lemma_find_from(c, old, 0);
    lemma_find_from(c, y, 0);
    assert(c.subrange(j, j + y.len()) == y);
    lemma_block_survives(c, old, new, y, y);
    let r = c.take(i) + new + c.skip(i + old.len());
    assert(r == replace_first(c, old, new));
    let j2 = if j < i { j } else { j + new.len() - old.len() };
    assert(matches_at(r, new, i)) by {
        assert(r.subrange(i, i + new.len()) =~= new);
    }
    assert forall|p: int| 0 <= p < j2 implies !#[trigger] matches_at(r, m, p) by {
        if matches_at(r, m, p) {
            if p + m.len() <= i {
                assert(c.subrange(p, p + m.len()) =~= r.subrange(p, p + m.len())) by {
                    let lhs = c.subrange(p, p + m.len());
                    let rhs = r.subrange(p, p + m.len());
                    assert forall|k: int| 0 <= k < m.len() implies #[trigger] lhs[k] == rhs[k] by {
                        assert(r[p + k] == c[p + k]);
                    }
                }
                assert(matches_at(c, m, p));
            } else if p < i {
                lemma_no_overlap(r, m, new, 1, p, i);
            } else if p < i + new.len() {
                lemma_no_overlap(r, new, m, 0, i, p);
            } else {
                let q = p - new.len() + old.len();
                assert(c.subrange(q, q + m.len()) =~= r.subrange(p, p + m.len())) by {
                    let lhs = c.subrange(q, q + m.len());
                    let rhs = r.subrange(p, p + m.len());
                    assert forall|k: int| 0 <= k < m.len() implies #[trigger] lhs[k] == rhs[k] by {
                        assert(r[p + k] == c[q + k]);
                    }
                }
                assert(matches_at(c, m, q));
            }
        }
    }
}

/// A balanced block found at the first occurrence of its start marker: when
/// `block` stands there and its first `open` is balanced at its end (before
/// the optional trailing character), the scan locates exactly that block; it
/// is left alone when it is already `replacement` and swapped for it
/// otherwise.
pub proof fn lemma_balanced_block_found(
    content: Seq<char>,
    start_marker: Seq<char>,
    open: char,
    close: char,
    extra_trailing: Option<char>,
    block: Seq<char>,
    replacement: Seq<char>,
)
    requires
        block_in_place(content, start_marker, block),
        find_from(block, seq![open], 0) matches Some(o)
            && matching_close(block, o, open, close) matches Some(k)
            && match extra_trailing {
                None => k + 1 == block.len(),
                Some(x) => k + 2 == block.len() && block[k + 1] == x,
            },
    ensures
        stale_balanced_block(content, start_marker, open, close, extra_trailing, replacement) == (if block == replacement {
            BlockSpec::Unchanged
        } else {
            BlockSpec::Replaced(
                content.take(find(content, start_marker)->0) + replacement
                    + content.skip(find(content, start_marker)->0 + block.len()),
            )
        }),
{
    let start = find(content, start_marker)->0;
    crate::text::lemma_find_from(content, start_marker, 0);
    let o = find_from(block, seq![open], 0)->0;
    let k = matching_close(block, o, open, close)->0;
    lemma_find_from_embedded(content, block, start, seq![open], 0);
    crate::text::lemma_find_from(block, seq![open], 0);
    lemma_matching_close_embedded(content, block, start, o, 0, open, close);
    match extra_trailing {
        Some(x) => {
            assert(content[start + k + 1] == block[k + 1]);
        },
        None => {},
    }
    assert(content.subrange(start, start + k + 1 + match extra_trailing { Some(_) => 1int, None => 0int })
        =~= block);
}

/// A balanced block that already reads `replacement` is left alone: when
/// `replacement` starts at the first occurrence of the start marker and its
/// own first `open` is balanced at its last delimiter (followed by the
/// trailing character, when there is one), the stale-block check reports
/// it unchanged.
pub proof fn lemma_balanced_block_in_place(
    content: Seq<char>,
    start_marker: Seq<char>,
    open: char,
    close: char,
    extra_trailing: Option<char>,
    replacement: Seq<char>,
)
    requires
        block_in_place(content, start_marker, replacement),
        find_from(replacement, seq![open], 0) matches Some(o)
            && matching_close(replacement, o, open, close) matches Some(k)
            && match extra_trailing {
                None => k + 1 == replacement.len(),
                Some(x) => k + 2 == replacement.len() && replacement[k + 1] == x,
            },
    ensures
        stale_balanced_block(content, start_marker, open, close, extra_trailing, replacement) == BlockSpec::Unchanged,
{
    lemma_balanced_block_found(content, start_marker, open, close, extra_trailing, replacement, replacement);
}

/// Applies one migration to `text` when its prerequisites hold.
fn migration_step_exec(text: &Vec<char>, m: Migration) -> (r: Option<Vec<char>>)
    ensures
        match migration_step(text@, m) {
            Some(t) => r matches Some(v) && v@ == t,
            None => r is None,
        },
{
    let required_ok = match m.required_marker {
        Some(mk) => contains_str(text.as_slice(), mk),
        None => true,
    };
    if required_ok && contains_str(text.as_slice(), m.from) {
        if m.all {
            Some(replace_all_str(text.as_slice(), m.from, m.to))
        } else {
            Some(replace_first_str(text.as_slice(), m.from, m.to))
        }
    } else {
        None
    }
}

/// Applies in-place migrations first, then falls back to
/// [`replace_known_snippet`].
///
/// Returns `(content, status)` where status is `"migrated"`, `"already"`, or
/// `"patched"`.
pub fn replace_known_snippet_with_migration(
    content: &str,
    snippets: &[&str],
    replacement: &str,
    already_marker: &str,
    migrations: &[Migration],
    target_name: &str,
) -> (r: Result<(String, &'static str), PatchTargetMissing>)
    ensures
        known_result(
            r,
            known_snippet_with_migration(
                content@,
                strs_view(snippets@),
                replacement@,
                already_marker@,
                migrations@,
            ),
            target_name@,
        ),
{
    let c = str_chars(content);
    let mut migrated: Vec<char> = Vec::new();
    push_all(&mut migrated, c.as_slice());
    assert(migrated@ =~= c@);
    let mut did_migrate = false;
    let mut k: usize = 0;
    while k < migrations.len()
        invariant
            k <= migrations.len(),
            migrate_all(c@, migrations@.take(k as int)) == (migrated@, did_migrate),
        decreases migrations.len() - k,
    {
        assert(migrations@.take(k + 1).drop_last() =~= migrations@.take(k as int));
        assert(migrations@.take(k + 1).last() == migrations@[k as int]);
        match migration_step_exec(&migrated, migrations[k]) {
            Some(next) => {
                migrated = next;
                did_migrate = true;
            },
            None => {},
        }
        k += 1;
    }
    assert(migrations@.take(k as int) =~= migrations@);
    if did_migrate {
        if contains_str(migrated.as_slice(), already_marker) {
            return Ok((chars_string(migrated.as_slice()), "migrated"));
        }
        let out = known_snippet_chars(migrated.as_slice(), snippets, replacement, already_marker);
        return match out {
            Some((v, already)) => {
                let s = chars_string(v.as_slice());
                if already {
                    Ok((s, "already"))
                } else {
                    Ok((s, "patched"))
                }
            },
            None => Err(PatchTargetMissing(target_name.to_owned())),
        };
    }
    if contains_str(c.as_slice(), already_marker) {
        return Ok((content.to_owned(), "already"));
    }
    let out = known_snippet_chars(c.as_slice(), snippets, replacement, already_marker);
    match out {
        Some((v, already)) => {
            let s = chars_string(v.as_slice());
            if already {
                Ok((s, "already"))
            } else {
                Ok((s, "patched"))
            }
        },
        None => Err(PatchTargetMissing(target_name.to_owned())),
    }
}

/// Like [`replace_known_snippet`], but leaves the content unchanged when no
/// target is found.
pub fn replace_known_snippet_optional(
    content: &str,
    snippets: &[&str],
    replacement: &str,
    already_marker: &str,
    target_name: &str,
) -> (r: String)
    ensures
        r@ == known_snippet_optional(content@, strs_view(snippets@), replacement@, already_marker@),
{
    let c = str_chars(content);
    let found = first_present_exec(c.as_slice(), snippets);
    if contains_str(c.as_slice(), already_marker) && (contains_str(c.as_slice(), replacement)
        || found.is_none()) {
        return content.to_owned();
    }
    match found {
        Some(i) => {
            proof {
                lemma_first_present_from(c@, strs_view(snippets@), 0);
            }
            assert(strs_view(snippets@)[i as int] == snippets@[i as int]@);
            let v = replace_first_str(c.as_slice(), snippets[i], replacement);
            chars_string(v.as_slice())
        },
        None => content.to_owned(),
    }
}


/// The first of `patterns[k..]` that compiles, matches `content`, and yields a
/// replacement, with that replacement.
pub open spec fn pattern_outcome(
    content: Seq<char>,
    patterns: Seq<Seq<char>>,
    replacement: Seq<char>,
    k: int,
) -> Option<Seq<char>>
    decreases patterns.len() - k,
{
    if k < 0 || k >= patterns.len() {
        None
    } else if regex_match(patterns[k], content) == Some(true) && regex_replaced(
        patterns[k],
        content,
        replacement,
    ) is Some {
        regex_replaced(patterns[k], content, replacement)
    } else {
        pattern_outcome(content, patterns, replacement, k + 1)
    }
}

/// Result of [`replace_known_snippet_or_patterns`]: patterns first, then
/// literal snippets; `None` when no target can be found.
pub open spec fn known_snippet_or_patterns(
    content: Seq<char>,
    snippets: Seq<Seq<char>>,
    patterns: Seq<Seq<char>>,
    replacement: Seq<char>,
    marker: Seq<char>,
) -> Option<(Seq<char>, int)> {
    if contains(content, marker) {
        Some((content, 0))
    } else {
        match pattern_outcome(content, patterns, replacement, 0) {
            Some(t) => Some((t, 1)),
            None => match first_present(content, snippets) {
                Some(i) => Some((replace_first(content, snippets[i], replacement), 1)),
                None => None,
            },
        }
    }
}

/// Tries the regular-expression `patterns` (given as pattern text) first,
/// then the literal snippets. The replacement is inserted literally (`${...}`
/// is not expanded). A pattern that does not compile is passed over.
///
/// Returns `(content, status)` where status is `"already"` or `"patched"`.
pub fn replace_known_snippet_or_patterns(
    content: &str,
    snippets: &[&str],
    patterns: &[&str],
    replacement: &str,
    already_marker: &str,
    target_name: &str,
) -> (r: Result<(String, &'static str), PatchTargetMissing>)
    ensures
        known_result(
            r,
            known_snippet_or_patterns(
                content@,
                strs_view(snippets@),
                strs_view(patterns@),
                replacement@,
                already_marker@,
            ),
            target_name@,
        ),
{
    let c = str_chars(content);
    if contains_str(c.as_slice(), already_marker) {
        return Ok((content.to_owned(), "already"));
    }
    let ghost pv = strs_view(patterns@);
    let mut k: usize = 0;
    while k < patterns.len()
        invariant
            k <= patterns.len(),
            pv == strs_view(patterns@),
            pv.len() == patterns.len(),
            !contains(content@, already_marker@),
            pattern_outcome(content@, pv, replacement@, 0) == pattern_outcome(
                content@,
                pv,
                replacement@,
                k as int,
            ),
        decreases patterns.len() - k,
    {
        assert(pv[k as int] == patterns@[k as int]@);
        let hit = match regex_is_match(patterns[k], content) {
            Some(b) => b,
            None => false,
        };
        if hit {
            match regex_replace_no_expand(patterns[k], content, replacement) {
                Some(out) => {
                    return Ok((out, "patched"));
                },
                None => {},
            }
        }
        k += 1;
    }
    match first_present_exec(c.as_slice(), snippets) {
        Some(i) => {
            proof {
                lemma_first_present_from(c@, strs_view(snippets@), 0);
            }
            assert(strs_view(snippets@)[i as int] == snippets@[i as int]@);
            let v = replace_first_str(c.as_slice(), snippets[i], replacement);
            Ok((chars_string(v.as_slice()), "patched"))
        },
        None => Err(PatchTargetMissing(target_name.to_owned())),
    }
}

// ── Laws ────────────────────────────────────────────────────────────────────

/// Re-running a snippet replacement is a no-op: when the replacement carries
/// the already-patched marker and the first run succeeded, a second run on
/// its output succeeds with status `already` and leaves the text as it is.
pub proof fn lemma_known_snippet_idempotent(
    content: Seq<char>,
    snippets: Seq<Seq<char>>,
    replacement: Seq<char>,
    marker: Seq<char>,
)
    requires
        contains(replacement, marker),
        known_snippet(content, snippets, replacement, marker) is Some,
    ensures
        ({
            let once = (known_snippet(content, snippets, replacement, marker)->0).0;
            known_snippet(once, snippets, replacement, marker) == Some((once, true))
        }),
{
    let marker_present = contains(content, marker);
    if !(marker_present && (contains(content, replacement) || first_present(content, snippets) is None)) {
        let i = first_present(content, snippets)->0;
        lemma_first_present_from(content, snippets, 0);
        lemma_replace_first_has_rep(content, snippets[i], replacement);
        lemma_contains_trans(replace_first(content, snippets[i], replacement), replacement, marker);
    }
}

/// Re-running an optional snippet replacement is a no-op when the
/// replacement carries the already-patched marker.
pub proof fn lemma_known_snippet_optional_idempotent(
    content: Seq<char>,
    snippets: Seq<Seq<char>>,
    replacement: Seq<char>,
    marker: Seq<char>,
)
    requires
        contains(replacement, marker),
    ensures
        ({
            let once = known_snippet_optional(content, snippets, replacement, marker);
            known_snippet_optional(once, snippets, replacement, marker) == once
        }),
{
    if known_snippet(content, snippets, replacement, marker) is Some {
        lemma_known_snippet_idempotent(content, snippets, replacement, marker);
    }
}

} // verus!
