//! Decisions behind patching a GNOME extension `metadata.json`.
//!
//! The running shell version is added to the `shell-version` list, and
//! `version` is pinned above any plausible upstream release so GNOME never
//! auto-updates over the local source patches. The document itself is read,
//! edited and written by the caller; these functions decide what to change
//! from the plain values the caller reads out of it.

use vstd::prelude::*;
use crate::text::{chars_string, push_str, str_chars};

verus! {

/// Failure while reading, parsing, or writing `metadata.json`.
#[derive(Debug, Clone, PartialEq, Eq)]
pub enum MetadataError {
    /// The metadata file does not exist; holds its path.
    NotFound(String),
    /// The metadata file could not be read or written; holds the I/O message.
    Io(String),
    /// The metadata file does not contain valid JSON.
    InvalidJson {
        /// Path of the offending file.
        path: String,
        /// Underlying parse failure, as text.
        source: String,
    },
}

impl MetadataError {
    /// The error's message.
    pub fn message(&self) -> (r: String)
        ensures
            r@ == match self {
                MetadataError::NotFound(p) => "Metadata file not found: "@ + p@,
                MetadataError::Io(m) => m@,
                MetadataError::InvalidJson { path, source } => "Invalid JSON in "@ + path@ + ": "@ + source@,
            },
    {
        let mut out: Vec<char> = Vec::new();
        match self {
            MetadataError::NotFound(p) => {
                push_str(&mut out, "Metadata file not found: ");
                push_str(&mut out, p.as_str());
            },
            MetadataError::Io(m) => {
                push_str(&mut out, m.as_str());
            },
            MetadataError::InvalidJson { path, source } => {
                push_str(&mut out, "Invalid JSON in ");
                push_str(&mut out, path.as_str());
                push_str(&mut out, ": ");
                push_str(&mut out, source.as_str());
            },
        }
        chars_string(out.as_slice())
    }
}

/// What to do with the `shell-version` entry.
#[derive(Debug, Clone, Copy, PartialEq, Eq)]
pub enum ShellVersionEdit {
    /// The version is already listed; the file is left alone.
    AlreadyListed,
    /// The list exists without the version; append it.
    Append,
    /// The entry is missing or not a list; set it to a one-element list.
    ReplaceWithList,
}

/// The `version` entry as the pin reads it.
#[derive(Debug, Clone, PartialEq, Eq)]
pub enum VersionValue {
    /// A JSON number; `None` when it is not representable as an `i64`.
    Number(Option<i64>),
    /// A JSON string.
    Text(String),
    /// Any other JSON value.
    Other,
}

// ── Specifications ───────────────────────────────────────────────────────────

/// An ASCII decimal digit.
pub open spec fn is_digit(c: char) -> bool {
    '0' <= c && c <= '9'
}

/// Every character of `s` is an ASCII decimal digit.
pub open spec fn all_digits(s: Seq<char>) -> bool {
    forall|i: int| 0 <= i < s.len() ==> is_digit(#[trigger] s[i])
}

/// The value of a run of decimal digits.
pub open spec fn digits_value(s: Seq<char>) -> int
    decreases s.len(),
{
    if s.len() == 0 {
        0
    } else {
        digits_value(s.drop_last()) * 10 + (s.last() as int - '0' as int)
    }
}

/// Rust's `str::parse::<i64>`: an optional `+` or `-` followed by one or more
/// ASCII digits and nothing else, whose value fits in an `i64`.
pub open spec fn parsed_i64(s: Seq<char>) -> Option<i64> {
    let signed = s.len() > 0 && (s[0] == '+' || s[0] == '-');
    let negative = s.len() > 0 && s[0] == '-';
    let body = if signed {
        s.skip(1)
    } else {
        s
    };
    if body.len() == 0 || !all_digits(body) {
        None
    } else {
        let v = if negative {
            -digits_value(body)
        } else {
            digits_value(body)
        };
        if i64::MIN <= v && v <= i64::MAX {
            Some(v as i64)
        } else {
            None
        }
    }
}

/// The edit for `shell-version`, given its entries (each entry's text when it
/// is a string), or `None` when the entry is missing or not a list.
pub open spec fn shell_version_edit_spec(entries: Option<Seq<Option<Seq<char>>>>, shell_version: Seq<char>) -> ShellVersionEdit {
    match entries {
        None => ShellVersionEdit::ReplaceWithList,
        Some(es) => if exists|i: int| 0 <= i < es.len() && es[i] == Some(shell_version) {
            ShellVersionEdit::AlreadyListed
        } else {
            ShellVersionEdit::Append
        },
    }
}

/// The installed version as the pin reads it: a number representable as an
/// `i64`, or a string that parses as one; anything else counts as 0.
pub open spec fn current_version_spec(version: Option<VersionValue>) -> i64 {
    match version {
        Some(VersionValue::Number(Some(n))) => n,
        Some(VersionValue::Text(t)) => match parsed_i64(t@) {
            Some(n) => n,
            None => 0,
        },
        _ => 0,
    }
}

/// Views of the `shell-version` entries.
pub open spec fn entries_view(entries: Option<Vec<Option<String>>>) -> Option<Seq<Option<Seq<char>>>> {
    match entries {
        None => None,
        Some(v) => Some(
            v@.map_values(
                |e: Option<String>|
                    match e {
                        Some(s) => Some(s@),
                        None => None,
                    },
            ),
        ),
    }
}

/// The `version` entry as the pin reads it, as plain values.
pub enum VersionView {
    /// A JSON number; `None` when it is not representable as an `i64`.
    Number(Option<i64>),
    /// A JSON string.
    Text(Seq<char>),
    /// Any other JSON value.
    Other,
}

/// View of the `version` entry.
pub open spec fn version_view(version: Option<VersionValue>) -> Option<VersionView> {
    match version {
        None => None,
        Some(VersionValue::Number(n)) => Some(VersionView::Number(n)),
        Some(VersionValue::Text(t)) => Some(VersionView::Text(t@)),
        Some(VersionValue::Other) => Some(VersionView::Other),
    }
}

/// What `serde_json::from_str` reads out of a `metadata.json` text: the
/// `shell-version` entries (each one's text when it is a string; `None` when
/// the entry is missing or not a list) and the `version` entry; `None` when
/// the text is not valid JSON.
pub uninterp spec fn metadata_fields(text: Seq<char>) -> Option<(Option<Seq<Option<Seq<char>>>>, Option<VersionView>)>;

/// The installed version as the pin reads it, from the viewed entry.
pub open spec fn current_version_of(version: Option<VersionView>) -> i64 {
    match version {
        Some(VersionView::Number(Some(n))) => n,
        Some(VersionView::Text(t)) => match parsed_i64(t) {
            Some(n) => n,
            None => 0,
        },
        _ => 0,
    }
}

// ── Lemmas ───────────────────────────────────────────────────────────────────

/// Appending digits never lowers the value of a digit run.
pub proof fn lemma_digits_value_grows(s: Seq<char>, i: int, j: int)
    requires
        0 <= i <= j <= s.len(),
        forall|k: int| 0 <= k < s.len() ==> is_digit(#[trigger] s[k]),
    ensures
        0 <= digits_value(s.take(i)) <= digits_value(s.take(j)),
    decreases j - i,
{
    if i < j {
        lemma_digits_value_grows(s, i, j - 1);
        assert(s.take(j).drop_last() =~= s.take(j - 1));
        assert(is_digit(s[j - 1]));
    } else {
        lemma_digits_value_nonneg(s.take(i));
    }
}

/// A digit run has a non-negative value.
pub proof fn lemma_digits_value_nonneg(s: Seq<char>)
    requires
        forall|k: int| 0 <= k < s.len() ==> is_digit(#[trigger] s[k]),
    ensures
        0 <= digits_value(s),
    decreases s.len(),
{
    if s.len() > 0 {
        assert forall|k: int| 0 <= k < s.drop_last().len() implies is_digit(#[trigger] s.drop_last()[k]) by {
            assert(s.drop_last()[k] == s[k]);
        }
        lemma_digits_value_nonneg(s.drop_last());
        assert(is_digit(s.last()));
    }
}

// ── Executable code ──────────────────────────────────────────────────────────

/// Rust's `str::parse::<i64>`.
pub fn parse_i64(text: &str) -> (r: Option<i64>)
    ensures
        r == parsed_i64(text@),
{
    let s = str_chars(text);
    let n = s.len();
    let signed = n > 0 && (s[0] == '+' || s[0] == '-');
    let negative = n > 0 && s[0] == '-';
    let start: usize = if signed {
        1
    } else {
        0
    };
    let ghost body = if signed {
        s@.skip(1)
    } else {
        s@
    };
    assert(body =~= s@.skip(start as int));
    if start == n {
        return None;
    }
    // Magnitude limit: 2^63 for a negative number, 2^63 - 1 otherwise.
    let limit: u64 = if negative {
        9223372036854775808u64
    } else {
        9223372036854775807u64
    };
    let mut mag: u64 = 0;
    let mut i: usize = start;
    while i < n
        invariant
            start <= i <= n,
            n == s@.len(),
            s@ == text@,
            signed == (n > 0 && (s@[0] == '+' || s@[0] == '-')),
            negative == (n > 0 && s@[0] == '-'),
            start == (if signed {
                1usize
            } else {
                0usize
            }),
            body == (if signed {
                s@.skip(1)
            } else {
                s@
            }),
            start == 0 || start == 1,
            start < n,
            body == s@.skip(start as int),
            forall|k: int| 0 <= k < i - start ==> is_digit(#[trigger] body[k]),
            mag as int == digits_value(body.take(i - start)),
            mag <= limit,
            limit == (if negative {
                9223372036854775808u64
            } else {
                9223372036854775807u64
            }),
        decreases n - i,
    {
        let c = s[i];
        assert(body[i - start] == c);
        if !('0' <= c && c <= '9') {
            proof {
                let j = (i - start) as int;
                assert(0 <= j < body.len());
                assert(!is_digit(body[j]));
                assert(!all_digits(body));
            }
            return None;
        }
        let d: u64 = (c as u32 - '0' as u32) as u64;
        assert(body.take(i - start + 1).drop_last() =~= body.take(i - start));
        assert(body.take(i - start + 1).last() == c);
        if mag > (limit - d) / 10 {
            // The value already exceeds the limit, and more digits only grow it.
            assert(mag * 10 + d > limit) by (nonlinear_arith)
                requires
                    mag > (limit - d) / 10,
                    d <= 9,
                    limit >= 9,
            ;
            proof {
                let k = (i - start + 1) as int;
                assert(digits_value(body.take(k)) == mag * 10 + d);
                if all_digits(body) {
                    lemma_digits_value_grows(body, k, body.len() as int);
                    assert(body.take(body.len() as int) =~= body);
                    assert(digits_value(body) > limit);
                }
            }
            return None;
        }
        assert(mag * 10 + d <= limit) by (nonlinear_arith)
            requires
                mag <= (limit - d) / 10,
                d <= 9,
                limit >= 9,
        ;
        mag = mag * 10 + d;
        i += 1;
    }
    assert(body.take(n - start) =~= body);
    if negative {
        if mag == 9223372036854775808u64 {
            Some(i64::MIN)
        } else {
            Some(-(mag as i64))
        }
    } else {
        Some(mag as i64)
    }
}

/// Decide the `shell-version` edit: append when the list lacks the version,
/// replace a missing or non-list entry with a one-element list.
pub fn shell_version_edit(entries: &Option<Vec<Option<String>>>, shell_version: &str) -> (r: ShellVersionEdit)
    ensures
        r == shell_version_edit_spec(entries_view(*entries), shell_version@),
{
    match entries {
        None => ShellVersionEdit::ReplaceWithList,
        Some(es) => {
            let ghost ev = entries_view(*entries)->0;
            let want = str_chars(shell_version);
            let mut i: usize = 0;
            while i < es.len()
                invariant
                    i <= es.len(),
                    ev == entries_view(*entries)->0,
                    ev.len() == es.len(),
                    *entries == Some(*es),
                    want@ == shell_version@,
                    forall|j: int| 0 <= j < i ==> ev[j] != Some(shell_version@),
                decreases es.len() - i,
            {
                assert(ev[i as int] == match es@[i as int] {
                    Some(s) => Some(s@),
                    None => None::<Seq<char>>,
                });
                match &es[i] {
                    Some(s) => {
                        if crate::text::str_eq_chars(s.as_str(), want.as_slice()) {
                            return ShellVersionEdit::AlreadyListed;
                        }
                    },
                    None => {},
                }
                i += 1;
            }
            ShellVersionEdit::Append
        },
    }
}

/// The installed version as the pin reads it, and whether it must be raised
/// to `min_version` (it is below it).
pub fn version_pin(version: &Option<VersionValue>, min_version: i64) -> (r: (i64, bool))
    ensures
        r.0 == current_version_spec(*version),
        r.1 == (current_version_spec(*version) < min_version),
{
    let current: i64 = match version {
        Some(VersionValue::Number(Some(n))) => *n,
        Some(VersionValue::Text(t)) => match parse_i64(t.as_str()) {
            Some(n) => n,
            None => 0,
        },
        _ => 0,
    };
    (current, current < min_version)
}

/// Calls `serde_json::from_str` on the `metadata.json` text and reads the
/// `shell-version` list (`Value::get`, each entry by `Value::as_str`) and the
/// `version` entry (a number by `Number::as_i64`). The result is the named
/// [`metadata_fields`] of the text; the parse error's message is handed out
/// as text and nothing is claimed of it.
#[verifier::external_body]
fn parse_metadata_fields(text: &str) -> (r: Result<(Option<Vec<Option<String>>>, Option<VersionValue>), String>)
    ensures
        r is Err <==> metadata_fields(text@) is None,
        r matches Ok(f) ==> metadata_fields(text@) == Some((entries_view(f.0), version_view(f.1))),
{
    let data: serde_json::Value = serde_json::from_str(text).map_err(|e| e.to_string())?;
    let entries = match data.get("shell-version") {
        Some(serde_json::Value::Array(vs)) => Some(vs.iter().map(|e| e.as_str().map(String::from)).collect()),
        _ => None,
    };
    let version = data.get("version").map(|v| match v {
        serde_json::Value::Number(n) => VersionValue::Number(n.as_i64()),
        serde_json::Value::String(t) => VersionValue::Text(t.clone()),
        _ => VersionValue::Other,
    });
    Ok((entries, version))
}

/// The `shell-version` edit a `metadata.json` text (read from `path`) calls
/// for, or `InvalidJson` naming `path` when the text is not valid JSON.
pub fn plan_shell_version(text: &str, path: &str, shell_version: &str) -> (r: Result<ShellVersionEdit, MetadataError>)
    ensures
        match metadata_fields(text@) {
            None => r matches Err(MetadataError::InvalidJson { path: p, .. }) && p@ == path@,
            Some((entries, _)) => r == Ok::<ShellVersionEdit, MetadataError>(shell_version_edit_spec(entries, shell_version@)),
        },
{
    match parse_metadata_fields(text) {
        Err(source) => Err(MetadataError::InvalidJson { path: path.to_owned(), source }),
        Ok((entries, _)) => Ok(shell_version_edit(&entries, shell_version)),
    }
}

/// The installed version of a `metadata.json` text (read from `path`) and
/// whether it must be raised to `min_version`, or `InvalidJson` naming
/// `path` when the text is not valid JSON.
pub fn plan_version_pin(text: &str, path: &str, min_version: i64) -> (r: Result<(i64, bool), MetadataError>)
    ensures
        match metadata_fields(text@) {
            None => r matches Err(MetadataError::InvalidJson { path: p, .. }) && p@ == path@,
            Some((_, version)) => r == Ok::<(i64, bool), MetadataError>(
                (current_version_of(version), current_version_of(version) < min_version),
            ),
        },
{
    match parse_metadata_fields(text) {
        Err(source) => Err(MetadataError::InvalidJson { path: path.to_owned(), source }),
        Ok((_, version)) => {
            let r = version_pin(&version, min_version);
            assert(current_version_spec(version) == current_version_of(version_view(version)));
            Ok(r)
        },
    }
}

} // verus!
