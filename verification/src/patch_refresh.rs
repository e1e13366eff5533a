//! Add sub-second refresh interval support to the Resource Monitor extension.
//!
//! Upstream Resource Monitor only allows whole-second refresh intervals and
//! throttles GPU polling to a 5-second floor. The substitutions below rewrite
//! the relevant source files so the panel can refresh every 0.1 seconds
//! (including GPU usage/VRAM). Each file is transformed on its own; reading,
//! writing and recompiling the GSettings schemas is left to the caller.

use vstd::prelude::*;
use crate::text::{
    chars_string, clash_at, clash_from, contains, contains_str, lemma_contains, lemma_find_from,
    lemma_replace_all_clears, lemma_replace_all_keeps, lemma_replace_all_keeps_out,
    lemma_replace_all_writes, matches_at, push_str, replace_all, replace_all_str, str_chars, str_eq,
};

verus! {

/// Name of the Resource Monitor GSettings schema file, shared between the
/// extension's own `schemas/` directory and the user's GSettings schema
/// directory.
pub const GSCHEMA_FILE_NAME: &'static str = "org.gnome.shell.extensions.resource-monitor.gschema.xml";

/// The extension-relative files that are patched, in order.
pub const EXTENSION_JS: &'static str = "extension.js";
pub const SETTINGS_JS: &'static str = "services/settings.js";
pub const PREFS_JS: &'static str = "prefs.js";
pub const GSCHEMA_PATH: &'static str = "schemas/org.gnome.shell.extensions.resource-monitor.gschema.xml";

// ── Canonical substitutions ──────────────────────────────────────────────────

pub const EXT_GET_INT: &'static str = "this._settings.get_int(REFRESH_TIME)";
pub const EXT_GET_DOUBLE: &'static str = "this._settings.get_double(REFRESH_TIME)";
pub const EXT_TIMEOUT_SECONDS: &'static str = "GLib.timeout_add_seconds(";
pub const EXT_TIMEOUT_MS: &'static str = "GLib.timeout_add(";
pub const EXT_REFRESH_ARG: &'static str = "        this._refreshTime,\n";
pub const EXT_REFRESH_ARG_MS: &'static str = "        Math.round(this._refreshTime * 1000),\n";

/// Upstream throttles GPU polling to a 5-second minimum, which keeps the GPU
/// usage/VRAM values from refreshing at the configured sub-second rate the
/// way CPU, RAM, and ethernet do.
pub const EXT_GPU_MIN_UPSTREAM: &'static str = "const GPU_MIN_REFRESH_INTERVAL_SECONDS = 5;";
pub const EXT_GPU_MIN_CURRENT: &'static str = "const GPU_MIN_REFRESH_INTERVAL_SECONDS = 0.1;";

pub const SETTINGS_GET_INT: &'static str = "indicator._settings.get_int(keys.REFRESH_TIME)";
pub const SETTINGS_GET_DOUBLE: &'static str = "indicator._settings.get_double(keys.REFRESH_TIME)";

pub const PREFS_SPIN_UPSTREAM: &'static str = "this._secondsSpinbutton = this._createSpinButton({\n        upper: 60,\n        step: 1,\n        page: 1,\n      });";
pub const PREFS_SPIN_CURRENT: &'static str = "this._secondsSpinbutton = this._createSpinButton({\n        lower: 0.1,\n        upper: 60,\n        step: 0.1,\n        page: 1,\n        digits: 1,\n      });";

pub const GSCHEMA_KEY_UPSTREAM: &'static str = "<key name=\"refreshtime\" type=\"i\">\n            <default>2</default>\n            <range min=\"1\" max=\"60\"/>";
pub const GSCHEMA_KEY_CURRENT: &'static str = "<key name=\"refreshtime\" type=\"d\">\n            <default>0.5</default>\n            <range min=\"0.1\" max=\"60\"/>";

// ── Upgrades of the legacy 500 ms patch ────────────────────────────────────

pub const EXT_GPU_MIN_LEGACY: &'static str = "const GPU_MIN_REFRESH_INTERVAL_SECONDS = 0.5;";
pub const PREFS_LOWER_LEGACY: &'static str = "        lower: 0.5,";
pub const PREFS_LOWER_CURRENT: &'static str = "        lower: 0.1,";
pub const PREFS_STEP_LEGACY: &'static str = "        step: 0.5,";
pub const PREFS_STEP_CURRENT: &'static str = "        step: 0.1,";
pub const GSCHEMA_RANGE_LEGACY: &'static str = "            <range min=\"0.5\" max=\"60\"/>";
pub const GSCHEMA_RANGE_CURRENT: &'static str = "            <range min=\"0.1\" max=\"60\"/>";

/// Failure while applying the refresh-interval patch.
#[derive(Debug, Clone, PartialEq, Eq)]
pub enum RefreshPatchError {
    /// A target file could not be read or written; holds the I/O message.
    Io(String),
    /// A target file does not contain the expected upstream source; holds its
    /// extension-relative path.
    Unsupported(String),
    /// `glib-compile-schemas` could not be run or reported failure.
    SchemaCompile(String),
}

impl RefreshPatchError {
    /// The error's message.
    pub fn message(&self) -> (r: String)
        ensures
            r@ == match self {
                RefreshPatchError::Io(m) => m@,
                RefreshPatchError::Unsupported(p) => "Unsupported Resource Monitor source in "@ + p@,
                RefreshPatchError::SchemaCompile(m) => "glib-compile-schemas failed: "@ + m@,
            },
    {
        let mut out: Vec<char> = Vec::new();
        match self {
            RefreshPatchError::Io(m) => {
                push_str(&mut out, m.as_str());
            },
            RefreshPatchError::Unsupported(p) => {
                push_str(&mut out, "Unsupported Resource Monitor source in ");
                push_str(&mut out, p.as_str());
            },
            RefreshPatchError::SchemaCompile(m) => {
                push_str(&mut out, "glib-compile-schemas failed: ");
                push_str(&mut out, m.as_str());
            },
        }
        chars_string(out.as_slice())
    }
}

// ── Specifications ───────────────────────────────────────────────────────────

/// The views of a list of `(old, new)` substitutions.
pub open spec fn pairs_view(v: Seq<(&str, &str)>) -> Seq<(Seq<char>, Seq<char>)> {
    v.map_values(|p: (&str, &str)| (p.0@, p.1@))
}

/// The extension-relative files that are patched, in order.
pub open spec fn refresh_targets_spec() -> Seq<Seq<char>> {
    seq![EXTENSION_JS@, SETTINGS_JS@, PREFS_JS@, GSCHEMA_PATH@]
}

/// Canonical substitutions for a file, in order; none for other files.
pub open spec fn canonical_rules(path: Seq<char>) -> Seq<(Seq<char>, Seq<char>)> {
    if path == EXTENSION_JS@ {
        seq![
            (EXT_GET_INT@, EXT_GET_DOUBLE@),
            (EXT_TIMEOUT_SECONDS@, EXT_TIMEOUT_MS@),
            (EXT_REFRESH_ARG@, EXT_REFRESH_ARG_MS@),
            (EXT_GPU_MIN_UPSTREAM@, EXT_GPU_MIN_CURRENT@),
        ]
    } else if path == SETTINGS_JS@ {
        seq![(SETTINGS_GET_INT@, SETTINGS_GET_DOUBLE@)]
    } else if path == PREFS_JS@ {
        seq![(PREFS_SPIN_UPSTREAM@, PREFS_SPIN_CURRENT@)]
    } else if path == GSCHEMA_PATH@ {
        seq![(GSCHEMA_KEY_UPSTREAM@, GSCHEMA_KEY_CURRENT@)]
    } else {
        Seq::empty()
    }
}

/// Upgrades of the legacy 500 ms patch for a file, in order.
pub open spec fn legacy_rules(path: Seq<char>) -> Seq<(Seq<char>, Seq<char>)> {
    if path == EXTENSION_JS@ {
        seq![(EXT_GPU_MIN_LEGACY@, EXT_GPU_MIN_CURRENT@)]
    } else if path == PREFS_JS@ {
        seq![(PREFS_LOWER_LEGACY@, PREFS_LOWER_CURRENT@), (PREFS_STEP_LEGACY@, PREFS_STEP_CURRENT@)]
    } else if path == GSCHEMA_PATH@ {
        seq![(GSCHEMA_RANGE_LEGACY@, GSCHEMA_RANGE_CURRENT@)]
    } else {
        Seq::empty()
    }
}

/// The legacy upgrades applied in order: each replaces every occurrence of
/// its old text when that text is present.
pub open spec fn apply_legacy(content: Seq<char>, rules: Seq<(Seq<char>, Seq<char>)>) -> Seq<char>
    decreases rules.len(),
{
    if rules.len() == 0 {
        content
    } else {
        let t = apply_legacy(content, rules.drop_last());
        let (old, new) = rules.last();
        if contains(t, old) {
            replace_all(t, old, new)
        } else {
            t
        }
    }
}

/// The canonical substitutions applied in order: old text present means
/// replace every occurrence; otherwise the new text must already be there,
/// or the file is unsupported (`None`).
pub open spec fn apply_canonical(content: Seq<char>, rules: Seq<(Seq<char>, Seq<char>)>) -> Option<Seq<char>>
    decreases rules.len(),
{
    if rules.len() == 0 {
        Some(content)
    } else {
        match apply_canonical(content, rules.drop_last()) {
            None => None,
            Some(t) => {
                let (old, new) = rules.last();
                if contains(t, old) {
                    Some(replace_all(t, old, new))
                } else if !contains(t, new) {
                    None
                } else {
                    Some(t)
                }
            },
        }
    }
}

/// Result of [`transform_refresh_file`].
pub open spec fn refresh_transform(path: Seq<char>, content: Seq<char>) -> Option<Seq<char>> {
    apply_canonical(apply_legacy(content, legacy_rules(path)), canonical_rules(path))
}

// ── Executable code ──────────────────────────────────────────────────────────

/// The extension-relative files that are patched, in order.
pub fn refresh_targets() -> (r: Vec<&'static str>)
    ensures
        r@.map_values(|p: &str| p@) == refresh_targets_spec(),
{
    let v = vec![EXTENSION_JS, SETTINGS_JS, PREFS_JS, GSCHEMA_PATH];
    assert(v@.map_values(|p: &str| p@) =~= refresh_targets_spec());
    v
}

/// Canonical substitutions for `relative_path`.
fn canonical_replacements(relative_path: &str) -> (r: Vec<(&'static str, &'static str)>)
    ensures
        pairs_view(r@) == canonical_rules(relative_path@),
{
    let v: Vec<(&'static str, &'static str)> = if str_eq(relative_path, EXTENSION_JS) {
        vec![
            (EXT_GET_INT, EXT_GET_DOUBLE),
            (EXT_TIMEOUT_SECONDS, EXT_TIMEOUT_MS),
            (EXT_REFRESH_ARG, EXT_REFRESH_ARG_MS),
            (EXT_GPU_MIN_UPSTREAM, EXT_GPU_MIN_CURRENT),
        ]
    } else if str_eq(relative_path, SETTINGS_JS) {
        vec![(SETTINGS_GET_INT, SETTINGS_GET_DOUBLE)]
    } else if str_eq(relative_path, PREFS_JS) {
        vec![(PREFS_SPIN_UPSTREAM, PREFS_SPIN_CURRENT)]
    } else if str_eq(relative_path, GSCHEMA_PATH) {
        vec![(GSCHEMA_KEY_UPSTREAM, GSCHEMA_KEY_CURRENT)]
    } else {
        Vec::new()
    };
    assert(pairs_view(v@) =~= canonical_rules(relative_path@));
    v
}

/// The legacy 500 ms upgrades for `relative_path`; none for files the
/// legacy 500 ms patch did not touch.
fn legacy_replacements_for(relative_path: &str) -> (r: Vec<(&'static str, &'static str)>)
    ensures
        pairs_view(r@) == legacy_rules(relative_path@),
{
    let v: Vec<(&'static str, &'static str)> = if str_eq(relative_path, EXTENSION_JS) {
        vec![(EXT_GPU_MIN_LEGACY, EXT_GPU_MIN_CURRENT)]
    } else if str_eq(relative_path, PREFS_JS) {
        vec![(PREFS_LOWER_LEGACY, PREFS_LOWER_CURRENT), (PREFS_STEP_LEGACY, PREFS_STEP_CURRENT)]
    } else if str_eq(relative_path, GSCHEMA_PATH) {
        vec![(GSCHEMA_RANGE_LEGACY, GSCHEMA_RANGE_CURRENT)]
    } else {
        Vec::new()
    };
    assert(pairs_view(v@) =~= legacy_rules(relative_path@));
    v
}

/// Apply the legacy upgrades and then the canonical substitutions to one
/// file's content.
///
/// Returns the transformed content, or [`RefreshPatchError::Unsupported`]
/// naming `relative_path` when a canonical substitution finds neither its
/// upstream nor its patched form. Content equal to the input means the file
/// is already patched.
pub fn transform_refresh_file(relative_path: &str, content: &str) -> (r: Result<String, RefreshPatchError>)
    ensures
        match refresh_transform(relative_path@, content@) {
            Some(t) => r matches Ok(s) && s@ == t,
            None => r matches Err(RefreshPatchError::Unsupported(p)) && p@ == relative_path@,
        },
{
    let legacy = legacy_replacements_for(relative_path);
    let canonical = canonical_replacements(relative_path);
    let ghost lrules = pairs_view(legacy@);
    let ghost crules = pairs_view(canonical@);
    let mut text = str_chars(content);
    let mut k: usize = 0;
    while k < legacy.len()
        invariant
            k <= legacy.len(),
            lrules == pairs_view(legacy@),
            lrules.len() == legacy.len(),
            text@ == apply_legacy(content@, lrules.take(k as int)),
        decreases legacy.len() - k,
    {
        let (old, new) = legacy[k];
        assert(lrules.take(k + 1).drop_last() =~= lrules.take(k as int));
        assert(lrules.take(k + 1).last() == (old@, new@));
        if contains_str(text.as_slice(), old) {
            text = replace_all_str(text.as_slice(), old, new);
        }
        k += 1;
    }
    assert(lrules.take(k as int) =~= lrules);
    let ghost legacy_done = text@;
    let mut j: usize = 0;
    while j < canonical.len()
        invariant
            j <= canonical.len(),
            crules == pairs_view(canonical@),
            crules == canonical_rules(relative_path@),
            legacy_done == apply_legacy(content@, legacy_rules(relative_path@)),
            crules.len() == canonical.len(),
            apply_canonical(legacy_done, crules.take(j as int)) == Some(text@),
        decreases canonical.len() - j,
    {
        let (old, new) = canonical[j];
        assert(crules.take(j + 1).drop_last() =~= crules.take(j as int));
        assert(crules.take(j + 1).last() == (old@, new@));
        // Prefer "old still present → replace" over "new substring exists →
        // skip": short tokens like `GLib.timeout_add(` can appear elsewhere
        // while the refresh timer still uses timeout_add_seconds.
        if contains_str(text.as_slice(), old) {
            text = replace_all_str(text.as_slice(), old, new);
        } else if !contains_str(text.as_slice(), new) {
            assert(apply_canonical(legacy_done, crules.take(j + 1)) is None);
            proof {
                lemma_apply_canonical_none_stays(legacy_done, crules, j as int + 1);
            }
            assert(crules.take(canonical.len() as int) =~= crules);
            return Err(RefreshPatchError::Unsupported(relative_path.to_owned()));
        }
        j += 1;
    }
    assert(crules.take(j as int) =~= crules);
    Ok(chars_string(text.as_slice()))
}

/// Once a prefix of the substitutions fails, the whole list fails.
proof fn lemma_apply_canonical_none_stays(content: Seq<char>, rules: Seq<(Seq<char>, Seq<char>)>, k: int)
    requires
        0 <= k <= rules.len(),
        apply_canonical(content, rules.take(k)) is None,
    ensures
        apply_canonical(content, rules) is None,
    decreases rules.len() - k,
{
    if k < rules.len() {
        assert(rules.take(k + 1).drop_last() =~= rules.take(k));
        lemma_apply_canonical_none_stays(content, rules, k + 1);
    } else {
        assert(rules.take(k) =~= rules);
    }
}

/// With no old text of any upgrade present, the upgrades change nothing.
proof fn lemma_apply_legacy_absent(content: Seq<char>, rules: Seq<(Seq<char>, Seq<char>)>)
    requires
        forall|i: int| 0 <= i < rules.len() ==> !contains(content, #[trigger] rules[i].0),
    ensures
        apply_legacy(content, rules) == content,
    decreases rules.len(),
{
    if rules.len() > 0 {
        let front = rules.drop_last();
        assert forall|i: int| 0 <= i < front.len() implies !contains(content, #[trigger] front[i].0) by {
            assert(front[i] == rules[i]);
        }
        lemma_apply_legacy_absent(content, front);
        assert(rules.last() == rules[rules.len() - 1]);
    }
}

/// With every old text gone and every new text present, the canonical
/// substitutions keep the text.
proof fn lemma_apply_canonical_settled(content: Seq<char>, rules: Seq<(Seq<char>, Seq<char>)>)
    requires
        forall|i: int| 0 <= i < rules.len() ==> !contains(content, #[trigger] rules[i].0),
        forall|i: int| 0 <= i < rules.len() ==> contains(content, #[trigger] rules[i].1),
    ensures
        apply_canonical(content, rules) == Some(content),
    decreases rules.len(),
{
    if rules.len() > 0 {
        let front = rules.drop_last();
        assert forall|i: int| 0 <= i < front.len() implies !contains(content, #[trigger] front[i].0)
            && contains(content, front[i].1) by {
            assert(front[i] == rules[i]);
        }
        lemma_apply_canonical_settled(content, front);
        assert(rules.last() == rules[rules.len() - 1]);
    }
}

/// A settled file is left alone: when no upgrade's old text and no
/// substitution's old text is present, and every substitution's new text
/// is, the transform succeeds and keeps the text.
pub proof fn lemma_settled_file_is_fixed(relative_path: Seq<char>, content: Seq<char>)
    requires
        forall|i: int|
            0 <= i < legacy_rules(relative_path).len() ==> !contains(content, #[trigger] legacy_rules(relative_path)[i].0),
        forall|i: int|
            0 <= i < canonical_rules(relative_path).len() ==> !contains(content, #[trigger] canonical_rules(relative_path)[i].0),
        forall|i: int|
            0 <= i < canonical_rules(relative_path).len() ==> contains(content, #[trigger] canonical_rules(relative_path)[i].1),
    ensures
        refresh_transform(relative_path, content) == Some(content),
{
    lemma_apply_legacy_absent(content, legacy_rules(relative_path));
    lemma_apply_canonical_settled(content, canonical_rules(relative_path));
}

/// One substitution applied the way both lists apply it: every occurrence
/// of the old text replaced when it is present, the text kept otherwise.
pub open spec fn step_text(t: Seq<char>, old: Seq<char>, new: Seq<char>) -> Seq<char> {
    if contains(t, old) {
        replace_all(t, old, new)
    } else {
        t
    }
}

/// One substitution on a text from which the texts in `gone` are absent and
/// in which the texts in `kept` are present: afterwards its old text is
/// absent, its new text present when either was before, and neither list
/// loses its standing, when the substitution's texts cannot overlap them.
proof fn lemma_canonical_step(t: Seq<char>, old: Seq<char>, new: Seq<char>, gone: Seq<Seq<char>>, kept: Seq<Seq<char>>)
    requires
        old.len() > 0,
        new.len() > 0,
        clash_from(new, old, 0),
        clash_from(old, new, 1),
        forall|j: int| 0 <= j < gone.len() ==> !contains(t, #[trigger] gone[j]),
        forall|j: int| 0 <= j < gone.len() ==> clash_from(new, #[trigger] gone[j], 0) && clash_from(gone[j], new, 1),
        forall|j: int| 0 <= j < kept.len() ==> contains(t, #[trigger] kept[j]),
        forall|j: int| 0 <= j < kept.len() ==> clash_from(old, #[trigger] kept[j], 0) && clash_from(kept[j], old, 1),
    ensures
        !contains(step_text(t, old, new), old),
        contains(t, old) || contains(t, new) ==> contains(step_text(t, old, new), new),
        forall|j: int| 0 <= j < gone.len() ==> !contains(step_text(t, old, new), #[trigger] gone[j]),
        forall|j: int| 0 <= j < kept.len() ==> contains(step_text(t, old, new), #[trigger] kept[j]),
{
    if contains(t, old) {
        let out = replace_all(t, old, new);
        lemma_replace_all_clears(t, old, new, 0);
        lemma_contains(out, old);
        lemma_replace_all_writes(t, old, new);
        assert forall|j: int| 0 <= j < gone.len() implies !contains(out, #[trigger] gone[j]) by {
            lemma_contains(t, gone[j]);
            lemma_replace_all_keeps_out(t, old, new, gone[j], 0);
            lemma_contains(out, gone[j]);
        }
        assert forall|j: int| 0 <= j < kept.len() implies contains(out, #[trigger] kept[j]) by {
            lemma_contains(t, kept[j]);
            let p = choose|p: int| matches_at(t, kept[j], p);
            lemma_find_from(t, kept[j], 0);
            lemma_replace_all_keeps(t, old, new, kept[j], 0, p);
        }
    }
}

/// The four patched files have different paths.
proof fn lemma_paths_distinct()
    ensures
        EXTENSION_JS@ != SETTINGS_JS@,
        EXTENSION_JS@ != PREFS_JS@,
        EXTENSION_JS@ != GSCHEMA_PATH@,
        SETTINGS_JS@ != PREFS_JS@,
        SETTINGS_JS@ != GSCHEMA_PATH@,
        PREFS_JS@ != GSCHEMA_PATH@,
{
    reveal_strlit("extension.js");
    reveal_strlit("services/settings.js");
    reveal_strlit("prefs.js");
    reveal_strlit("schemas/org.gnome.shell.extensions.resource-monitor.gschema.xml");
    assert(EXTENSION_JS@.len() == 12);
    assert(SETTINGS_JS@.len() == 20);
    assert(PREFS_JS@.len() == 8);
    assert(GSCHEMA_PATH@.len() == 63);
}

/// The literal facts behind the law for the extension file: no substitution
/// text can overlap an old text it must keep out or a new text it must keep.
proof fn lemma_extension_texts_clash()
    ensures
        EXT_GET_DOUBLE@.len() > 0,
        EXT_GET_INT@.len() > 0,
        EXT_GPU_MIN_CURRENT@.len() > 0,
        EXT_GPU_MIN_LEGACY@.len() > 0,
        EXT_GPU_MIN_UPSTREAM@.len() > 0,
        EXT_REFRESH_ARG@.len() > 0,
        EXT_REFRESH_ARG_MS@.len() > 0,
        EXT_TIMEOUT_MS@.len() > 0,
        EXT_TIMEOUT_SECONDS@.len() > 0,
        clash_from(EXT_GPU_MIN_CURRENT@, EXT_GPU_MIN_LEGACY@, 0),
        clash_from(EXT_GPU_MIN_LEGACY@, EXT_GPU_MIN_CURRENT@, 1),
        clash_from(EXT_GET_DOUBLE@, EXT_GET_INT@, 0),
        clash_from(EXT_GET_INT@, EXT_GET_DOUBLE@, 1),
        clash_from(EXT_GET_DOUBLE@, EXT_GPU_MIN_LEGACY@, 0),
        clash_from(EXT_GPU_MIN_LEGACY@, EXT_GET_DOUBLE@, 1),
        clash_from(EXT_TIMEOUT_MS@, EXT_TIMEOUT_SECONDS@, 0),
        clash_from(EXT_TIMEOUT_SECONDS@, EXT_TIMEOUT_MS@, 1),
        clash_from(EXT_TIMEOUT_MS@, EXT_GPU_MIN_LEGACY@, 0),
        clash_from(EXT_GPU_MIN_LEGACY@, EXT_TIMEOUT_MS@, 1),
        clash_from(EXT_TIMEOUT_MS@, EXT_GET_INT@, 0),
        clash_from(EXT_GET_INT@, EXT_TIMEOUT_MS@, 1),
        clash_from(EXT_TIMEOUT_SECONDS@, EXT_GET_DOUBLE@, 0),
        clash_from(EXT_GET_DOUBLE@, EXT_TIMEOUT_SECONDS@, 1),
        clash_from(EXT_REFRESH_ARG_MS@, EXT_REFRESH_ARG@, 0),
        clash_from(EXT_REFRESH_ARG@, EXT_REFRESH_ARG_MS@, 1),
        clash_from(EXT_REFRESH_ARG_MS@, EXT_GPU_MIN_LEGACY@, 0),
        clash_from(EXT_GPU_MIN_LEGACY@, EXT_REFRESH_ARG_MS@, 1),
        clash_from(EXT_REFRESH_ARG_MS@, EXT_GET_INT@, 0),
        clash_from(EXT_GET_INT@, EXT_REFRESH_ARG_MS@, 1),
        clash_from(EXT_REFRESH_ARG@, EXT_GET_DOUBLE@, 0),
        clash_from(EXT_GET_DOUBLE@, EXT_REFRESH_ARG@, 1),
        clash_from(EXT_REFRESH_ARG_MS@, EXT_TIMEOUT_SECONDS@, 0),
        clash_from(EXT_TIMEOUT_SECONDS@, EXT_REFRESH_ARG_MS@, 1),
        clash_from(EXT_REFRESH_ARG@, EXT_TIMEOUT_MS@, 0),
        clash_from(EXT_TIMEOUT_MS@, EXT_REFRESH_ARG@, 1),
        clash_from(EXT_GPU_MIN_CURRENT@, EXT_GPU_MIN_UPSTREAM@, 0),
        clash_from(EXT_GPU_MIN_UPSTREAM@, EXT_GPU_MIN_CURRENT@, 1),
        clash_from(EXT_GPU_MIN_CURRENT@, EXT_GET_INT@, 0),
        clash_from(EXT_GET_INT@, EXT_GPU_MIN_CURRENT@, 1),
        clash_from(EXT_GPU_MIN_UPSTREAM@, EXT_GET_DOUBLE@, 0),
        clash_from(EXT_GET_DOUBLE@, EXT_GPU_MIN_UPSTREAM@, 1),
        clash_from(EXT_GPU_MIN_CURRENT@, EXT_TIMEOUT_SECONDS@, 0),
        clash_from(EXT_TIMEOUT_SECONDS@, EXT_GPU_MIN_CURRENT@, 1),
        clash_from(EXT_GPU_MIN_UPSTREAM@, EXT_TIMEOUT_MS@, 0),
        clash_from(EXT_TIMEOUT_MS@, EXT_GPU_MIN_UPSTREAM@, 1),
        clash_from(EXT_GPU_MIN_CURRENT@, EXT_REFRESH_ARG@, 0),
        clash_from(EXT_REFRESH_ARG@, EXT_GPU_MIN_CURRENT@, 1),
        clash_from(EXT_GPU_MIN_UPSTREAM@, EXT_REFRESH_ARG_MS@, 0),
        clash_from(EXT_REFRESH_ARG_MS@, EXT_GPU_MIN_UPSTREAM@, 1),
{
    reveal_strlit("this._settings.get_double(REFRESH_TIME)");
    reveal_strlit("this._settings.get_int(REFRESH_TIME)");
    reveal_strlit("const GPU_MIN_REFRESH_INTERVAL_SECONDS = 0.1;");
    reveal_strlit("const GPU_MIN_REFRESH_INTERVAL_SECONDS = 0.5;");
    reveal_strlit("const GPU_MIN_REFRESH_INTERVAL_SECONDS = 5;");
    reveal_strlit("        this._refreshTime,\n");
    reveal_strlit("        Math.round(this._refreshTime * 1000),\n");
    reveal_strlit("GLib.timeout_add(");
    reveal_strlit("GLib.timeout_add_seconds(");
    assert forall|d: int| 0 <= d < EXT_GPU_MIN_CURRENT@.len() implies #[trigger] clash_at(EXT_GPU_MIN_CURRENT@, EXT_GPU_MIN_LEGACY@, d) by {
        let x = EXT_GPU_MIN_CURRENT@;
        let y = EXT_GPU_MIN_LEGACY@;
        let idx = if d == 0 { 43int } else { 0int };
        assert(x[d + idx] != y[idx]);
    }
    assert forall|d: int| 1 <= d < EXT_GPU_MIN_LEGACY@.len() implies #[trigger] clash_at(EXT_GPU_MIN_LEGACY@, EXT_GPU_MIN_CURRENT@, d) by {
        let x = EXT_GPU_MIN_LEGACY@;
        let y = EXT_GPU_MIN_CURRENT@;
        let idx = { 0int };
        assert(x[d + idx] != y[idx]);
    }
    assert forall|d: int| 0 <= d < EXT_GET_DOUBLE@.len() implies #[trigger] clash_at(EXT_GET_DOUBLE@, EXT_GET_INT@, d) by {
        let x = EXT_GET_DOUBLE@;
        let y = EXT_GET_INT@;
        let idx = if d == 0 { 19int } else if x[d + 0] != y[0] { 0int } else { 1int };
        assert(x[d + idx] != y[idx]);
    }
    assert forall|d: int| 1 <= d < EXT_GET_INT@.len() implies #[trigger] clash_at(EXT_GET_INT@, EXT_GET_DOUBLE@, d) by {
        let x = EXT_GET_INT@;
        let y = EXT_GET_DOUBLE@;
        let idx = if x[d + 0] != y[0] { 0int } else { 1int };
        assert(x[d + idx] != y[idx]);
    }
    assert forall|d: int| 0 <= d < EXT_GET_DOUBLE@.len() implies #[trigger] clash_at(EXT_GET_DOUBLE@, EXT_GPU_MIN_LEGACY@, d) by {
        let x = EXT_GET_DOUBLE@;
        let y = EXT_GPU_MIN_LEGACY@;
        let idx = { 0int };
        assert(x[d + idx] != y[idx]);
    }
    assert forall|d: int| 1 <= d < EXT_GPU_MIN_LEGACY@.len() implies #[trigger] clash_at(EXT_GPU_MIN_LEGACY@, EXT_GET_DOUBLE@, d) by {
        let x = EXT_GPU_MIN_LEGACY@;
        let y = EXT_GET_DOUBLE@;
        let idx = if x[d + 0] != y[0] { 0int } else { 1int };
        assert(x[d + idx] != y[idx]);
    }
    assert forall|d: int| 0 <= d < EXT_TIMEOUT_MS@.len() implies #[trigger] clash_at(EXT_TIMEOUT_MS@, EXT_TIMEOUT_SECONDS@, d) by {
        let x = EXT_TIMEOUT_MS@;
        let y = EXT_TIMEOUT_SECONDS@;
        let idx = if d == 0 { 16int } else { 0int };
        assert(x[d + idx] != y[idx]);
    }
    assert forall|d: int| 1 <= d < EXT_TIMEOUT_SECONDS@.len() implies #[trigger] clash_at(EXT_TIMEOUT_SECONDS@, EXT_TIMEOUT_MS@, d) by {
        let x = EXT_TIMEOUT_SECONDS@;
        let y = EXT_TIMEOUT_MS@;
        let idx = { 0int };
        assert(x[d + idx] != y[idx]);
    }
    assert forall|d: int| 0 <= d < EXT_TIMEOUT_MS@.len() implies #[trigger] clash_at(EXT_TIMEOUT_MS@, EXT_GPU_MIN_LEGACY@, d) by {
        let x = EXT_TIMEOUT_MS@;
        let y = EXT_GPU_MIN_LEGACY@;
        let idx = { 0int };
        assert(x[d + idx] != y[idx]);
    }
    assert forall|d: int| 1 <= d < EXT_GPU_MIN_LEGACY@.len() implies #[trigger] clash_at(EXT_GPU_MIN_LEGACY@, EXT_TIMEOUT_MS@, d) by {
        let x = EXT_GPU_MIN_LEGACY@;
        let y = EXT_TIMEOUT_MS@;
        let idx = if x[d + 0] != y[0] { 0int } else { 1int };
        assert(x[d + idx] != y[idx]);
    }
    assert forall|d: int| 0 <= d < EXT_TIMEOUT_MS@.len() implies #[trigger] clash_at(EXT_TIMEOUT_MS@, EXT_GET_INT@, d) by {
        let x = EXT_TIMEOUT_MS@;
        let y = EXT_GET_INT@;
        let idx = if x[d + 0] != y[0] { 0int } else { 1int };
        assert(x[d + idx] != y[idx]);
    }
    assert forall|d: int| 1 <= d < EXT_GET_INT@.len() implies #[trigger] clash_at(EXT_GET_INT@, EXT_TIMEOUT_MS@, d) by {
        let x = EXT_GET_INT@;
        let y = EXT_TIMEOUT_MS@;
        let idx = { 0int };
        assert(x[d + idx] != y[idx]);
    }
    assert forall|d: int| 0 <= d < EXT_TIMEOUT_SECONDS@.len() implies #[trigger] clash_at(EXT_TIMEOUT_SECONDS@, EXT_GET_DOUBLE@, d) by {
        let x = EXT_TIMEOUT_SECONDS@;
        let y = EXT_GET_DOUBLE@;
        let idx = if x[d + 0] != y[0] { 0int } else { 1int };
        assert(x[d + idx] != y[idx]);
    }
    assert forall|d: int| 1 <= d < EXT_GET_DOUBLE@.len() implies #[trigger] clash_at(EXT_GET_DOUBLE@, EXT_TIMEOUT_SECONDS@, d) by {
        let x = EXT_GET_DOUBLE@;
        let y = EXT_TIMEOUT_SECONDS@;
        let idx = { 0int };
        assert(x[d + idx] != y[idx]);
    }
    assert forall|d: int| 0 <= d < EXT_REFRESH_ARG_MS@.len() implies #[trigger] clash_at(EXT_REFRESH_ARG_MS@, EXT_REFRESH_ARG@, d) by {
        let x = EXT_REFRESH_ARG_MS@;
        let y = EXT_REFRESH_ARG@;
        let idx = if d == 0 { 8int } else if x[d + 0] != y[0] { 0int } else if x[d + 1] != y[1] { 1int } else if x[d + 2] != y[2] { 2int } else if x[d + 3] != y[3] { 3int } else if x[d + 4] != y[4] { 4int } else if x[d + 5] != y[5] { 5int } else if x[d + 6] != y[6] { 6int } else { 7int };
        assert(x[d + idx] != y[idx]);
    }
    assert forall|d: int| 1 <= d < EXT_REFRESH_ARG@.len() implies #[trigger] clash_at(EXT_REFRESH_ARG@, EXT_REFRESH_ARG_MS@, d) by {
        let x = EXT_REFRESH_ARG@;
        let y = EXT_REFRESH_ARG_MS@;
        let idx = if x[d + 0] != y[0] { 0int } else if x[d + 1] != y[1] { 1int } else if x[d + 2] != y[2] { 2int } else if x[d + 3] != y[3] { 3int } else if x[d + 4] != y[4] { 4int } else if x[d + 5] != y[5] { 5int } else if x[d + 6] != y[6] { 6int } else { 7int };
        assert(x[d + idx] != y[idx]);
    }
    assert forall|d: int| 0 <= d < EXT_REFRESH_ARG_MS@.len() implies #[trigger] clash_at(EXT_REFRESH_ARG_MS@, EXT_GPU_MIN_LEGACY@, d) by {
        let x = EXT_REFRESH_ARG_MS@;
        let y = EXT_GPU_MIN_LEGACY@;
        let idx = { 0int };
        assert(x[d + idx] != y[idx]);
    }
    assert forall|d: int| 1 <= d < EXT_GPU_MIN_LEGACY@.len() implies #[trigger] clash_at(EXT_GPU_MIN_LEGACY@, EXT_REFRESH_ARG_MS@, d) by {
        let x = EXT_GPU_MIN_LEGACY@;
        let y = EXT_REFRESH_ARG_MS@;
        let idx = if x[d + 0] != y[0] { 0int } else { 1int };
        assert(x[d + idx] != y[idx]);
    }
    assert forall|d: int| 0 <= d < EXT_REFRESH_ARG_MS@.len() implies #[trigger] clash_at(EXT_REFRESH_ARG_MS@, EXT_GET_INT@, d) by {
        let x = EXT_REFRESH_ARG_MS@;
        let y = EXT_GET_INT@;
        let idx = if x[d + 0] != y[0] { 0int } else if x[d + 1] != y[1] { 1int } else if x[d + 2] != y[2] { 2int } else if x[d + 3] != y[3] { 3int } else if x[d + 4] != y[4] { 4int } else if x[d + 5] != y[5] { 5int } else { 6int };
        assert(x[d + idx] != y[idx]);
    }
    assert forall|d: int| 1 <= d < EXT_GET_INT@.len() implies #[trigger] clash_at(EXT_GET_INT@, EXT_REFRESH_ARG_MS@, d) by {
        let x = EXT_GET_INT@;
        let y = EXT_REFRESH_ARG_MS@;
        let idx = { 0int };
        assert(x[d + idx] != y[idx]);
    }
    assert forall|d: int| 0 <= d < EXT_REFRESH_ARG@.len() implies #[trigger] clash_at(EXT_REFRESH_ARG@, EXT_GET_DOUBLE@, d) by {
        let x = EXT_REFRESH_ARG@;
        let y = EXT_GET_DOUBLE@;
        let idx = if x[d + 0] != y[0] { 0int } else if x[d + 1] != y[1] { 1int } else if x[d + 2] != y[2] { 2int } else if x[d + 3] != y[3] { 3int } else if x[d + 4] != y[4] { 4int } else if x[d + 5] != y[5] { 5int } else { 6int };
        assert(x[d + idx] != y[idx]);
    }
    assert forall|d: int| 1 <= d < EXT_GET_DOUBLE@.len() implies #[trigger] clash_at(EXT_GET_DOUBLE@, EXT_REFRESH_ARG@, d) by {
        let x = EXT_GET_DOUBLE@;
        let y = EXT_REFRESH_ARG@;
        let idx = { 0int };
        assert(x[d + idx] != y[idx]);
    }
    assert forall|d: int| 0 <= d < EXT_REFRESH_ARG_MS@.len() implies #[trigger] clash_at(EXT_REFRESH_ARG_MS@, EXT_TIMEOUT_SECONDS@, d) by {
        let x = EXT_REFRESH_ARG_MS@;
        let y = EXT_TIMEOUT_SECONDS@;
        let idx = { 0int };
        assert(x[d + idx] != y[idx]);
    }
    assert forall|d: int| 1 <= d < EXT_TIMEOUT_SECONDS@.len() implies #[trigger] clash_at(EXT_TIMEOUT_SECONDS@, EXT_REFRESH_ARG_MS@, d) by {
        let x = EXT_TIMEOUT_SECONDS@;
        let y = EXT_REFRESH_ARG_MS@;
        let idx = { 0int };
        assert(x[d + idx] != y[idx]);
    }
    assert forall|d: int| 0 <= d < EXT_REFRESH_ARG@.len() implies #[trigger] clash_at(EXT_REFRESH_ARG@, EXT_TIMEOUT_MS@, d) by {
        let x = EXT_REFRESH_ARG@;
        let y = EXT_TIMEOUT_MS@;
        let idx = { 0int };
        assert(x[d + idx] != y[idx]);
    }
    assert forall|d: int| 1 <= d < EXT_TIMEOUT_MS@.len() implies #[trigger] clash_at(EXT_TIMEOUT_MS@, EXT_REFRESH_ARG@, d) by {
        let x = EXT_TIMEOUT_MS@;
        let y = EXT_REFRESH_ARG@;
        let idx = { 0int };
        assert(x[d + idx] != y[idx]);
    }
    assert forall|d: int| 0 <= d < EXT_GPU_MIN_CURRENT@.len() implies #[trigger] clash_at(EXT_GPU_MIN_CURRENT@, EXT_GPU_MIN_UPSTREAM@, d) by {
        let x = EXT_GPU_MIN_CURRENT@;
        let y = EXT_GPU_MIN_UPSTREAM@;
        let idx = if d == 0 { 41int } else { 0int };
        assert(x[d + idx] != y[idx]);
    }
    assert forall|d: int| 1 <= d < EXT_GPU_MIN_UPSTREAM@.len() implies #[trigger] clash_at(EXT_GPU_MIN_UPSTREAM@, EXT_GPU_MIN_CURRENT@, d) by {
        let x = EXT_GPU_MIN_UPSTREAM@;
        let y = EXT_GPU_MIN_CURRENT@;
        let idx = { 0int };
        assert(x[d + idx] != y[idx]);
    }
    assert forall|d: int| 0 <= d < EXT_GPU_MIN_CURRENT@.len() implies #[trigger] clash_at(EXT_GPU_MIN_CURRENT@, EXT_GET_INT@, d) by {
        let x = EXT_GPU_MIN_CURRENT@;
        let y = EXT_GET_INT@;
        let idx = if x[d + 0] != y[0] { 0int } else { 1int };
        assert(x[d + idx] != y[idx]);
    }
    assert forall|d: int| 1 <= d < EXT_GET_INT@.len() implies #[trigger] clash_at(EXT_GET_INT@, EXT_GPU_MIN_CURRENT@, d) by {
        let x = EXT_GET_INT@;
        let y = EXT_GPU_MIN_CURRENT@;
        let idx = { 0int };
        assert(x[d + idx] != y[idx]);
    }
    assert forall|d: int| 0 <= d < EXT_GPU_MIN_UPSTREAM@.len() implies #[trigger] clash_at(EXT_GPU_MIN_UPSTREAM@, EXT_GET_DOUBLE@, d) by {
        let x = EXT_GPU_MIN_UPSTREAM@;
        let y = EXT_GET_DOUBLE@;
        let idx = if x[d + 0] != y[0] { 0int } else { 1int };
        assert(x[d + idx] != y[idx]);
    }
    assert forall|d: int| 1 <= d < EXT_GET_DOUBLE@.len() implies #[trigger] clash_at(EXT_GET_DOUBLE@, EXT_GPU_MIN_UPSTREAM@, d) by {
        let x = EXT_GET_DOUBLE@;
        let y = EXT_GPU_MIN_UPSTREAM@;
        let idx = { 0int };
        assert(x[d + idx] != y[idx]);
    }
    assert forall|d: int| 0 <= d < EXT_GPU_MIN_CURRENT@.len() implies #[trigger] clash_at(EXT_GPU_MIN_CURRENT@, EXT_TIMEOUT_SECONDS@, d) by {
        let x = EXT_GPU_MIN_CURRENT@;
        let y = EXT_TIMEOUT_SECONDS@;
        let idx = if x[d + 0] != y[0] { 0int } else { 1int };
        assert(x[d + idx] != y[idx]);
    }
    assert forall|d: int| 1 <= d < EXT_TIMEOUT_SECONDS@.len() implies #[trigger] clash_at(EXT_TIMEOUT_SECONDS@, EXT_GPU_MIN_CURRENT@, d) by {
        let x = EXT_TIMEOUT_SECONDS@;
        let y = EXT_GPU_MIN_CURRENT@;
        let idx = if x[d + 0] != y[0] { 0int } else if x[d + 1] != y[1] { 1int } else if x[d + 2] != y[2] { 2int } else { 3int };
        assert(x[d + idx] != y[idx]);
    }
    assert forall|d: int| 0 <= d < EXT_GPU_MIN_UPSTREAM@.len() implies #[trigger] clash_at(EXT_GPU_MIN_UPSTREAM@, EXT_TIMEOUT_MS@, d) by {
        let x = EXT_GPU_MIN_UPSTREAM@;
        let y = EXT_TIMEOUT_MS@;
        let idx = if x[d + 0] != y[0] { 0int } else { 1int };
        assert(x[d + idx] != y[idx]);
    }
    assert forall|d: int| 1 <= d < EXT_TIMEOUT_MS@.len() implies #[trigger] clash_at(EXT_TIMEOUT_MS@, EXT_GPU_MIN_UPSTREAM@, d) by {
        let x = EXT_TIMEOUT_MS@;
        let y = EXT_GPU_MIN_UPSTREAM@;
        let idx = { 0int };
        assert(x[d + idx] != y[idx]);
    }
    assert forall|d: int| 0 <= d < EXT_GPU_MIN_CURRENT@.len() implies #[trigger] clash_at(EXT_GPU_MIN_CURRENT@, EXT_REFRESH_ARG@, d) by {
        let x = EXT_GPU_MIN_CURRENT@;
        let y = EXT_REFRESH_ARG@;
        let idx = if x[d + 0] != y[0] { 0int } else { 1int };
        assert(x[d + idx] != y[idx]);
    }
    assert forall|d: int| 1 <= d < EXT_REFRESH_ARG@.len() implies #[trigger] clash_at(EXT_REFRESH_ARG@, EXT_GPU_MIN_CURRENT@, d) by {
        let x = EXT_REFRESH_ARG@;
        let y = EXT_GPU_MIN_CURRENT@;
        let idx = { 0int };
        assert(x[d + idx] != y[idx]);
    }
    assert forall|d: int| 0 <= d < EXT_GPU_MIN_UPSTREAM@.len() implies #[trigger] clash_at(EXT_GPU_MIN_UPSTREAM@, EXT_REFRESH_ARG_MS@, d) by {
        let x = EXT_GPU_MIN_UPSTREAM@;
        let y = EXT_REFRESH_ARG_MS@;
        let idx = if x[d + 0] != y[0] { 0int } else { 1int };
        assert(x[d + idx] != y[idx]);
    }
    assert forall|d: int| 1 <= d < EXT_REFRESH_ARG_MS@.len() implies #[trigger] clash_at(EXT_REFRESH_ARG_MS@, EXT_GPU_MIN_UPSTREAM@, d) by {
        let x = EXT_REFRESH_ARG_MS@;
        let y = EXT_GPU_MIN_UPSTREAM@;
        let idx = { 0int };
        assert(x[d + idx] != y[idx]);
    }
}

/// Transforming the extension file twice is transforming it once.
proof fn lemma_extension_transform_idempotent(content: Seq<char>)
    requires
        refresh_transform(EXTENSION_JS@, content) is Some,
    ensures
        refresh_transform(EXTENSION_JS@, refresh_transform(EXTENSION_JS@, content)->0) == refresh_transform(EXTENSION_JS@, content),
{
    lemma_extension_texts_clash();
    lemma_paths_distinct();
    let lr = legacy_rules(EXTENSION_JS@);
    let cr = canonical_rules(EXTENSION_JS@);
    assert(lr.take(0) =~= Seq::<(Seq<char>, Seq<char>)>::empty());
    assert(apply_legacy(content, lr.take(0)) == content);
    assert(lr.take(1).drop_last() =~= lr.take(0));
    assert(lr.take(1).last() == (EXT_GPU_MIN_LEGACY@, EXT_GPU_MIN_CURRENT@));
    let g1 = Seq::<Seq<char>>::empty();
    let k1 = Seq::<Seq<char>>::empty();
    lemma_canonical_step(content, EXT_GPU_MIN_LEGACY@, EXT_GPU_MIN_CURRENT@, g1, k1);
    let l1 = step_text(content, EXT_GPU_MIN_LEGACY@, EXT_GPU_MIN_CURRENT@);
    assert(apply_legacy(content, lr.take(1)) == l1);
    assert(lr.take(1) =~= lr);
    let l = l1;
    assert(apply_legacy(content, lr) == l);
    assert(cr.take(1).drop_last() =~= cr.take(0));
    assert(cr.take(1).last() == (EXT_GET_INT@, EXT_GET_DOUBLE@));
    assert(cr.take(0) =~= Seq::<(Seq<char>, Seq<char>)>::empty());
    assert(apply_canonical(l, cr.take(0)) == Some(l));
    if apply_canonical(l, cr.take(1)) is None {
        lemma_apply_canonical_none_stays(l, cr, 1);
    }
    let g2 = seq![EXT_GPU_MIN_LEGACY@];
    let k2 = Seq::<Seq<char>>::empty();
    assert forall|j: int| 0 <= j < g2.len() implies !contains(l, #[trigger] g2[j]) by {
        if j == 0 { assert(g2[j] == EXT_GPU_MIN_LEGACY@); }
    }
    assert forall|j: int| 0 <= j < g2.len() implies clash_from(EXT_GET_DOUBLE@, #[trigger] g2[j], 0) && clash_from(g2[j], EXT_GET_DOUBLE@, 1) by {
        if j == 0 { assert(g2[j] == EXT_GPU_MIN_LEGACY@); }
    }
    lemma_canonical_step(l, EXT_GET_INT@, EXT_GET_DOUBLE@, g2, k2);
    assert(!contains(step_text(l, EXT_GET_INT@, EXT_GET_DOUBLE@), g2[0]));
    let c1 = step_text(l, EXT_GET_INT@, EXT_GET_DOUBLE@);
    assert(apply_canonical(l, cr.take(1)) == Some(c1));
    assert(cr.take(2).drop_last() =~= cr.take(1));
    assert(cr.take(2).last() == (EXT_TIMEOUT_SECONDS@, EXT_TIMEOUT_MS@));
    if apply_canonical(l, cr.take(2)) is None {
        lemma_apply_canonical_none_stays(l, cr, 2);
    }
    let g3 = seq![EXT_GPU_MIN_LEGACY@, EXT_GET_INT@];
    let k3 = seq![EXT_GET_DOUBLE@];
    assert forall|j: int| 0 <= j < g3.len() implies !contains(c1, #[trigger] g3[j]) by {
        if j == 0 { assert(g3[j] == EXT_GPU_MIN_LEGACY@); }
        if j == 1 { assert(g3[j] == EXT_GET_INT@); }
    }
    assert forall|j: int| 0 <= j < g3.len() implies clash_from(EXT_TIMEOUT_MS@, #[trigger] g3[j], 0) && clash_from(g3[j], EXT_TIMEOUT_MS@, 1) by {
        if j == 0 { assert(g3[j] == EXT_GPU_MIN_LEGACY@); }
        if j == 1 { assert(g3[j] == EXT_GET_INT@); }
    }
    assert forall|j: int| 0 <= j < k3.len() implies contains(c1, #[trigger] k3[j]) by {
        if j == 0 { assert(k3[j] == EXT_GET_DOUBLE@); }
    }
    assert forall|j: int| 0 <= j < k3.len() implies clash_from(EXT_TIMEOUT_SECONDS@, #[trigger] k3[j], 0) && clash_from(k3[j], EXT_TIMEOUT_SECONDS@, 1) by {
        if j == 0 { assert(k3[j] == EXT_GET_DOUBLE@); }
    }
    lemma_canonical_step(c1, EXT_TIMEOUT_SECONDS@, EXT_TIMEOUT_MS@, g3, k3);
    assert(!contains(step_text(c1, EXT_TIMEOUT_SECONDS@, EXT_TIMEOUT_MS@), g3[0]));
    assert(!contains(step_text(c1, EXT_TIMEOUT_SECONDS@, EXT_TIMEOUT_MS@), g3[1]));
    assert(contains(step_text(c1, EXT_TIMEOUT_SECONDS@, EXT_TIMEOUT_MS@), k3[0]));
    let c2 = step_text(c1, EXT_TIMEOUT_SECONDS@, EXT_TIMEOUT_MS@);
    assert(apply_canonical(l, cr.take(2)) == Some(c2));
    assert(cr.take(3).drop_last() =~= cr.take(2));
    assert(cr.take(3).last() == (EXT_REFRESH_ARG@, EXT_REFRESH_ARG_MS@));
    if apply_canonical(l, cr.take(3)) is None {
        lemma_apply_canonical_none_stays(l, cr, 3);
    }
    let g4 = seq![EXT_GPU_MIN_LEGACY@, EXT_GET_INT@, EXT_TIMEOUT_SECONDS@];
    let k4 = seq![EXT_GET_DOUBLE@, EXT_TIMEOUT_MS@];
    assert forall|j: int| 0 <= j < g4.len() implies !contains(c2, #[trigger] g4[j]) by {
        if j == 0 { assert(g4[j] == EXT_GPU_MIN_LEGACY@); }
        if j == 1 { assert(g4[j] == EXT_GET_INT@); }
        if j == 2 { assert(g4[j] == EXT_TIMEOUT_SECONDS@); }
    }
    assert forall|j: int| 0 <= j < g4.len() implies clash_from(EXT_REFRESH_ARG_MS@, #[trigger] g4[j], 0) && clash_from(g4[j], EXT_REFRESH_ARG_MS@, 1) by {
        if j == 0 { assert(g4[j] == EXT_GPU_MIN_LEGACY@); }
        if j == 1 { assert(g4[j] == EXT_GET_INT@); }
        if j == 2 { assert(g4[j] == EXT_TIMEOUT_SECONDS@); }
    }
    assert forall|j: int| 0 <= j < k4.len() implies contains(c2, #[trigger] k4[j]) by {
        if j == 0 { assert(k4[j] == EXT_GET_DOUBLE@); }
        if j == 1 { assert(k4[j] == EXT_TIMEOUT_MS@); }
    }
    assert forall|j: int| 0 <= j < k4.len() implies clash_from(EXT_REFRESH_ARG@, #[trigger] k4[j], 0) && clash_from(k4[j], EXT_REFRESH_ARG@, 1) by {
        if j == 0 { assert(k4[j] == EXT_GET_DOUBLE@); }
        if j == 1 { assert(k4[j] == EXT_TIMEOUT_MS@); }
    }
    lemma_canonical_step(c2, EXT_REFRESH_ARG@, EXT_REFRESH_ARG_MS@, g4, k4);
    assert(!contains(step_text(c2, EXT_REFRESH_ARG@, EXT_REFRESH_ARG_MS@), g4[0]));
    assert(!contains(step_text(c2, EXT_REFRESH_ARG@, EXT_REFRESH_ARG_MS@), g4[1]));
    assert(!contains(step_text(c2, EXT_REFRESH_ARG@, EXT_REFRESH_ARG_MS@), g4[2]));
    assert(contains(step_text(c2, EXT_REFRESH_ARG@, EXT_REFRESH_ARG_MS@), k4[0]));
    assert(contains(step_text(c2, EXT_REFRESH_ARG@, EXT_REFRESH_ARG_MS@), k4[1]));
    let c3 = step_text(c2, EXT_REFRESH_ARG@, EXT_REFRESH_ARG_MS@);
    assert(apply_canonical(l, cr.take(3)) == Some(c3));
    assert(cr.take(4).drop_last() =~= cr.take(3));
    assert(cr.take(4).last() == (EXT_GPU_MIN_UPSTREAM@, EXT_GPU_MIN_CURRENT@));
    if apply_canonical(l, cr.take(4)) is None {
        lemma_apply_canonical_none_stays(l, cr, 4);
    }
    let g5 = seq![EXT_GPU_MIN_LEGACY@, EXT_GET_INT@, EXT_TIMEOUT_SECONDS@, EXT_REFRESH_ARG@];
    let k5 = seq![EXT_GET_DOUBLE@, EXT_TIMEOUT_MS@, EXT_REFRESH_ARG_MS@];
    assert forall|j: int| 0 <= j < g5.len() implies !contains(c3, #[trigger] g5[j]) by {
        if j == 0 { assert(g5[j] == EXT_GPU_MIN_LEGACY@); }
        if j == 1 { assert(g5[j] == EXT_GET_INT@); }
        if j == 2 { assert(g5[j] == EXT_TIMEOUT_SECONDS@); }
        if j == 3 { assert(g5[j] == EXT_REFRESH_ARG@); }
    }
    assert forall|j: int| 0 <= j < g5.len() implies clash_from(EXT_GPU_MIN_CURRENT@, #[trigger] g5[j], 0) && clash_from(g5[j], EXT_GPU_MIN_CURRENT@, 1) by {
        if j == 0 { assert(g5[j] == EXT_GPU_MIN_LEGACY@); }
        if j == 1 { assert(g5[j] == EXT_GET_INT@); }
        if j == 2 { assert(g5[j] == EXT_TIMEOUT_SECONDS@); }
        if j == 3 { assert(g5[j] == EXT_REFRESH_ARG@); }
    }
    assert forall|j: int| 0 <= j < k5.len() implies contains(c3, #[trigger] k5[j]) by {
        if j == 0 { assert(k5[j] == EXT_GET_DOUBLE@); }
        if j == 1 { assert(k5[j] == EXT_TIMEOUT_MS@); }
        if j == 2 { assert(k5[j] == EXT_REFRESH_ARG_MS@); }
    }
    assert forall|j: int| 0 <= j < k5.len() implies clash_from(EXT_GPU_MIN_UPSTREAM@, #[trigger] k5[j], 0) && clash_from(k5[j], EXT_GPU_MIN_UPSTREAM@, 1) by {
        if j == 0 { assert(k5[j] == EXT_GET_DOUBLE@); }
        if j == 1 { assert(k5[j] == EXT_TIMEOUT_MS@); }
        if j == 2 { assert(k5[j] == EXT_REFRESH_ARG_MS@); }
    }
    lemma_canonical_step(c3, EXT_GPU_MIN_UPSTREAM@, EXT_GPU_MIN_CURRENT@, g5, k5);
    assert(!contains(step_text(c3, EXT_GPU_MIN_UPSTREAM@, EXT_GPU_MIN_CURRENT@), g5[0]));
    assert(!contains(step_text(c3, EXT_GPU_MIN_UPSTREAM@, EXT_GPU_MIN_CURRENT@), g5[1]));
    assert(!contains(step_text(c3, EXT_GPU_MIN_UPSTREAM@, EXT_GPU_MIN_CURRENT@), g5[2]));
    assert(!contains(step_text(c3, EXT_GPU_MIN_UPSTREAM@, EXT_GPU_MIN_CURRENT@), g5[3]));
    assert(contains(step_text(c3, EXT_GPU_MIN_UPSTREAM@, EXT_GPU_MIN_CURRENT@), k5[0]));
    assert(contains(step_text(c3, EXT_GPU_MIN_UPSTREAM@, EXT_GPU_MIN_CURRENT@), k5[1]));
    assert(contains(step_text(c3, EXT_GPU_MIN_UPSTREAM@, EXT_GPU_MIN_CURRENT@), k5[2]));
    let c4 = step_text(c3, EXT_GPU_MIN_UPSTREAM@, EXT_GPU_MIN_CURRENT@);
    assert(apply_canonical(l, cr.take(4)) == Some(c4));
    assert(cr.take(4) =~= cr);
    let t = c4;
    assert forall|i: int| 0 <= i < lr.len() implies !contains(t, #[trigger] lr[i].0) by {
        if i == 0 { assert(lr[i].0 == EXT_GPU_MIN_LEGACY@); }
    }
    assert forall|i: int| 0 <= i < cr.len() implies !contains(t, #[trigger] cr[i].0) && contains(t, cr[i].1) by {
        if i == 0 { assert(cr[i] == (EXT_GET_INT@, EXT_GET_DOUBLE@)); }
        if i == 1 { assert(cr[i] == (EXT_TIMEOUT_SECONDS@, EXT_TIMEOUT_MS@)); }
        if i == 2 { assert(cr[i] == (EXT_REFRESH_ARG@, EXT_REFRESH_ARG_MS@)); }
        if i == 3 { assert(cr[i] == (EXT_GPU_MIN_UPSTREAM@, EXT_GPU_MIN_CURRENT@)); }
    }
    lemma_settled_file_is_fixed(EXTENSION_JS@, t);
}

/// The literal facts behind the law for the settings file: no substitution
/// text can overlap an old text it must keep out or a new text it must keep.
proof fn lemma_settings_texts_clash()
    ensures
        SETTINGS_GET_DOUBLE@.len() > 0,
        SETTINGS_GET_INT@.len() > 0,
        clash_from(SETTINGS_GET_DOUBLE@, SETTINGS_GET_INT@, 0),
        clash_from(SETTINGS_GET_INT@, SETTINGS_GET_DOUBLE@, 1),
{
    reveal_strlit("indicator._settings.get_double(keys.REFRESH_TIME)");
    reveal_strlit("indicator._settings.get_int(keys.REFRESH_TIME)");
    assert forall|d: int| 0 <= d < SETTINGS_GET_DOUBLE@.len() implies #[trigger] clash_at(SETTINGS_GET_DOUBLE@, SETTINGS_GET_INT@, d) by {
        let x = SETTINGS_GET_DOUBLE@;
        let y = SETTINGS_GET_INT@;
        let idx = if d == 0 { 24int } else if x[d + 0] != y[0] { 0int } else if x[d + 1] != y[1] { 1int } else { 2int };
        assert(x[d + idx] != y[idx]);
    }
    assert forall|d: int| 1 <= d < SETTINGS_GET_INT@.len() implies #[trigger] clash_at(SETTINGS_GET_INT@, SETTINGS_GET_DOUBLE@, d) by {
        let x = SETTINGS_GET_INT@;
        let y = SETTINGS_GET_DOUBLE@;
        let idx = if x[d + 0] != y[0] { 0int } else if x[d + 1] != y[1] { 1int } else { 2int };
        assert(x[d + idx] != y[idx]);
    }
}

/// Transforming the settings file twice is transforming it once.
proof fn lemma_settings_transform_idempotent(content: Seq<char>)
    requires
        refresh_transform(SETTINGS_JS@, content) is Some,
    ensures
        refresh_transform(SETTINGS_JS@, refresh_transform(SETTINGS_JS@, content)->0) == refresh_transform(SETTINGS_JS@, content),
{
    lemma_settings_texts_clash();
    lemma_paths_distinct();
    let lr = legacy_rules(SETTINGS_JS@);
    let cr = canonical_rules(SETTINGS_JS@);
    assert(lr =~= Seq::<(Seq<char>, Seq<char>)>::empty());
    let l1 = content;
    assert(lr.take(0) =~= lr);
    let l = content;
    assert(apply_legacy(content, lr) == l);
    assert(cr.take(1).drop_last() =~= cr.take(0));
    assert(cr.take(1).last() == (SETTINGS_GET_INT@, SETTINGS_GET_DOUBLE@));
    assert(cr.take(0) =~= Seq::<(Seq<char>, Seq<char>)>::empty());
    assert(apply_canonical(l, cr.take(0)) == Some(l));
    if apply_canonical(l, cr.take(1)) is None {
        lemma_apply_canonical_none_stays(l, cr, 1);
    }
    let g6 = Seq::<Seq<char>>::empty();
    let k6 = Seq::<Seq<char>>::empty();
    lemma_canonical_step(l, SETTINGS_GET_INT@, SETTINGS_GET_DOUBLE@, g6, k6);
    let c1 = step_text(l, SETTINGS_GET_INT@, SETTINGS_GET_DOUBLE@);
    assert(apply_canonical(l, cr.take(1)) == Some(c1));
    assert(cr.take(1) =~= cr);
    let t = c1;
    assert forall|i: int| 0 <= i < lr.len() implies !contains(t, #[trigger] lr[i].0) by {
    }
    assert forall|i: int| 0 <= i < cr.len() implies !contains(t, #[trigger] cr[i].0) && contains(t, cr[i].1) by {
        if i == 0 { assert(cr[i] == (SETTINGS_GET_INT@, SETTINGS_GET_DOUBLE@)); }
    }
    lemma_settled_file_is_fixed(SETTINGS_JS@, t);
}

/// The literal facts behind the law for the prefs file: no substitution
/// text can overlap an old text it must keep out or a new text it must keep.
proof fn lemma_prefs_texts_clash()
    ensures
        PREFS_LOWER_CURRENT@.len() > 0,
        PREFS_LOWER_LEGACY@.len() > 0,
        PREFS_SPIN_CURRENT@.len() > 0,
        PREFS_SPIN_UPSTREAM@.len() > 0,
        PREFS_STEP_CURRENT@.len() > 0,
        PREFS_STEP_LEGACY@.len() > 0,
        clash_from(PREFS_LOWER_CURRENT@, PREFS_LOWER_LEGACY@, 0),
        clash_from(PREFS_LOWER_LEGACY@, PREFS_LOWER_CURRENT@, 1),
        clash_from(PREFS_STEP_CURRENT@, PREFS_STEP_LEGACY@, 0),
        clash_from(PREFS_STEP_LEGACY@, PREFS_STEP_CURRENT@, 1),
        clash_from(PREFS_STEP_CURRENT@, PREFS_LOWER_LEGACY@, 0),
        clash_from(PREFS_LOWER_LEGACY@, PREFS_STEP_CURRENT@, 1),
        clash_from(PREFS_SPIN_CURRENT@, PREFS_SPIN_UPSTREAM@, 0),
        clash_from(PREFS_SPIN_UPSTREAM@, PREFS_SPIN_CURRENT@, 1),
        clash_from(PREFS_SPIN_CURRENT@, PREFS_LOWER_LEGACY@, 0),
        clash_from(PREFS_LOWER_LEGACY@, PREFS_SPIN_CURRENT@, 1),
        clash_from(PREFS_SPIN_CURRENT@, PREFS_STEP_LEGACY@, 0),
        clash_from(PREFS_STEP_LEGACY@, PREFS_SPIN_CURRENT@, 1),
{
    reveal_strlit("        lower: 0.1,");
    reveal_strlit("        lower: 0.5,");
    reveal_strlit("this._secondsSpinbutton = this._createSpinButton({\n        lower: 0.1,\n        upper: 60,\n        step: 0.1,\n        page: 1,\n        digits: 1,\n      });");
    reveal_strlit("this._secondsSpinbutton = this._createSpinButton({\n        upper: 60,\n        step: 1,\n        page: 1,\n      });");
    reveal_strlit("        step: 0.1,");
    reveal_strlit("        step: 0.5,");
    assert forall|d: int| 0 <= d < PREFS_LOWER_CURRENT@.len() implies #[trigger] clash_at(PREFS_LOWER_CURRENT@, PREFS_LOWER_LEGACY@, d) by {
        let x = PREFS_LOWER_CURRENT@;
        let y = PREFS_LOWER_LEGACY@;
        let idx = if d == 0 { 17int } else if x[d + 0] != y[0] { 0int } else if x[d + 1] != y[1] { 1int } else if x[d + 2] != y[2] { 2int } else if x[d + 3] != y[3] { 3int } else if x[d + 4] != y[4] { 4int } else if x[d + 5] != y[5] { 5int } else if x[d + 6] != y[6] { 6int } else { 7int };
        assert(x[d + idx] != y[idx]);
    }
    assert forall|d: int| 1 <= d < PREFS_LOWER_LEGACY@.len() implies #[trigger] clash_at(PREFS_LOWER_LEGACY@, PREFS_LOWER_CURRENT@, d) by {
        let x = PREFS_LOWER_LEGACY@;
        let y = PREFS_LOWER_CURRENT@;
        let idx = if x[d + 0] != y[0] { 0int } else if x[d + 1] != y[1] { 1int } else if x[d + 2] != y[2] { 2int } else if x[d + 3] != y[3] { 3int } else if x[d + 4] != y[4] { 4int } else if x[d + 5] != y[5] { 5int } else if x[d + 6] != y[6] { 6int } else { 7int };
        assert(x[d + idx] != y[idx]);
    }
    assert forall|d: int| 0 <= d < PREFS_STEP_CURRENT@.len() implies #[trigger] clash_at(PREFS_STEP_CURRENT@, PREFS_STEP_LEGACY@, d) by {
        let x = PREFS_STEP_CURRENT@;
        let y = PREFS_STEP_LEGACY@;
        let idx = if d == 0 { 16int } else if x[d + 0] != y[0] { 0int } else if x[d + 1] != y[1] { 1int } else if x[d + 2] != y[2] { 2int } else if x[d + 3] != y[3] { 3int } else if x[d + 4] != y[4] { 4int } else if x[d + 5] != y[5] { 5int } else if x[d + 6] != y[6] { 6int } else { 7int };
        assert(x[d + idx] != y[idx]);
    }
    assert forall|d: int| 1 <= d < PREFS_STEP_LEGACY@.len() implies #[trigger] clash_at(PREFS_STEP_LEGACY@, PREFS_STEP_CURRENT@, d) by {
        let x = PREFS_STEP_LEGACY@;
        let y = PREFS_STEP_CURRENT@;
        let idx = if x[d + 0] != y[0] { 0int } else if x[d + 1] != y[1] { 1int } else if x[d + 2] != y[2] { 2int } else if x[d + 3] != y[3] { 3int } else if x[d + 4] != y[4] { 4int } else if x[d + 5] != y[5] { 5int } else if x[d + 6] != y[6] { 6int } else { 7int };
        assert(x[d + idx] != y[idx]);
    }
    assert forall|d: int| 0 <= d < PREFS_STEP_CURRENT@.len() implies #[trigger] clash_at(PREFS_STEP_CURRENT@, PREFS_LOWER_LEGACY@, d) by {
        let x = PREFS_STEP_CURRENT@;
        let y = PREFS_LOWER_LEGACY@;
        let idx = if d == 0 { 8int } else if x[d + 0] != y[0] { 0int } else if x[d + 1] != y[1] { 1int } else if x[d + 2] != y[2] { 2int } else if x[d + 3] != y[3] { 3int } else if x[d + 4] != y[4] { 4int } else if x[d + 5] != y[5] { 5int } else if x[d + 6] != y[6] { 6int } else { 7int };
        assert(x[d + idx] != y[idx]);
    }
    assert forall|d: int| 1 <= d < PREFS_LOWER_LEGACY@.len() implies #[trigger] clash_at(PREFS_LOWER_LEGACY@, PREFS_STEP_CURRENT@, d) by {
        let x = PREFS_LOWER_LEGACY@;
        let y = PREFS_STEP_CURRENT@;
        let idx = if x[d + 0] != y[0] { 0int } else if x[d + 1] != y[1] { 1int } else if x[d + 2] != y[2] { 2int } else if x[d + 3] != y[3] { 3int } else if x[d + 4] != y[4] { 4int } else if x[d + 5] != y[5] { 5int } else if x[d + 6] != y[6] { 6int } else { 7int };
        assert(x[d + idx] != y[idx]);
    }
    assert forall|d: int| 0 <= d < PREFS_SPIN_CURRENT@.len() implies #[trigger] clash_at(PREFS_SPIN_CURRENT@, PREFS_SPIN_UPSTREAM@, d) by {
        let x = PREFS_SPIN_CURRENT@;
        let y = PREFS_SPIN_UPSTREAM@;
        let idx = if d == 0 { 59int } else if x[d + 0] != y[0] { 0int } else if x[d + 1] != y[1] { 1int } else if x[d + 2] != y[2] { 2int } else if x[d + 3] != y[3] { 3int } else if x[d + 4] != y[4] { 4int } else if x[d + 5] != y[5] { 5int } else { 6int };
        assert(x[d + idx] != y[idx]);
    }
    assert forall|d: int| 1 <= d < PREFS_SPIN_UPSTREAM@.len() implies #[trigger] clash_at(PREFS_SPIN_UPSTREAM@, PREFS_SPIN_CURRENT@, d) by {
        let x = PREFS_SPIN_UPSTREAM@;
        let y = PREFS_SPIN_CURRENT@;
        let idx = if x[d + 0] != y[0] { 0int } else if x[d + 1] != y[1] { 1int } else if x[d + 2] != y[2] { 2int } else if x[d + 3] != y[3] { 3int } else if x[d + 4] != y[4] { 4int } else if x[d + 5] != y[5] { 5int } else { 6int };
        assert(x[d + idx] != y[idx]);
    }
    assert forall|d: int| 0 <= d < PREFS_SPIN_CURRENT@.len() implies #[trigger] clash_at(PREFS_SPIN_CURRENT@, PREFS_LOWER_LEGACY@, d) by {
        let x = PREFS_SPIN_CURRENT@;
        let y = PREFS_LOWER_LEGACY@;
        let idx = if d == 51 { 17int } else if d == 71 { 8int } else if d == 90 { 8int } else if d == 109 { 8int } else if d == 126 { 8int } else if x[d + 0] != y[0] { 0int } else if x[d + 1] != y[1] { 1int } else if x[d + 2] != y[2] { 2int } else if x[d + 3] != y[3] { 3int } else if x[d + 4] != y[4] { 4int } else if x[d + 5] != y[5] { 5int } else if x[d + 6] != y[6] { 6int } else { 7int };
        assert(x[d + idx] != y[idx]);
    }
    assert forall|d: int| 1 <= d < PREFS_LOWER_LEGACY@.len() implies #[trigger] clash_at(PREFS_LOWER_LEGACY@, PREFS_SPIN_CURRENT@, d) by {
        let x = PREFS_LOWER_LEGACY@;
        let y = PREFS_SPIN_CURRENT@;
        let idx = { 0int };
        assert(x[d + idx] != y[idx]);
    }
    assert forall|d: int| 0 <= d < PREFS_SPIN_CURRENT@.len() implies #[trigger] clash_at(PREFS_SPIN_CURRENT@, PREFS_STEP_LEGACY@, d) by {
        let x = PREFS_SPIN_CURRENT@;
        let y = PREFS_STEP_LEGACY@;
        let idx = if d == 51 { 8int } else if d == 71 { 8int } else if d == 90 { 16int } else if d == 109 { 8int } else if d == 126 { 8int } else if x[d + 0] != y[0] { 0int } else if x[d + 1] != y[1] { 1int } else if x[d + 2] != y[2] { 2int } else if x[d + 3] != y[3] { 3int } else if x[d + 4] != y[4] { 4int } else if x[d + 5] != y[5] { 5int } else if x[d + 6] != y[6] { 6int } else { 7int };
        assert(x[d + idx] != y[idx]);
    }
    assert forall|d: int| 1 <= d < PREFS_STEP_LEGACY@.len() implies #[trigger] clash_at(PREFS_STEP_LEGACY@, PREFS_SPIN_CURRENT@, d) by {
        let x = PREFS_STEP_LEGACY@;
        let y = PREFS_SPIN_CURRENT@;
        let idx = if x[d + 0] != y[0] { 0int } else { 1int };
        assert(x[d + idx] != y[idx]);
    }
}

/// Transforming the prefs file twice is transforming it once.
proof fn lemma_prefs_transform_idempotent(content: Seq<char>)
    requires
        refresh_transform(PREFS_JS@, content) is Some,
    ensures
        refresh_transform(PREFS_JS@, refresh_transform(PREFS_JS@, content)->0) == refresh_transform(PREFS_JS@, content),
{
    lemma_prefs_texts_clash();
    lemma_paths_distinct();
    let lr = legacy_rules(PREFS_JS@);
    let cr = canonical_rules(PREFS_JS@);
    assert(lr.take(0) =~= Seq::<(Seq<char>, Seq<char>)>::empty());
    assert(apply_legacy(content, lr.take(0)) == content);
    assert(lr.take(1).drop_last() =~= lr.take(0));
    assert(lr.take(1).last() == (PREFS_LOWER_LEGACY@, PREFS_LOWER_CURRENT@));
    let g7 = Seq::<Seq<char>>::empty();
    let k7 = Seq::<Seq<char>>::empty();
    lemma_canonical_step(content, PREFS_LOWER_LEGACY@, PREFS_LOWER_CURRENT@, g7, k7);
    let l1 = step_text(content, PREFS_LOWER_LEGACY@, PREFS_LOWER_CURRENT@);
    assert(apply_legacy(content, lr.take(1)) == l1);
    assert(lr.take(2).drop_last() =~= lr.take(1));
    assert(lr.take(2).last() == (PREFS_STEP_LEGACY@, PREFS_STEP_CURRENT@));
    let g8 = seq![PREFS_LOWER_LEGACY@];
    let k8 = Seq::<Seq<char>>::empty();
    assert forall|j: int| 0 <= j < g8.len() implies !contains(l1, #[trigger] g8[j]) by {
        if j == 0 { assert(g8[j] == PREFS_LOWER_LEGACY@); }
    }
    assert forall|j: int| 0 <= j < g8.len() implies clash_from(PREFS_STEP_CURRENT@, #[trigger] g8[j], 0) && clash_from(g8[j], PREFS_STEP_CURRENT@, 1) by {
        if j == 0 { assert(g8[j] == PREFS_LOWER_LEGACY@); }
    }
    lemma_canonical_step(l1, PREFS_STEP_LEGACY@, PREFS_STEP_CURRENT@, g8, k8);
    assert(!contains(step_text(l1, PREFS_STEP_LEGACY@, PREFS_STEP_CURRENT@), g8[0]));
    let l2 = step_text(l1, PREFS_STEP_LEGACY@, PREFS_STEP_CURRENT@);
    assert(apply_legacy(content, lr.take(2)) == l2);
    assert(lr.take(2) =~= lr);
    let l = l2;
    assert(apply_legacy(content, lr) == l);
    assert(cr.take(1).drop_last() =~= cr.take(0));
    assert(cr.take(1).last() == (PREFS_SPIN_UPSTREAM@, PREFS_SPIN_CURRENT@));
    assert(cr.take(0) =~= Seq::<(Seq<char>, Seq<char>)>::empty());
    assert(apply_canonical(l, cr.take(0)) == Some(l));
    if apply_canonical(l, cr.take(1)) is None {
        lemma_apply_canonical_none_stays(l, cr, 1);
    }
    let g9 = seq![PREFS_LOWER_LEGACY@, PREFS_STEP_LEGACY@];
    let k9 = Seq::<Seq<char>>::empty();
    assert forall|j: int| 0 <= j < g9.len() implies !contains(l, #[trigger] g9[j]) by {
        if j == 0 { assert(g9[j] == PREFS_LOWER_LEGACY@); }
        if j == 1 { assert(g9[j] == PREFS_STEP_LEGACY@); }
    }
    assert forall|j: int| 0 <= j < g9.len() implies clash_from(PREFS_SPIN_CURRENT@, #[trigger] g9[j], 0) && clash_from(g9[j], PREFS_SPIN_CURRENT@, 1) by {
        if j == 0 { assert(g9[j] == PREFS_LOWER_LEGACY@); }
        if j == 1 { assert(g9[j] == PREFS_STEP_LEGACY@); }
    }
    lemma_canonical_step(l, PREFS_SPIN_UPSTREAM@, PREFS_SPIN_CURRENT@, g9, k9);
    assert(!contains(step_text(l, PREFS_SPIN_UPSTREAM@, PREFS_SPIN_CURRENT@), g9[0]));
    assert(!contains(step_text(l, PREFS_SPIN_UPSTREAM@, PREFS_SPIN_CURRENT@), g9[1]));
    let c1 = step_text(l, PREFS_SPIN_UPSTREAM@, PREFS_SPIN_CURRENT@);
    assert(apply_canonical(l, cr.take(1)) == Some(c1));
    assert(cr.take(1) =~= cr);
    let t = c1;
    assert forall|i: int| 0 <= i < lr.len() implies !contains(t, #[trigger] lr[i].0) by {
        if i == 0 { assert(lr[i].0 == PREFS_LOWER_LEGACY@); }
        if i == 1 { assert(lr[i].0 == PREFS_STEP_LEGACY@); }
    }
    assert forall|i: int| 0 <= i < cr.len() implies !contains(t, #[trigger] cr[i].0) && contains(t, cr[i].1) by {
        if i == 0 { assert(cr[i] == (PREFS_SPIN_UPSTREAM@, PREFS_SPIN_CURRENT@)); }
    }
    lemma_settled_file_is_fixed(PREFS_JS@, t);
}

/// The literal facts behind the law for the schema file: no substitution
/// text can overlap an old text it must keep out or a new text it must keep.
proof fn lemma_schema_texts_clash()
    ensures
        GSCHEMA_KEY_CURRENT@.len() > 0,
        GSCHEMA_KEY_UPSTREAM@.len() > 0,
        GSCHEMA_RANGE_CURRENT@.len() > 0,
        GSCHEMA_RANGE_LEGACY@.len() > 0,
        clash_from(GSCHEMA_RANGE_CURRENT@, GSCHEMA_RANGE_LEGACY@, 0),
        clash_from(GSCHEMA_RANGE_LEGACY@, GSCHEMA_RANGE_CURRENT@, 1),
        clash_from(GSCHEMA_KEY_CURRENT@, GSCHEMA_KEY_UPSTREAM@, 0),
        clash_from(GSCHEMA_KEY_UPSTREAM@, GSCHEMA_KEY_CURRENT@, 1),
        clash_from(GSCHEMA_KEY_CURRENT@, GSCHEMA_RANGE_LEGACY@, 0),
        clash_from(GSCHEMA_RANGE_LEGACY@, GSCHEMA_KEY_CURRENT@, 1),
{
    reveal_strlit("<key name=\"refreshtime\" type=\"d\">\n            <default>0.5</default>\n            <range min=\"0.1\" max=\"60\"/>");
    reveal_strlit("<key name=\"refreshtime\" type=\"i\">\n            <default>2</default>\n            <range min=\"1\" max=\"60\"/>");
    reveal_strlit("            <range min=\"0.1\" max=\"60\"/>");
    reveal_strlit("            <range min=\"0.5\" max=\"60\"/>");
    assert forall|d: int| 0 <= d < GSCHEMA_RANGE_CURRENT@.len() implies #[trigger] clash_at(GSCHEMA_RANGE_CURRENT@, GSCHEMA_RANGE_LEGACY@, d) by {
        let x = GSCHEMA_RANGE_CURRENT@;
        let y = GSCHEMA_RANGE_LEGACY@;
        let idx = if d == 0 { 26int } else if d == 1 { 11int } else if d == 2 { 10int } else if d == 3 { 9int } else if d == 4 { 8int } else if x[d + 0] != y[0] { 0int } else if x[d + 1] != y[1] { 1int } else if x[d + 2] != y[2] { 2int } else if x[d + 3] != y[3] { 3int } else if x[d + 4] != y[4] { 4int } else if x[d + 5] != y[5] { 5int } else if x[d + 6] != y[6] { 6int } else { 7int };
        assert(x[d + idx] != y[idx]);
    }
    assert forall|d: int| 1 <= d < GSCHEMA_RANGE_LEGACY@.len() implies #[trigger] clash_at(GSCHEMA_RANGE_LEGACY@, GSCHEMA_RANGE_CURRENT@, d) by {
        let x = GSCHEMA_RANGE_LEGACY@;
        let y = GSCHEMA_RANGE_CURRENT@;
        let idx = if d == 1 { 11int } else if d == 2 { 10int } else if d == 3 { 9int } else if d == 4 { 8int } else if x[d + 0] != y[0] { 0int } else if x[d + 1] != y[1] { 1int } else if x[d + 2] != y[2] { 2int } else if x[d + 3] != y[3] { 3int } else if x[d + 4] != y[4] { 4int } else if x[d + 5] != y[5] { 5int } else if x[d + 6] != y[6] { 6int } else { 7int };
        assert(x[d + idx] != y[idx]);
    }
    assert forall|d: int| 0 <= d < GSCHEMA_KEY_CURRENT@.len() implies #[trigger] clash_at(GSCHEMA_KEY_CURRENT@, GSCHEMA_KEY_UPSTREAM@, d) by {
        let x = GSCHEMA_KEY_CURRENT@;
        let y = GSCHEMA_KEY_UPSTREAM@;
        let idx = if d == 0 { 30int } else if x[d + 0] != y[0] { 0int } else { 1int };
        assert(x[d + idx] != y[idx]);
    }
    assert forall|d: int| 1 <= d < GSCHEMA_KEY_UPSTREAM@.len() implies #[trigger] clash_at(GSCHEMA_KEY_UPSTREAM@, GSCHEMA_KEY_CURRENT@, d) by {
        let x = GSCHEMA_KEY_UPSTREAM@;
        let y = GSCHEMA_KEY_CURRENT@;
        let idx = if x[d + 0] != y[0] { 0int } else { 1int };
        assert(x[d + idx] != y[idx]);
    }
    assert forall|d: int| 0 <= d < GSCHEMA_KEY_CURRENT@.len() implies #[trigger] clash_at(GSCHEMA_KEY_CURRENT@, GSCHEMA_RANGE_LEGACY@, d) by {
        let x = GSCHEMA_KEY_CURRENT@;
        let y = GSCHEMA_RANGE_LEGACY@;
        let idx = if d == 34 { 13int } else if d == 35 { 11int } else if d == 36 { 10int } else if d == 37 { 9int } else if d == 38 { 8int } else if d == 69 { 26int } else if d == 70 { 11int } else if d == 71 { 10int } else if d == 72 { 9int } else if d == 73 { 8int } else if x[d + 0] != y[0] { 0int } else if x[d + 1] != y[1] { 1int } else if x[d + 2] != y[2] { 2int } else if x[d + 3] != y[3] { 3int } else if x[d + 4] != y[4] { 4int } else if x[d + 5] != y[5] { 5int } else if x[d + 6] != y[6] { 6int } else { 7int };
        assert(x[d + idx] != y[idx]);
    }
    assert forall|d: int| 1 <= d < GSCHEMA_RANGE_LEGACY@.len() implies #[trigger] clash_at(GSCHEMA_RANGE_LEGACY@, GSCHEMA_KEY_CURRENT@, d) by {
        let x = GSCHEMA_RANGE_LEGACY@;
        let y = GSCHEMA_KEY_CURRENT@;
        let idx = if x[d + 0] != y[0] { 0int } else { 1int };
        assert(x[d + idx] != y[idx]);
    }
}

/// Transforming the schema file twice is transforming it once.
proof fn lemma_schema_transform_idempotent(content: Seq<char>)
    requires
        refresh_transform(GSCHEMA_PATH@, content) is Some,
    ensures
        refresh_transform(GSCHEMA_PATH@, refresh_transform(GSCHEMA_PATH@, content)->0) == refresh_transform(GSCHEMA_PATH@, content),
{
    lemma_schema_texts_clash();
    lemma_paths_distinct();
    let lr = legacy_rules(GSCHEMA_PATH@);
    let cr = canonical_rules(GSCHEMA_PATH@);
    assert(lr.take(0) =~= Seq::<(Seq<char>, Seq<char>)>::empty());
    assert(apply_legacy(content, lr.take(0)) == content);
    assert(lr.take(1).drop_last() =~= lr.take(0));
    assert(lr.take(1).last() == (GSCHEMA_RANGE_LEGACY@, GSCHEMA_RANGE_CURRENT@));
    let g10 = Seq::<Seq<char>>::empty();
    let k10 = Seq::<Seq<char>>::empty();
    lemma_canonical_step(content, GSCHEMA_RANGE_LEGACY@, GSCHEMA_RANGE_CURRENT@, g10, k10);
    let l1 = step_text(content, GSCHEMA_RANGE_LEGACY@, GSCHEMA_RANGE_CURRENT@);
    assert(apply_legacy(content, lr.take(1)) == l1);
    assert(lr.take(1) =~= lr);
    let l = l1;
    assert(apply_legacy(content, lr) == l);
    assert(cr.take(1).drop_last() =~= cr.take(0));
    assert(cr.take(1).last() == (GSCHEMA_KEY_UPSTREAM@, GSCHEMA_KEY_CURRENT@));
    assert(cr.take(0) =~= Seq::<(Seq<char>, Seq<char>)>::empty());
    assert(apply_canonical(l, cr.take(0)) == Some(l));
    if apply_canonical(l, cr.take(1)) is None {
        lemma_apply_canonical_none_stays(l, cr, 1);
    }
    let g11 = seq![GSCHEMA_RANGE_LEGACY@];
    let k11 = Seq::<Seq<char>>::empty();
    assert forall|j: int| 0 <= j < g11.len() implies !contains(l, #[trigger] g11[j]) by {
        if j == 0 { assert(g11[j] == GSCHEMA_RANGE_LEGACY@); }
    }
    assert forall|j: int| 0 <= j < g11.len() implies clash_from(GSCHEMA_KEY_CURRENT@, #[trigger] g11[j], 0) && clash_from(g11[j], GSCHEMA_KEY_CURRENT@, 1) by {
        if j == 0 { assert(g11[j] == GSCHEMA_RANGE_LEGACY@); }
    }
    lemma_canonical_step(l, GSCHEMA_KEY_UPSTREAM@, GSCHEMA_KEY_CURRENT@, g11, k11);
    assert(!contains(step_text(l, GSCHEMA_KEY_UPSTREAM@, GSCHEMA_KEY_CURRENT@), g11[0]));
    let c1 = step_text(l, GSCHEMA_KEY_UPSTREAM@, GSCHEMA_KEY_CURRENT@);
    assert(apply_canonical(l, cr.take(1)) == Some(c1));
    assert(cr.take(1) =~= cr);
    let t = c1;
    assert forall|i: int| 0 <= i < lr.len() implies !contains(t, #[trigger] lr[i].0) by {
        if i == 0 { assert(lr[i].0 == GSCHEMA_RANGE_LEGACY@); }
    }
    assert forall|i: int| 0 <= i < cr.len() implies !contains(t, #[trigger] cr[i].0) && contains(t, cr[i].1) by {
        if i == 0 { assert(cr[i] == (GSCHEMA_KEY_UPSTREAM@, GSCHEMA_KEY_CURRENT@)); }
    }
    lemma_settled_file_is_fixed(GSCHEMA_PATH@, t);
}

/// Transforming a file twice is transforming it once: whenever the
/// transform of a file succeeds, transforming its output succeeds and gives
/// the same text, so re-running the refresh patch changes nothing.
pub proof fn lemma_refresh_transform_idempotent(relative_path: Seq<char>, content: Seq<char>)
    requires
        refresh_transform(relative_path, content) is Some,
    ensures
        refresh_transform(relative_path, refresh_transform(relative_path, content)->0)
            == refresh_transform(relative_path, content),
{
    if relative_path == EXTENSION_JS@ {
        lemma_extension_transform_idempotent(content);
    } else if relative_path == SETTINGS_JS@ {
        lemma_settings_transform_idempotent(content);
    } else if relative_path == PREFS_JS@ {
        lemma_prefs_transform_idempotent(content);
    } else if relative_path == GSCHEMA_PATH@ {
        lemma_schema_transform_idempotent(content);
    } else {
        assert(legacy_rules(relative_path).len() == 0);
        assert(canonical_rules(relative_path).len() == 0);
    }
}

} // verus!
