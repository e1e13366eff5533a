//! Show VRAM next to GPU usage % without brackets.
//!
//! Upstream Resource Monitor wraps the GPU memory (VRAM) value in `[ ]`
//! bracket labels; this patch replaces those brackets with a plain two-space
//! separator so VRAM sits directly beside the GPU usage percentage.
//!
//! Idempotent: a second run that already sees the space-separator marker
//! succeeds without rewriting. Missing both the upstream snippet and the
//! marker is an error (unsupported extension version).

use vstd::prelude::*;
use crate::text::{
    chars_string, contains, contains_str, lemma_contains_at, lemma_contains_trans,
    lemma_replace_first_has_rep, replace_first, replace_first_str, str_chars,
};

verus! {

pub const MARKER: &'static str = "Space separator between GPU usage and VRAM";

pub const OLD_CODE: &'static str = r#"        const separatorStart = _createBracketLabel("[", [
          "resource-monitor-secondary-bracket",
        ]);
        const separatorEnd = _createBracketLabel("]", [
          "resource-monitor-secondary-bracket",
        ]);
        this._separatorPairs.push({ start: separatorStart, end: separatorEnd });
        this.add_child(separatorStart);
        this.add_child(this._elementsMemoryValue[uuid]);
        this.add_child(this._elementsMemoryUnit[uuid]);
        this.add_child(separatorEnd);"#;

pub const NEW_CODE: &'static str = r#"        // Space separator between GPU usage and VRAM (no brackets)
        const spaceSep = new St.Label({ text: "  " });
        this.add_child(spaceSep);
        this.add_child(this._elementsMemoryValue[uuid]);
        this.add_child(this._elementsMemoryUnit[uuid]);"#;

/// Failures when the upstream VRAM bracket anchors are missing.
#[derive(Debug, PartialEq, Eq)]
pub enum VramError {
    /// Neither the upstream bracket snippet nor the space-separator marker.
    MissingTarget,
}

impl VramError {
    /// The error's message.
    pub fn message(&self) -> (r: &'static str)
        ensures
            r@ == "Could not find target code in containers.js - unsupported extension version"@,
    {
        "Could not find target code in containers.js - unsupported extension version"
    }
}

/// Result of [`patch_containers`]: `Some((text, changed))`, or `None` when
/// the target is missing.
pub open spec fn vram_patch(content: Seq<char>) -> Option<(Seq<char>, bool)> {
    if contains(content, MARKER@) {
        Some((content, false))
    } else if !contains(content, OLD_CODE@) {
        None
    } else {
        Some((replace_first(content, OLD_CODE@, NEW_CODE@), true))
    }
}

/// Remove the bracket labels around the GPU VRAM value.
///
/// Returns `(patched_content, changed)`; `changed` is false when the marker
/// is already present.
pub fn patch_containers(content: &str) -> (r: Result<(String, bool), VramError>)
    ensures
        match vram_patch(content@) {
            Some((t, changed)) => r matches Ok((s, c)) && s@ == t && c == changed,
            None => r == Err::<(String, bool), VramError>(VramError::MissingTarget),
        },
{
    let c = str_chars(content);
    if contains_str(c.as_slice(), MARKER) {
        return Ok((content.to_owned(), false));
    }
    if !contains_str(c.as_slice(), OLD_CODE) {
        return Err(VramError::MissingTarget);
    }
    let v = replace_first_str(c.as_slice(), OLD_CODE, NEW_CODE);
    Ok((chars_string(v.as_slice()), true))
}

/// The replacement body carries the idempotence marker.
pub proof fn lemma_new_code_has_marker()
    ensures
        contains(NEW_CODE@, MARKER@),
{
    reveal_strlit("Space separator between GPU usage and VRAM");
    reveal_strlit(r#"        // Space separator between GPU usage and VRAM (no brackets)
        const spaceSep = new St.Label({ text: "  " });
        this.add_child(spaceSep);
        this.add_child(this._elementsMemoryValue[uuid]);
        this.add_child(this._elementsMemoryUnit[uuid]);"#);
    // The marker follows the comment opener at character 11.
    assert(NEW_CODE@.subrange(11, 11 + MARKER@.len() as int) =~= MARKER@);
    lemma_contains_at(NEW_CODE@, MARKER@, 11);
}

/// Patching twice is patching once: whenever the patch succeeds, running it
/// again on its output succeeds, reports no change and keeps the text.
pub proof fn lemma_vram_patch_idempotent(content: Seq<char>)
    requires
        vram_patch(content) is Some,
    ensures
        vram_patch((vram_patch(content)->0).0) == Some(((vram_patch(content)->0).0, false)),
{
    if !contains(content, MARKER@) {
        lemma_replace_first_has_rep(content, OLD_CODE@, NEW_CODE@);
        lemma_new_code_has_marker();
        lemma_contains_trans(replace_first(content, OLD_CODE@, NEW_CODE@), NEW_CODE@, MARKER@);
    }
}

} // verus!
