//! Drop the ethernet display icon from the panel while keeping its Mbps value.
//!
//! Upstream appends the icon for every simple metric group through
//! `_appendSimpleChildren`, and no GSetting hides a single icon, so this
//! patch:
//!
//! 1. Guards `_appendSimpleChildren` so a null icon adds no actor.
//! 2. Wires the ethernet group to `_appendSimpleChildren` with a null icon.
//!
//! Both edits are guarded by marker comments and fail fast when the expected
//! upstream snippets are absent. A present marker does not short-circuit: the
//! guarded block is compared with the current form and upgraded in place when
//! it has drifted, and the patch fails when the block cannot be located.

use vstd::prelude::*;
use crate::patch_text::{
    block_in_place, lemma_absent_survives, lemma_balanced_block_found, lemma_find_is, lemma_block_survives, lemma_replace_block_in_place, lemma_balanced_block_in_place, lemma_close_skip_plain, lemma_find_char, matching_close,
    matching_close_from, replace_stale_balanced_block, stale_balanced_block, BlockSpec, StaleBlockOutcome,
};
use crate::text::{
    chars_string, clash_at, clash_from, contains, contains_str, find, find_from, lemma_contains_at,
    lemma_contains_trans, lemma_no_overlap, matches_at,
    replace_first, replace_first_str, str_chars, strs_view,
};

verus! {

pub const ICON_GUARD_MARKER: &'static str = "A null icon (e.g. ethernet) means no icon actor is added";

/// Signature line that starts the guarded function, shared by [`OLD_FN`] and
/// [`NEW_FN`] so a stale (but marker-carrying) body can still be located.
pub const FN_SIGNATURE: &'static str = "function _appendSimpleChildren(icon, value, unit, addChild, iconsPosition) {";

pub const OLD_FN: &'static str = r#"function _appendSimpleChildren(icon, value, unit, addChild, iconsPosition) {
  if (iconsPosition === "left") {
    addChild(icon);
  }

  addChild(value);
  addChild(unit);

  if (iconsPosition !== "left") {
    addChild(icon);
  }
}"#;

pub const NEW_FN: &'static str = r#"function _appendSimpleChildren(icon, value, unit, addChild, iconsPosition) {
  // A null icon (e.g. ethernet) means no icon actor is added.
  if (icon) {
    if (iconsPosition === "left") {
      addChild(icon);
    }
  }

  addChild(value);
  addChild(unit);

  if (icon) {
    if (iconsPosition !== "left") {
      addChild(icon);
    }
  }
}"#;

pub const ETH_MARKER: &'static str = "Ethernet icon removed: value/unit kept, icon omitted";

/// Call-site line that starts the ethernet wiring block, shared by
/// [`OLD_SNIPPET`] and [`NEW_SNIPPET`] so a stale (but marker-carrying) body
/// can still be located.
pub const ETH_SIGNATURE: &'static str = "  _replaceGroupChildren(indicator._ethGroup, (addChild) =>";

pub const OLD_SNIPPET: &'static str = r#"  _replaceGroupChildren(indicator._ethGroup, (addChild) =>
    _appendSimpleChildren(
      indicator._ethIcon,
      indicator._ethValue,
      indicator._ethUnit,
      addChild,
      iconsPosition
    )
  );"#;

pub const NEW_SNIPPET: &'static str = r#"  _replaceGroupChildren(indicator._ethGroup, (addChild) =>
    // Ethernet icon removed: value/unit kept, icon omitted
    _appendSimpleChildren(
      null,
      indicator._ethValue,
      indicator._ethUnit,
      addChild,
      iconsPosition
    )
  );"#;

/// Failure while applying the ethernet-icon patch.
#[derive(Debug, PartialEq, Eq, Clone, Copy)]
pub enum EthIconError {
    /// `_appendSimpleChildren` could not be located (and the null-icon guard
    /// marker is absent, or its block cannot be bounded).
    MissingAppendSimpleChildren,
    /// The ethernet group wiring could not be located.
    MissingEthWiring,
}

/// The message of each error.
pub open spec fn eth_error_message(e: EthIconError) -> Seq<char> {
    match e {
        EthIconError::MissingAppendSimpleChildren => "Could not find _appendSimpleChildren in mainGui.js - unsupported Resource Monitor version"@,
        EthIconError::MissingEthWiring => "Could not find ethernet group wiring in mainGui.js - unsupported Resource Monitor version"@,
    }
}

impl EthIconError {
    /// The error's message.
    pub fn message(&self) -> (r: &'static str)
        ensures
            r@ == eth_error_message(*self),
    {
        match self {
            EthIconError::MissingAppendSimpleChildren => "Could not find _appendSimpleChildren in mainGui.js - unsupported Resource Monitor version",
            EthIconError::MissingEthWiring => "Could not find ethernet group wiring in mainGui.js - unsupported Resource Monitor version",
        }
    }
}

/// One guarded edit: upgrade a marked block in place, or replace the
/// upstream snippet.
pub open spec fn guarded_edit(
    content: Seq<char>,
    marker: Seq<char>,
    block: BlockSpec,
    old: Seq<char>,
    new: Seq<char>,
    err: EthIconError,
) -> Result<(Seq<char>, bool), EthIconError> {
    if contains(content, marker) {
        match block {
            BlockSpec::Replaced(t) => Ok((t, true)),
            BlockSpec::Unchanged => Ok((content, false)),
            BlockSpec::AnchorsMissing => Err(err),
        }
    } else if !contains(content, old) {
        Err(err)
    } else {
        Ok((replace_first(content, old, new), true))
    }
}

/// The null-icon guard edit.
pub open spec fn guard_step(content: Seq<char>) -> Result<(Seq<char>, bool), EthIconError> {
    guarded_edit(
        content,
        ICON_GUARD_MARKER@,
        stale_balanced_block(content, FN_SIGNATURE@, '{', '}', None, NEW_FN@),
        OLD_FN@,
        NEW_FN@,
        EthIconError::MissingAppendSimpleChildren,
    )
}

/// The ethernet wiring edit.
pub open spec fn wiring_step(content: Seq<char>) -> Result<(Seq<char>, bool), EthIconError> {
    guarded_edit(
        content,
        ETH_MARKER@,
        stale_balanced_block(content, ETH_SIGNATURE@, '(', ')', Some(';'), NEW_SNIPPET@),
        OLD_SNIPPET@,
        NEW_SNIPPET@,
        EthIconError::MissingEthWiring,
    )
}

/// Result of [`patch_main_gui`].
pub open spec fn eth_icon_patch(content: Seq<char>) -> Result<(Seq<char>, bool), EthIconError> {
    match guard_step(content) {
        Err(e) => Err(e),
        Ok((c1, ch1)) => match wiring_step(c1) {
            Err(e) => Err(e),
            Ok((c2, ch2)) => Ok((c2, ch1 || ch2)),
        },
    }
}

/// One guarded edit on a string.
fn guarded_edit_exec(
    content: String,
    marker: &str,
    signature: &str,
    open: char,
    close: char,
    extra: Option<char>,
    old: &str,
    new: &str,
    err: EthIconError,
) -> (r: Result<(String, bool), EthIconError>)
    ensures
        match guarded_edit(
            content@,
            marker@,
            stale_balanced_block(content@, signature@, open, close, extra, new@),
            old@,
            new@,
            err,
        ) {
            Ok((t, ch)) => r matches Ok((s, c)) && s@ == t && c == ch,
            Err(e) => r matches Err(e2) && e2 == e,
        },
{
    let c = str_chars(content.as_str());
    if contains_str(c.as_slice(), marker) {
        match replace_stale_balanced_block(content.as_str(), signature, open, close, extra, new) {
            StaleBlockOutcome::Replaced(t) => Ok((t, true)),
            StaleBlockOutcome::Unchanged => Ok((content, false)),
            StaleBlockOutcome::AnchorsMissing => Err(err),
        }
    } else if !contains_str(c.as_slice(), old) {
        Err(err)
    } else {
        let v = replace_first_str(c.as_slice(), old, new);
        Ok((chars_string(v.as_slice()), true))
    }
}

/// Apply both ethernet-icon edits to `mainGui.js` content. Returns the
/// patched content and whether anything changed.
pub fn patch_main_gui(content: &str) -> (r: Result<(String, bool), EthIconError>)
    ensures
        match eth_icon_patch(content@) {
            Ok((t, changed)) => r matches Ok((s, c)) && s@ == t && c == changed,
            Err(e) => r matches Err(e2) && e2 == e,
        },
{
    let (c1, ch1) = match guarded_edit_exec(
        content.to_owned(),
        ICON_GUARD_MARKER,
        FN_SIGNATURE,
        '{',
        '}',
        None,
        OLD_FN,
        NEW_FN,
        EthIconError::MissingAppendSimpleChildren,
    ) {
        Ok(x) => x,
        Err(e) => return Err(e),
    };
    let (c2, ch2) = match guarded_edit_exec(
        c1,
        ETH_MARKER,
        ETH_SIGNATURE,
        '(',
        ')',
        Some(';'),
        OLD_SNIPPET,
        NEW_SNIPPET,
        EthIconError::MissingEthWiring,
    ) {
        Ok(x) => x,
        Err(e) => return Err(e),
    };
    Ok((c2, ch1 || ch2))
}

/// The current guard function: its first `{` is balanced by its last `}`,
/// and it carries the guard marker.
proof fn lemma_new_fn_shape()
    ensures
        find_from(NEW_FN@, seq!['{'], 0) == Some(75int),
        matching_close(NEW_FN@, 75, '{', '}') == Some(343int),
        NEW_FN@.len() == 344,
        contains(NEW_FN@, ICON_GUARD_MARKER@),
{
    reveal_strlit(r#"function _appendSimpleChildren(icon, value, unit, addChild, iconsPosition) {
  // A null icon (e.g. ethernet) means no icon actor is added.
  if (icon) {
    if (iconsPosition === "left") {
      addChild(icon);
    }
  }

  addChild(value);
  addChild(unit);

  if (icon) {
    if (iconsPosition !== "left") {
      addChild(icon);
    }
  }
}"#);
    reveal_strlit("A null icon (e.g. ethernet) means no icon actor is added");
    lemma_find_char(NEW_FN@, '{', 0, 75);
    assert(matching_close_from(NEW_FN@, 75, 0, '{', '}') == matching_close_from(NEW_FN@, 76, 1, '{', '}'));
    lemma_close_skip_plain(NEW_FN@, 76, 152, 1, '{', '}');
    assert(matching_close_from(NEW_FN@, 152, 1, '{', '}') == matching_close_from(NEW_FN@, 153, 2, '{', '}'));
    lemma_close_skip_plain(NEW_FN@, 153, 188, 2, '{', '}');
    assert(matching_close_from(NEW_FN@, 188, 2, '{', '}') == matching_close_from(NEW_FN@, 189, 3, '{', '}'));
    lemma_close_skip_plain(NEW_FN@, 189, 216, 3, '{', '}');
    assert(matching_close_from(NEW_FN@, 216, 3, '{', '}') == matching_close_from(NEW_FN@, 217, 2, '{', '}'));
    lemma_close_skip_plain(NEW_FN@, 217, 220, 2, '{', '}');
    assert(matching_close_from(NEW_FN@, 220, 2, '{', '}') == matching_close_from(NEW_FN@, 221, 1, '{', '}'));
    lemma_close_skip_plain(NEW_FN@, 221, 273, 1, '{', '}');
    assert(matching_close_from(NEW_FN@, 273, 1, '{', '}') == matching_close_from(NEW_FN@, 274, 2, '{', '}'));
    lemma_close_skip_plain(NEW_FN@, 274, 309, 2, '{', '}');
    assert(matching_close_from(NEW_FN@, 309, 2, '{', '}') == matching_close_from(NEW_FN@, 310, 3, '{', '}'));
    lemma_close_skip_plain(NEW_FN@, 310, 337, 3, '{', '}');
    assert(matching_close_from(NEW_FN@, 337, 3, '{', '}') == matching_close_from(NEW_FN@, 338, 2, '{', '}'));
    lemma_close_skip_plain(NEW_FN@, 338, 341, 2, '{', '}');
    assert(matching_close_from(NEW_FN@, 341, 2, '{', '}') == matching_close_from(NEW_FN@, 342, 1, '{', '}'));
    lemma_close_skip_plain(NEW_FN@, 342, 343, 1, '{', '}');
    assert(matching_close_from(NEW_FN@, 343, 1, '{', '}') == Some(343int));
    assert(NEW_FN@.subrange(82, 138) =~= ICON_GUARD_MARKER@);
    lemma_contains_at(NEW_FN@, ICON_GUARD_MARKER@, 82);
}

/// The current ethernet wiring: its first `(` is balanced by the `)` just
/// before its closing `;`, and it carries the wiring marker.
proof fn lemma_new_snippet_shape()
    ensures
        find_from(NEW_SNIPPET@, seq!['('], 0) == Some(23int),
        matching_close(NEW_SNIPPET@, 23, '(', ')') == Some(255int),
        NEW_SNIPPET@.len() == 257,
        NEW_SNIPPET@[256] == ';',
        contains(NEW_SNIPPET@, ETH_MARKER@),
{
    reveal_strlit(r#"  _replaceGroupChildren(indicator._ethGroup, (addChild) =>
    // Ethernet icon removed: value/unit kept, icon omitted
    _appendSimpleChildren(
      null,
      indicator._ethValue,
      indicator._ethUnit,
      addChild,
      iconsPosition
    )
  );"#);
    reveal_strlit("Ethernet icon removed: value/unit kept, icon omitted");
    lemma_find_char(NEW_SNIPPET@, '(', 0, 23);
    assert(matching_close_from(NEW_SNIPPET@, 23, 0, '(', ')') == matching_close_from(NEW_SNIPPET@, 24, 1, '(', ')'));
    lemma_close_skip_plain(NEW_SNIPPET@, 24, 45, 1, '(', ')');
    assert(matching_close_from(NEW_SNIPPET@, 45, 1, '(', ')') == matching_close_from(NEW_SNIPPET@, 46, 2, '(', ')'));
    lemma_close_skip_plain(NEW_SNIPPET@, 46, 54, 2, '(', ')');
    assert(matching_close_from(NEW_SNIPPET@, 54, 2, '(', ')') == matching_close_from(NEW_SNIPPET@, 55, 1, '(', ')'));
    lemma_close_skip_plain(NEW_SNIPPET@, 55, 144, 1, '(', ')');
    assert(matching_close_from(NEW_SNIPPET@, 144, 1, '(', ')') == matching_close_from(NEW_SNIPPET@, 145, 2, '(', ')'));
    lemma_close_skip_plain(NEW_SNIPPET@, 145, 251, 2, '(', ')');
    assert(matching_close_from(NEW_SNIPPET@, 251, 2, '(', ')') == matching_close_from(NEW_SNIPPET@, 252, 1, '(', ')'));
    lemma_close_skip_plain(NEW_SNIPPET@, 252, 255, 1, '(', ')');
    assert(matching_close_from(NEW_SNIPPET@, 255, 1, '(', ')') == Some(255int));
    assert(NEW_SNIPPET@.subrange(66, 118) =~= ETH_MARKER@);
    lemma_contains_at(NEW_SNIPPET@, ETH_MARKER@, 66);
}

/// A block in place contains what the block contains.
proof fn lemma_in_place_contains(content: Seq<char>, signature: Seq<char>, block: Seq<char>, marker: Seq<char>)
    requires
        block_in_place(content, signature, block),
        contains(block, marker),
    ensures
        contains(content, marker),
{
    let i = find(content, signature)->0;
    crate::text::lemma_find_from(content, signature, 0);
    lemma_contains_at(content, block, i);
    lemma_contains_trans(content, block, marker);
}

/// An already-patched `mainGui.js` is left alone: when the current guarded
/// function stands at the first occurrence of its signature and the current
/// ethernet wiring at the first occurrence of its call site, patching
/// succeeds, reports no change and keeps the text.
pub proof fn lemma_patched_main_gui_is_fixed(content: Seq<char>)
    requires
        block_in_place(content, FN_SIGNATURE@, NEW_FN@),
        block_in_place(content, ETH_SIGNATURE@, NEW_SNIPPET@),
    ensures
        eth_icon_patch(content) == Ok::<(Seq<char>, bool), EthIconError>((content, false)),
{
    lemma_new_fn_shape();
    lemma_new_snippet_shape();
    lemma_in_place_contains(content, FN_SIGNATURE@, NEW_FN@, ICON_GUARD_MARKER@);
    lemma_in_place_contains(content, ETH_SIGNATURE@, NEW_SNIPPET@, ETH_MARKER@);
    lemma_balanced_block_in_place(content, FN_SIGNATURE@, '{', '}', None, NEW_FN@);
    lemma_balanced_block_in_place(content, ETH_SIGNATURE@, '(', ')', Some(';'), NEW_SNIPPET@);
}

/// The literal facts the upstream law rests on: each block opens with its
/// signature, and the texts the two edits write cannot hold or cut into the
/// signatures and markers they must leave alone.
proof fn lemma_edit_texts_clash()
    ensures
        FN_SIGNATURE@.len() > 0,
        ETH_SIGNATURE@.len() > 0,
        FN_SIGNATURE@.len() <= OLD_FN@.len(),
        OLD_FN@.take(FN_SIGNATURE@.len() as int) == FN_SIGNATURE@,
        FN_SIGNATURE@.len() <= NEW_FN@.len(),
        NEW_FN@.take(FN_SIGNATURE@.len() as int) == FN_SIGNATURE@,
        ETH_SIGNATURE@.len() <= OLD_SNIPPET@.len(),
        OLD_SNIPPET@.take(ETH_SIGNATURE@.len() as int) == ETH_SIGNATURE@,
        ETH_SIGNATURE@.len() <= NEW_SNIPPET@.len(),
        NEW_SNIPPET@.take(ETH_SIGNATURE@.len() as int) == ETH_SIGNATURE@,
        clash_from(OLD_FN@, OLD_SNIPPET@, 0),
        clash_from(OLD_SNIPPET@, OLD_FN@, 1),
        clash_from(NEW_FN@, ETH_SIGNATURE@, 0),
        clash_from(ETH_SIGNATURE@, NEW_FN@, 1),
        clash_from(NEW_FN@, ETH_MARKER@, 0),
        clash_from(ETH_MARKER@, NEW_FN@, 1),
        clash_from(NEW_SNIPPET@, FN_SIGNATURE@, 0),
        clash_from(FN_SIGNATURE@, NEW_SNIPPET@, 1),
{
    reveal_strlit("function _appendSimpleChildren(icon, value, unit, addChild, iconsPosition) {");
    reveal_strlit("  _replaceGroupChildren(indicator._ethGroup, (addChild) =>");
    reveal_strlit(r#"function _appendSimpleChildren(icon, value, unit, addChild, iconsPosition) {
  if (iconsPosition === "left") {
    addChild(icon);
  }

  addChild(value);
  addChild(unit);

  if (iconsPosition !== "left") {
    addChild(icon);
  }
}"#);
    reveal_strlit(r#"function _appendSimpleChildren(icon, value, unit, addChild, iconsPosition) {
  // A null icon (e.g. ethernet) means no icon actor is added.
  if (icon) {
    if (iconsPosition === "left") {
      addChild(icon);
    }
  }

  addChild(value);
  addChild(unit);

  if (icon) {
    if (iconsPosition !== "left") {
      addChild(icon);
    }
  }
}"#);
    reveal_strlit(r#"  _replaceGroupChildren(indicator._ethGroup, (addChild) =>
    _appendSimpleChildren(
      indicator._ethIcon,
      indicator._ethValue,
      indicator._ethUnit,
      addChild,
      iconsPosition
    )
  );"#);
    reveal_strlit(r#"  _replaceGroupChildren(indicator._ethGroup, (addChild) =>
    // Ethernet icon removed: value/unit kept, icon omitted
    _appendSimpleChildren(
      null,
      indicator._ethValue,
      indicator._ethUnit,
      addChild,
      iconsPosition
    )
  );"#);
    reveal_strlit("Ethernet icon removed: value/unit kept, icon omitted");
    assert(OLD_FN@.take(FN_SIGNATURE@.len() as int) =~= FN_SIGNATURE@);
    assert(NEW_FN@.take(FN_SIGNATURE@.len() as int) =~= FN_SIGNATURE@);
    assert(OLD_SNIPPET@.take(ETH_SIGNATURE@.len() as int) =~= ETH_SIGNATURE@);
    assert(NEW_SNIPPET@.take(ETH_SIGNATURE@.len() as int) =~= ETH_SIGNATURE@);
    // An indented call never follows two spaces with `_` in the functions.
    assert forall|d: int| 0 <= d < OLD_FN@.len() implies #[trigger] clash_at(OLD_FN@, OLD_SNIPPET@, d) by {
        let a = OLD_FN@;
        let idx = if a[d] != ' ' { 0int } else if a[d + 1] != ' ' { 1int } else { 2int };
        assert(a[d + idx] != OLD_SNIPPET@[idx]);
    }
    assert forall|d: int| 0 <= d < NEW_FN@.len() implies #[trigger] clash_at(NEW_FN@, ETH_SIGNATURE@, d) by {
        let a = NEW_FN@;
        let idx = if a[d] != ' ' { 0int } else if a[d + 1] != ' ' { 1int } else { 2int };
        assert(a[d + idx] != ETH_SIGNATURE@[idx]);
    }
    // The functions open with `f`, which the wiring texts never hold.
    assert forall|d: int| 1 <= d < OLD_SNIPPET@.len() implies #[trigger] clash_at(OLD_SNIPPET@, OLD_FN@, d) by {
        assert(OLD_SNIPPET@[d] != OLD_FN@[0]);
    }
    assert forall|d: int| 1 <= d < ETH_SIGNATURE@.len() implies #[trigger] clash_at(ETH_SIGNATURE@, NEW_FN@, d) by {
        assert(ETH_SIGNATURE@[d] != NEW_FN@[0]);
    }
    assert forall|d: int| 1 <= d < ETH_MARKER@.len() implies #[trigger] clash_at(ETH_MARKER@, NEW_FN@, d) by {
        assert(ETH_MARKER@[d] != NEW_FN@[0]);
    }
    assert forall|d: int| 0 <= d < NEW_SNIPPET@.len() implies #[trigger] clash_at(NEW_SNIPPET@, FN_SIGNATURE@, d) by {
        assert(NEW_SNIPPET@[d] != FN_SIGNATURE@[0]);
    }
    // The wiring marker opens with `E`, which the guard function never holds.
    assert forall|d: int| 0 <= d < NEW_FN@.len() implies #[trigger] clash_at(NEW_FN@, ETH_MARKER@, d) by {
        assert(NEW_FN@[d] != ETH_MARKER@[0]);
    }
    // The signature has no two spaces in a row.
    assert forall|d: int| 1 <= d < FN_SIGNATURE@.len() implies #[trigger] clash_at(FN_SIGNATURE@, NEW_SNIPPET@, d) by {
        let a = FN_SIGNATURE@;
        let idx = if a[d] != ' ' { 0int } else { 1int };
        assert(a[d + idx] != NEW_SNIPPET@[idx]);
    }
}

/// Patching an upstream `mainGui.js` is idempotent: when the upstream guard
/// function stands at the first occurrence of its signature and the
/// upstream ethernet wiring at the first occurrence of its call site, with
/// neither marker present, the patch succeeds and changes the text, and
/// patching its output succeeds, reports no change and keeps it.
pub proof fn lemma_upstream_main_gui_patch_is_idempotent(content: Seq<char>)
    requires
        block_in_place(content, FN_SIGNATURE@, OLD_FN@),
        block_in_place(content, ETH_SIGNATURE@, OLD_SNIPPET@),
        !contains(content, ICON_GUARD_MARKER@),
        !contains(content, ETH_MARKER@),
    ensures
        eth_icon_patch(content) matches Ok((t, changed)) && changed
            && eth_icon_patch(t) == Ok::<(Seq<char>, bool), EthIconError>((t, false)),
{
    lemma_edit_texts_clash();
    let i = find(content, FN_SIGNATURE@)->0;
    let w = find(content, ETH_SIGNATURE@)->0;
    crate::text::lemma_find_from(content, FN_SIGNATURE@, 0);
    crate::text::lemma_find_from(content, ETH_SIGNATURE@, 0);
    // The two upstream blocks do not overlap.
    assert(matches_at(content, OLD_FN@, i));
    assert(matches_at(content, OLD_SNIPPET@, w));
    if i <= w && w < i + OLD_FN@.len() {
        lemma_no_overlap(content, OLD_FN@, OLD_SNIPPET@, 0, i, w);
    }
    if w < i && i < w + OLD_SNIPPET@.len() {
        lemma_no_overlap(content, OLD_SNIPPET@, OLD_FN@, 1, w, i);
    }
    // Guard edit.
    lemma_replace_block_in_place(content, FN_SIGNATURE@, OLD_FN@, NEW_FN@);
    lemma_contains_at(content, OLD_FN@, i);
    let c1 = replace_first(content, OLD_FN@, NEW_FN@);
    lemma_block_survives(content, OLD_FN@, NEW_FN@, ETH_SIGNATURE@, OLD_SNIPPET@);
    lemma_absent_survives(content, OLD_FN@, NEW_FN@, ETH_MARKER@);
    // Wiring edit.
    lemma_replace_block_in_place(c1, ETH_SIGNATURE@, OLD_SNIPPET@, NEW_SNIPPET@);
    let w1 = find(c1, ETH_SIGNATURE@)->0;
    crate::text::lemma_find_from(c1, ETH_SIGNATURE@, 0);
    assert(matches_at(c1, OLD_SNIPPET@, w1));
    lemma_contains_at(c1, OLD_SNIPPET@, w1);
    let c2 = replace_first(c1, OLD_SNIPPET@, NEW_SNIPPET@);
    lemma_block_survives(c1, OLD_SNIPPET@, NEW_SNIPPET@, FN_SIGNATURE@, NEW_FN@);
    lemma_patched_main_gui_is_fixed(c2);
}

/// `content` with the block `old` that stands at the first occurrence of
/// `signature` swapped for `new`.
pub open spec fn block_swapped(content: Seq<char>, signature: Seq<char>, old: Seq<char>, new: Seq<char>) -> Seq<char> {
    content.take(find(content, signature)->0) + new + content.skip(find(content, signature)->0 + old.len())
}

/// A text that agrees with another up to the end of the first occurrence of
/// a pattern in it has its first occurrence at the same place.
proof fn lemma_first_match_kept(t: Seq<char>, s: Seq<char>, pat: Seq<char>, i: int)
    requires
        find(t, pat) == Some(i),
        i + pat.len() <= s.len(),
        i + pat.len() <= t.len(),
        s.take(i + pat.len()) == t.take(i + pat.len()),
    ensures
        find(s, pat) == Some(i),
{
    crate::text::lemma_find_from(t, pat, 0);
    assert(s.subrange(i, i + pat.len()) =~= t.subrange(i, i + pat.len())) by {
        assert forall|k: int| 0 <= k < pat.len() implies #[trigger] s.subrange(i, i + pat.len())[k]
            == t.subrange(i, i + pat.len())[k] by {
            assert(s.take(i + pat.len())[i + k] == s[i + k]);
            assert(t.take(i + pat.len())[i + k] == t[i + k]);
            assert(s.subrange(i, i + pat.len())[k] == s[i + k]);
            assert(t.subrange(i, i + pat.len())[k] == t[i + k]);
        }
    }
    assert forall|p: int| 0 <= p < i implies !#[trigger] matches_at(s, pat, p) by {
        if matches_at(s, pat, p) {
            assert(s.subrange(p, p + pat.len()) =~= t.subrange(p, p + pat.len())) by {
                assert forall|k: int| 0 <= k < pat.len() implies #[trigger] s.subrange(p, p + pat.len())[k]
                    == t.subrange(p, p + pat.len())[k] by {
                    assert(s.take(i + pat.len())[p + k] == s[p + k]);
                    assert(t.take(i + pat.len())[p + k] == t[p + k]);
                    assert(s.subrange(p, p + pat.len())[k] == s[p + k]);
                    assert(t.subrange(p, p + pat.len())[k] == t[p + k]);
                }
            }
            assert(matches_at(t, pat, p));
        }
    }
    lemma_find_is(s, pat, i);
}

/// A drifted guard function is upgraded while its marker is present: in a
/// patched `mainGui.js` (current guard function and ethernet wiring at the
/// first occurrences of their signatures), swap the guard function for
/// another function with the same signature whose opening brace is
/// balanced at its end, keeping the guard marker in the text. Patching that
/// text gives back the patched one and reports a change, and patching the
/// patched text reports no change and keeps it.
pub proof fn lemma_stale_guard_body_is_upgraded(patched: Seq<char>, body: Seq<char>)
    requires
        block_in_place(patched, FN_SIGNATURE@, NEW_FN@),
        block_in_place(patched, ETH_SIGNATURE@, NEW_SNIPPET@),
        FN_SIGNATURE@.len() <= body.len(),
        body.take(FN_SIGNATURE@.len() as int) == FN_SIGNATURE@,
        matching_close(body, FN_SIGNATURE@.len() - 1, '{', '}') == Some(body.len() - 1),
        body != NEW_FN@,
        contains(block_swapped(patched, FN_SIGNATURE@, NEW_FN@, body), ICON_GUARD_MARKER@),
    ensures
        eth_icon_patch(block_swapped(patched, FN_SIGNATURE@, NEW_FN@, body))
            == Ok::<(Seq<char>, bool), EthIconError>((patched, true)),
        eth_icon_patch(patched) == Ok::<(Seq<char>, bool), EthIconError>((patched, false)),
{
    reveal_strlit("function _appendSimpleChildren(icon, value, unit, addChild, iconsPosition) {");
    lemma_edit_texts_clash();
    lemma_new_fn_shape();
    lemma_new_snippet_shape();
    let sig = FN_SIGNATURE@;
    let i = find(patched, sig)->0;
    crate::text::lemma_find_from(patched, sig, 0);
    let stale = block_swapped(patched, sig, NEW_FN@, body);
    assert(stale.take(i + sig.len()) =~= patched.take(i + sig.len())) by {
        assert forall|x: int| 0 <= x < i + sig.len() implies stale[x] == patched[x] by {
            if x >= i {
                assert(stale[x] == body[x - i]);
                assert(body.take(sig.len() as int)[x - i] == sig[x - i]);
                assert(patched.subrange(i, i + NEW_FN@.len())[x - i] == patched[x]);
                assert(NEW_FN@.take(sig.len() as int)[x - i] == sig[x - i]);
            }
        }
    }
    lemma_first_match_kept(patched, stale, sig, i);
    assert(stale.subrange(i, i + body.len()) =~= body);
    assert forall|x: int| 0 <= x < 75 implies body[x] != '{' by {
        assert(body.take(sig.len() as int)[x] == sig[x]);
    }
    assert(body[75] == '{') by {
        assert(body.take(sig.len() as int)[75] == sig[75]);
    }
    lemma_find_char(body, '{', 0, 75);
    lemma_balanced_block_found(stale, sig, '{', '}', None, body, NEW_FN@);
    assert(stale.take(i) + NEW_FN@ + stale.skip(i + body.len()) =~= patched) by {
        assert(patched.subrange(i, i + NEW_FN@.len()) == NEW_FN@);
        assert forall|x: int| i <= x < i + NEW_FN@.len() implies patched[x] == NEW_FN@[x - i] by {
            assert(patched.subrange(i, i + NEW_FN@.len())[x - i] == patched[x]);
        }
    }
    assert(guard_step(stale) == Ok::<(Seq<char>, bool), EthIconError>((patched, true)));
    lemma_in_place_contains(patched, ETH_SIGNATURE@, NEW_SNIPPET@, ETH_MARKER@);
    lemma_balanced_block_in_place(patched, ETH_SIGNATURE@, '(', ')', Some(';'), NEW_SNIPPET@);
    lemma_patched_main_gui_is_fixed(patched);
}

/// A drifted ethernet wiring is upgraded while its marker is present: in a
/// patched `mainGui.js`, swap the wiring call for another call with the
/// same call site whose first parenthesis is balanced just before a closing
/// `;` at its end, keeping the wiring marker in the text and the current
/// guard function at the first occurrence of its signature. Patching that
/// text gives back the patched one and reports a change, and patching the
/// patched text reports no change and keeps it.
pub proof fn lemma_stale_wiring_is_upgraded(patched: Seq<char>, call: Seq<char>)
    requires
        block_in_place(patched, FN_SIGNATURE@, NEW_FN@),
        block_in_place(patched, ETH_SIGNATURE@, NEW_SNIPPET@),
        ETH_SIGNATURE@.len() <= call.len(),
        call.take(ETH_SIGNATURE@.len() as int) == ETH_SIGNATURE@,
        find_from(call, seq!['('], 0) matches Some(o) && matching_close(call, o, '(', ')') == Some(call.len() - 2),
        call[call.len() - 1] == ';',
        call != NEW_SNIPPET@,
        contains(block_swapped(patched, ETH_SIGNATURE@, NEW_SNIPPET@, call), ETH_MARKER@),
        block_in_place(block_swapped(patched, ETH_SIGNATURE@, NEW_SNIPPET@, call), FN_SIGNATURE@, NEW_FN@),
    ensures
        eth_icon_patch(block_swapped(patched, ETH_SIGNATURE@, NEW_SNIPPET@, call))
            == Ok::<(Seq<char>, bool), EthIconError>((patched, true)),
        eth_icon_patch(patched) == Ok::<(Seq<char>, bool), EthIconError>((patched, false)),
{
    reveal_strlit("  _replaceGroupChildren(indicator._ethGroup, (addChild) =>");
    lemma_edit_texts_clash();
    lemma_new_fn_shape();
    lemma_new_snippet_shape();
    let sig = ETH_SIGNATURE@;
    let w = find(patched, sig)->0;
    crate::text::lemma_find_from(patched, sig, 0);
    let stale = block_swapped(patched, sig, NEW_SNIPPET@, call);
    // The guard function is untouched.
    lemma_in_place_contains(stale, FN_SIGNATURE@, NEW_FN@, ICON_GUARD_MARKER@);
    lemma_balanced_block_in_place(stale, FN_SIGNATURE@, '{', '}', None, NEW_FN@);
    assert(guard_step(stale) == Ok::<(Seq<char>, bool), EthIconError>((stale, false)));
    // The wiring call is found where it was.
    assert(stale.take(w + sig.len()) =~= patched.take(w + sig.len())) by {
        assert forall|x: int| 0 <= x < w + sig.len() implies stale[x] == patched[x] by {
            if x >= w {
                assert(stale[x] == call[x - w]);
                assert(call.take(sig.len() as int)[x - w] == sig[x - w]);
                assert(patched.subrange(w, w + NEW_SNIPPET@.len())[x - w] == patched[x]);
                assert(NEW_SNIPPET@.take(sig.len() as int)[x - w] == sig[x - w]);
            }
        }
    }
    lemma_first_match_kept(patched, stale, sig, w);
    assert(stale.subrange(w, w + call.len()) =~= call);
    assert forall|x: int| 0 <= x < 23 implies call[x] != '(' by {
        assert(call.take(sig.len() as int)[x] == sig[x]);
    }
    assert(call[23] == '(') by {
        assert(call.take(sig.len() as int)[23] == sig[23]);
    }
    lemma_find_char(call, '(', 0, 23);
    lemma_balanced_block_found(stale, sig, '(', ')', Some(';'), call, NEW_SNIPPET@);
    assert(stale.take(w) + NEW_SNIPPET@ + stale.skip(w + call.len()) =~= patched) by {
        assert forall|x: int| w <= x < w + NEW_SNIPPET@.len() implies patched[x] == NEW_SNIPPET@[x - w] by {
            assert(patched.subrange(w, w + NEW_SNIPPET@.len())[x - w] == patched[x]);
        }
    }
    assert(wiring_step(stale) == Ok::<(Seq<char>, bool), EthIconError>((patched, true)));
    lemma_patched_main_gui_is_fixed(patched);
}

// ── Progress lines ───────────────────────────────────────────────────────────

/// Printed when a drifted guard body is upgraded.
pub const NOTE_GUARD_UPGRADED: &'static str = "Upgraded stale _appendSimpleChildren null-icon guard body";
/// Printed when the null-icon guard is added.
pub const NOTE_GUARDED: &'static str = "Guarded _appendSimpleChildren against null icon (eth-icon patch)";
/// Printed when drifted ethernet wiring is upgraded.
pub const NOTE_WIRING_UPGRADED: &'static str = "Upgraded stale ethernet display icon wiring";
/// Printed when the ethernet icon is removed.
pub const NOTE_ICON_REMOVED: &'static str = "Removed ethernet display icon (value/unit preserved)";

/// The progress line of one guarded edit: reported only when it changed the
/// text, naming an upgrade when the marker was already there.
pub open spec fn edit_note(
    content: Seq<char>,
    marker: Seq<char>,
    outcome: Result<(Seq<char>, bool), EthIconError>,
    upgraded: Seq<char>,
    applied: Seq<char>,
) -> Seq<Seq<char>> {
    match outcome {
        Ok((_, true)) => seq![
            if contains(content, marker) {
                upgraded
            } else {
                applied
            },
        ],
        _ => Seq::empty(),
    }
}

/// The progress lines [`patch_main_gui`] reports for `content`, in order
/// (including those of a first edit that precede a failing second one).
pub open spec fn eth_icon_notes(content: Seq<char>) -> Seq<Seq<char>> {
    let guard = guard_step(content);
    edit_note(content, ICON_GUARD_MARKER@, guard, NOTE_GUARD_UPGRADED@, NOTE_GUARDED@) + match guard {
        Ok((c1, _)) => edit_note(c1, ETH_MARKER@, wiring_step(c1), NOTE_WIRING_UPGRADED@, NOTE_ICON_REMOVED@),
        Err(_) => Seq::empty(),
    }
}

/// The progress lines [`patch_main_gui`] reports for `content`.
pub fn patch_progress(content: &str) -> (r: Vec<&'static str>)
    ensures
        strs_view(r@) == eth_icon_notes(content@),
{
    let mut notes: Vec<&'static str> = Vec::new();
    let guard_marked = contains_str(str_chars(content).as_slice(), ICON_GUARD_MARKER);
    let guard = guarded_edit_exec(
        content.to_owned(),
        ICON_GUARD_MARKER,
        FN_SIGNATURE,
        '{',
        '}',
        None,
        OLD_FN,
        NEW_FN,
        EthIconError::MissingAppendSimpleChildren,
    );
    match guard {
        Ok((c1, ch1)) => {
            if ch1 {
                notes.push(if guard_marked { NOTE_GUARD_UPGRADED } else { NOTE_GUARDED });
            }
            let wiring_marked = contains_str(str_chars(c1.as_str()).as_slice(), ETH_MARKER);
            let ghost c1v = c1@;
            let wiring = guarded_edit_exec(
                c1,
                ETH_MARKER,
                ETH_SIGNATURE,
                '(',
                ')',
                Some(';'),
                OLD_SNIPPET,
                NEW_SNIPPET,
                EthIconError::MissingEthWiring,
            );
            match wiring {
                Ok((_, ch2)) => {
                    if ch2 {
                        notes.push(if wiring_marked { NOTE_WIRING_UPGRADED } else { NOTE_ICON_REMOVED });
                    }
                },
                Err(_) => {},
            }
            assert(strs_view(notes@) =~= eth_icon_notes(content@));
        },
        Err(_) => {
            assert(strs_view(notes@) =~= eth_icon_notes(content@));
        },
    }
    notes
}

} // verus!
