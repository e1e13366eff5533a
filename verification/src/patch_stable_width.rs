//! Reserve (or release) fixed value-label widths so the panel does not shift
//! as metric values change digit count.
//!
//! The extension's upstream `*width` GSettings reserve the primary value
//! labels, but two labels have no such GSetting: the disk-space secondary
//! "activity %" value, and the GPU VRAM value (upstream shares the single
//! `gpuwidth` with the GPU usage percentage). This patch reserves both by
//! setting `element.width`, as the extension does for the primary values.
//!
//! Modes: `stable` (default) applies the reservations; `compact` removes
//! them. The disk-space reservation only applies when the per-disk patch has
//! already injected the secondary activity labels; without them the disk
//! section is skipped and the GPU VRAM split still runs.

use vstd::prelude::*;
use crate::patch_text::{lemma_absent_survives, lemma_block_survives, lemma_match_survives, lemma_none_before_survives};
use crate::text::{
    chars_string, clash_at, clash_from, contains, contains_str, find, lemma_contains_at, lemma_find_from,
    lemma_matches_within, lemma_no_overlap, lemma_replace_commutes, lemma_replace_first_has_rep, lemma_replace_undone,
    lemma_replace_undone_marked, matches_at, push_all, replace_first,
    replace_first_str, str_chars, str_eq, strs_view,
};

verus! {

/// Accepted `--mode` values, in the order the usage message lists them.
pub const MODES: [&'static str; 2] = ["stable", "compact"];

pub const DISK_MARKER: &'static str = "Space separator between disk-space activity percent and its unit (stable width)";

pub const GPU_MARKER: &'static str = "VRAM value (0-99 GB, 2 digits) gets its own tighter reserved";

pub const DISK_UPSTREAM_ADD: &'static str = r#"      const spaceSep = new St.Label({ text: "  " });

      this.add_child(this._elementsName[filesystem]);
      this.add_child(this._elementsValue[filesystem]);
      this.add_child(this._elementsUnit[filesystem]);
      this.add_child(spaceSep);
      this.add_child(this._elementsSecondaryValue[filesystem]);
      this.add_child(this._elementsSecondaryUnit[filesystem]);"#;

pub const DISK_PATCHED_ADD: &'static str = r#"      const spaceSep = new St.Label({ text: "  " });

      this.add_child(this._elementsName[filesystem]);
      this.add_child(this._elementsValue[filesystem]);
      this.add_child(this._elementsUnit[filesystem]);
      this.add_child(spaceSep);
      // Space separator between disk-space activity percent and its unit (stable width)
      this._elementsSecondaryValue[filesystem].width = this._diskActivityWidth;
      this.add_child(this._elementsSecondaryValue[filesystem]);
      this.add_child(this._elementsSecondaryUnit[filesystem]);"#;

pub const DISK_UPSTREAM_INIT: &'static str = r#"  class DiskContainerSpace extends DiskContainer {
    _init() {
      super._init();

      this._elementsSecondaryValue = [];
      this._elementsSecondaryUnit = [];
    }"#;

pub const DISK_PATCHED_INIT: &'static str = r#"  class DiskContainerSpace extends DiskContainer {
    _init() {
      super._init();

      // Stable reserved width (px, pre-scale) for the disk-space secondary
      // activity percentage so it does not shift the panel as digits change.
      // Covers the 3-digit worst case "100" at the panel font with slack;
      // secondary values render at 0.92em so this comfortably fits it.
      this._diskActivityWidth = 24;

      this._elementsSecondaryValue = [];
      this._elementsSecondaryUnit = [];
    }"#;

pub const GPU_UPSTREAM_INIT: &'static str = r#"  class GpuContainer extends St.BoxLayout {
    _init() {
      super._init();

      this._elementsUuid = [];
      this._elementsName = [];
      this._elementsValue = [];
      this._elementsUnit = [];
      this._elementsMemoryValue = [];
      this._elementsMemoryUnit = [];
      this._elementsThermalValue = [];
      this._elementsThermalUnit = [];
      this._separatorPairs = [];
    }"#;

pub const GPU_PATCHED_INIT: &'static str = r#"  class GpuContainer extends St.BoxLayout {
    _init() {
      super._init();

      this._elementsUuid = [];
      this._elementsName = [];
      this._elementsValue = [];
      this._elementsUnit = [];
      this._elementsMemoryValue = [];
      this._elementsMemoryUnit = [];
      this._elementsThermalValue = [];
      this._elementsThermalUnit = [];
      // Stable reserved width (px, pre-scale) for the GPU VRAM value so it
      // stays snug beside the GPU usage percentage. VRAM is numeric GB, at
      // most 2 digits ("99"), measured ~16px at the panel font; the value
      // label is separate from its unit, so this covers the widest reading.
      this._gpuMemoryWidth = 16;
      this._separatorPairs = [];
    }"#;

pub const GPU_UPSTREAM_SET: &'static str = r#"      } else {
        this._elementsUuid.forEach((element) => {
          if (this._elementsValue[element] !== undefined) {
            this._elementsValue[element].width = width;
          }

          if (this._elementsMemoryValue[element] !== undefined) {
            this._elementsMemoryValue[element].width = width;
          }
        });
      }"#;

pub const GPU_PATCHED_SET: &'static str = r#"      } else {
        this._elementsUuid.forEach((element) => {
          if (this._elementsValue[element] !== undefined) {
            this._elementsValue[element].width = width;
          }

          if (this._elementsMemoryValue[element] !== undefined) {
            // VRAM value (0-99 GB, 2 digits) gets its own tighter reserved
            // width so it stays snug next to the GPU usage percentage.
            this._elementsMemoryValue[element].width = this._gpuMemoryWidth;
          }
        });
      }"#;

/// Failure while applying or reverting the stable-width reservations.
#[derive(Debug, PartialEq, Eq, Clone, Copy)]
pub enum StableWidthError {
    /// The compact-mode revert could not find the disk-space edit to remove.
    MissingDiskCompactAdd,
    /// The compact-mode revert could not find the disk width constant.
    MissingDiskCompactInit,
    /// The stable-mode patch could not find the disk-space `add_element` body.
    MissingDiskAdd,
    /// The stable-mode patch could not find `DiskContainerSpace._init`.
    MissingDiskInit,
    /// The compact-mode revert could not find the VRAM width assignment.
    MissingGpuCompactSet,
    /// The compact-mode revert could not find the VRAM width constant.
    MissingGpuCompactInit,
    /// The stable-mode patch could not find `GpuContainer._init`.
    MissingGpuInit,
    /// The stable-mode patch could not find `set_element_width`'s else branch.
    MissingGpuSet,
}

/// The message of each error.
pub open spec fn stable_width_error_message(e: StableWidthError) -> Seq<char> {
    match e {
        StableWidthError::MissingDiskCompactAdd => "Could not find disk-space stable-width edit to remove in containers.js"@,
        StableWidthError::MissingDiskCompactInit => "Could not find DiskContainerSpace._init stable-width constant to remove"@,
        StableWidthError::MissingDiskAdd => "Could not find disk-space target code in containers.js - unsupported Resource Monitor version (or rm_per_disk not applied yet)"@,
        StableWidthError::MissingDiskInit => "Could not find DiskContainerSpace._init in containers.js"@,
        StableWidthError::MissingGpuCompactSet => "Could not find GpuContainer.set_element_width VRAM edit to remove"@,
        StableWidthError::MissingGpuCompactInit => "Could not find GpuContainer._init VRAM width constant to remove"@,
        StableWidthError::MissingGpuInit => "Could not find GpuContainer._init in containers.js"@,
        StableWidthError::MissingGpuSet => "Could not find GpuContainer.set_element_width else-branch in containers.js"@,
    }
}

impl StableWidthError {
    /// The error's message.
    pub fn message(&self) -> (r: &'static str)
        ensures
            r@ == stable_width_error_message(*self),
    {
        match self {
            StableWidthError::MissingDiskCompactAdd => "Could not find disk-space stable-width edit to remove in containers.js",
            StableWidthError::MissingDiskCompactInit => "Could not find DiskContainerSpace._init stable-width constant to remove",
            StableWidthError::MissingDiskAdd => "Could not find disk-space target code in containers.js - unsupported Resource Monitor version (or rm_per_disk not applied yet)",
            StableWidthError::MissingDiskInit => "Could not find DiskContainerSpace._init in containers.js",
            StableWidthError::MissingGpuCompactSet => "Could not find GpuContainer.set_element_width VRAM edit to remove",
            StableWidthError::MissingGpuCompactInit => "Could not find GpuContainer._init VRAM width constant to remove",
            StableWidthError::MissingGpuInit => "Could not find GpuContainer._init in containers.js",
            StableWidthError::MissingGpuSet => "Could not find GpuContainer.set_element_width else-branch in containers.js",
        }
    }
}

/// `from` replaced by `to` once, or `err` when `from` is absent.
pub open spec fn replace_or_spec(
    content: Seq<char>,
    from: Seq<char>,
    to: Seq<char>,
    err: StableWidthError,
) -> Result<Seq<char>, StableWidthError> {
    if contains(content, from) {
        Ok(replace_first(content, from, to))
    } else {
        Err(err)
    }
}

/// Two replacements in a row, each required.
pub open spec fn replace_pair(
    content: Seq<char>,
    from1: Seq<char>,
    to1: Seq<char>,
    err1: StableWidthError,
    from2: Seq<char>,
    to2: Seq<char>,
    err2: StableWidthError,
) -> Result<(Seq<char>, bool), StableWidthError> {
    match replace_or_spec(content, from1, to1, err1) {
        Err(e) => Err(e),
        Ok(c1) => match replace_or_spec(c1, from2, to2, err2) {
            Err(e) => Err(e),
            Ok(c2) => Ok((c2, true)),
        },
    }
}

/// The disk-space reservation step.
pub open spec fn disk_step(content: Seq<char>, compact: bool) -> Result<(Seq<char>, bool), StableWidthError> {
    if compact {
        if contains(content, DISK_MARKER@) {
            replace_pair(
                content,
                DISK_PATCHED_ADD@,
                DISK_UPSTREAM_ADD@,
                StableWidthError::MissingDiskCompactAdd,
                DISK_PATCHED_INIT@,
                DISK_UPSTREAM_INIT@,
                StableWidthError::MissingDiskCompactInit,
            )
        } else {
            Ok((content, false))
        }
    } else if !contains(content, DISK_MARKER@) && contains(content, DISK_UPSTREAM_ADD@) {
        replace_pair(
            content,
            DISK_UPSTREAM_ADD@,
            DISK_PATCHED_ADD@,
            StableWidthError::MissingDiskAdd,
            DISK_UPSTREAM_INIT@,
            DISK_PATCHED_INIT@,
            StableWidthError::MissingDiskInit,
        )
    } else {
        Ok((content, false))
    }
}

/// The GPU VRAM width step.
pub open spec fn gpu_step(content: Seq<char>, compact: bool) -> Result<(Seq<char>, bool), StableWidthError> {
    if compact {
        if contains(content, GPU_MARKER@) {
            replace_pair(
                content,
                GPU_PATCHED_SET@,
                GPU_UPSTREAM_SET@,
                StableWidthError::MissingGpuCompactSet,
                GPU_PATCHED_INIT@,
                GPU_UPSTREAM_INIT@,
                StableWidthError::MissingGpuCompactInit,
            )
        } else {
            Ok((content, false))
        }
    } else if !contains(content, GPU_MARKER@) {
        replace_pair(
            content,
            GPU_UPSTREAM_INIT@,
            GPU_PATCHED_INIT@,
            StableWidthError::MissingGpuInit,
            GPU_UPSTREAM_SET@,
            GPU_PATCHED_SET@,
            StableWidthError::MissingGpuSet,
        )
    } else {
        Ok((content, false))
    }
}

/// Result of [`patch_containers`].
pub open spec fn stable_width_patch(content: Seq<char>, compact: bool) -> Result<(Seq<char>, bool), StableWidthError> {
    match disk_step(content, compact) {
        Err(e) => Err(e),
        Ok((c1, ch1)) => match gpu_step(c1, compact) {
            Err(e) => Err(e),
            Ok((c2, ch2)) => Ok((c2, ch1 || ch2)),
        },
    }
}

/// `from` replaced by `to` once, or `err` when `from` is absent.
fn replace_or(content: &[char], from: &str, to: &str, err: StableWidthError) -> (r: Result<Vec<char>, StableWidthError>)
    ensures
        match replace_or_spec(content@, from@, to@, err) {
            Ok(t) => r matches Ok(v) && v@ == t,
            Err(e) => r == Err::<Vec<char>, StableWidthError>(e),
        },
{
    if !contains_str(content, from) {
        return Err(err);
    }
    Ok(replace_first_str(content, from, to))
}

/// Two required replacements in a row.
fn replace_two(
    content: &[char],
    from1: &str,
    to1: &str,
    err1: StableWidthError,
    from2: &str,
    to2: &str,
    err2: StableWidthError,
) -> (r: Result<Vec<char>, StableWidthError>)
    ensures
        match replace_pair(content@, from1@, to1@, err1, from2@, to2@, err2) {
            Ok((t, _)) => r matches Ok(v) && v@ == t,
            Err(e) => r == Err::<Vec<char>, StableWidthError>(e),
        },
{
    let c1 = match replace_or(content, from1, to1, err1) {
        Ok(v) => v,
        Err(e) => return Err(e),
    };
    replace_or(c1.as_slice(), from2, to2, err2)
}

/// The disk-space step on characters.
fn disk_step_exec(c: &[char], compact: bool) -> (r: Result<(Vec<char>, bool), StableWidthError>)
    ensures
        match disk_step(c@, compact) {
            Ok((t, changed)) => r matches Ok((v, ch)) && v@ == t && ch == changed,
            Err(e) => r == Err::<(Vec<char>, bool), StableWidthError>(e),
        },
{
    let marked = contains_str(c, DISK_MARKER);
    let replaced = if compact {
        if !marked {
            None
        } else {
            Some(
                replace_two(
                    c,
                    DISK_PATCHED_ADD,
                    DISK_UPSTREAM_ADD,
                    StableWidthError::MissingDiskCompactAdd,
                    DISK_PATCHED_INIT,
                    DISK_UPSTREAM_INIT,
                    StableWidthError::MissingDiskCompactInit,
                ),
            )
        }
    } else if !marked && contains_str(c, DISK_UPSTREAM_ADD) {
        Some(
            replace_two(
                c,
                DISK_UPSTREAM_ADD,
                DISK_PATCHED_ADD,
                StableWidthError::MissingDiskAdd,
                DISK_UPSTREAM_INIT,
                DISK_PATCHED_INIT,
                StableWidthError::MissingDiskInit,
            ),
        )
    } else {
        None
    };
    match replaced {
        None => Ok((copy_chars(c), false)),
        Some(Ok(v)) => Ok((v, true)),
        Some(Err(e)) => Err(e),
    }
}

/// The GPU step on characters.
fn gpu_step_exec(c: &[char], compact: bool) -> (r: Result<(Vec<char>, bool), StableWidthError>)
    ensures
        match gpu_step(c@, compact) {
            Ok((t, changed)) => r matches Ok((v, ch)) && v@ == t && ch == changed,
            Err(e) => r == Err::<(Vec<char>, bool), StableWidthError>(e),
        },
{
    let marked = contains_str(c, GPU_MARKER);
    let replaced = if compact {
        if !marked {
            None
        } else {
            Some(
                replace_two(
                    c,
                    GPU_PATCHED_SET,
                    GPU_UPSTREAM_SET,
                    StableWidthError::MissingGpuCompactSet,
                    GPU_PATCHED_INIT,
                    GPU_UPSTREAM_INIT,
                    StableWidthError::MissingGpuCompactInit,
                ),
            )
        }
    } else if !marked {
        Some(
            replace_two(
                c,
                GPU_UPSTREAM_INIT,
                GPU_PATCHED_INIT,
                StableWidthError::MissingGpuInit,
                GPU_UPSTREAM_SET,
                GPU_PATCHED_SET,
                StableWidthError::MissingGpuSet,
            ),
        )
    } else {
        None
    };
    match replaced {
        None => Ok((copy_chars(c), false)),
        Some(Ok(v)) => Ok((v, true)),
        Some(Err(e)) => Err(e),
    }
}

/// A copy of `c`.
fn copy_chars(c: &[char]) -> (r: Vec<char>)
    ensures
        r@ == c@,
{
    let mut v: Vec<char> = Vec::new();
    push_all(&mut v, c);
    assert(v@ =~= c@);
    v
}

/// Apply (or, with `compact`, revert) both stable-width reservations in
/// `containers.js` content. Returns the patched content and whether
/// anything changed.
pub fn patch_containers(content: &str, compact: bool) -> (r: Result<(String, bool), StableWidthError>)
    ensures
        match stable_width_patch(content@, compact) {
            Ok((t, changed)) => r matches Ok((s, c)) && s@ == t && c == changed,
            Err(e) => r matches Err(e2) && e2 == e,
        },
{
    let c = str_chars(content);
    let (c1, ch1) = match disk_step_exec(c.as_slice(), compact) {
        Ok(x) => x,
        Err(e) => return Err(e),
    };
    let (c2, ch2) = match gpu_step_exec(c1.as_slice(), compact) {
        Ok(x) => x,
        Err(e) => return Err(e),
    };
    Ok((chars_string(c2.as_slice()), ch1 || ch2))
}

// ── Progress lines ───────────────────────────────────────────────────────────

pub const NOTE_DISK_RELEASED: &'static str = "Released disk-space activity percent width (compact mode)";
pub const NOTE_DISK_ALREADY_COMPACT: &'static str = "Disk-space activity percent width already compact";
pub const NOTE_DISK_RESERVED: &'static str = "Reserved disk-space activity percent width (stable-width patch)";
pub const NOTE_DISK_SKIPPED: &'static str = "Disk-space secondary activity labels absent; skipping disk stable-width (select rm_per_disk for that reservation)";
pub const NOTE_GPU_RELEASED: &'static str = "Released GPU VRAM width back to shared GPU usage width (compact mode)";
pub const NOTE_GPU_ALREADY_COMPACT: &'static str = "GPU VRAM width already compact";
pub const NOTE_GPU_SPLIT: &'static str = "Split GPU usage / VRAM reserved widths (stable-width patch)";

/// The line reported after a step that changes the text, when it succeeds.
pub open spec fn on_success(
    outcome: Result<(Seq<char>, bool), StableWidthError>,
    note: Seq<char>,
) -> Seq<Seq<char>> {
    if outcome is Ok {
        seq![note]
    } else {
        Seq::empty()
    }
}

/// The progress lines of the disk-space step.
pub open spec fn disk_notes(content: Seq<char>, compact: bool) -> Seq<Seq<char>> {
    let marked = contains(content, DISK_MARKER@);
    if compact {
        if marked {
            on_success(disk_step(content, compact), NOTE_DISK_RELEASED@)
        } else {
            seq![NOTE_DISK_ALREADY_COMPACT@]
        }
    } else if marked {
        Seq::empty()
    } else if contains(content, DISK_UPSTREAM_ADD@) {
        on_success(disk_step(content, compact), NOTE_DISK_RESERVED@)
    } else {
        seq![NOTE_DISK_SKIPPED@]
    }
}

/// The progress lines of the GPU step.
pub open spec fn gpu_notes(content: Seq<char>, compact: bool) -> Seq<Seq<char>> {
    let marked = contains(content, GPU_MARKER@);
    if compact {
        if marked {
            on_success(gpu_step(content, compact), NOTE_GPU_RELEASED@)
        } else {
            seq![NOTE_GPU_ALREADY_COMPACT@]
        }
    } else if marked {
        Seq::empty()
    } else {
        on_success(gpu_step(content, compact), NOTE_GPU_SPLIT@)
    }
}

/// The progress lines [`patch_containers`] reports, in order.
pub open spec fn stable_width_notes(content: Seq<char>, compact: bool) -> Seq<Seq<char>> {
    disk_notes(content, compact) + match disk_step(content, compact) {
        Ok((c1, _)) => gpu_notes(c1, compact),
        Err(_) => Seq::empty(),
    }
}

/// The progress lines [`patch_containers`] reports for `content` in the
/// given mode: what each step reserved, released or skipped.
pub fn patch_progress(content: &str, compact: bool) -> (r: Vec<&'static str>)
    ensures
        strs_view(r@) == stable_width_notes(content@, compact),
{
    let c = str_chars(content);
    let mut notes: Vec<&'static str> = Vec::new();
    let disk_marked = contains_str(c.as_slice(), DISK_MARKER);
    let disk = disk_step_exec(c.as_slice(), compact);
    if compact {
        if disk_marked {
            if disk.is_ok() {
                notes.push(NOTE_DISK_RELEASED);
            }
        } else {
            notes.push(NOTE_DISK_ALREADY_COMPACT);
        }
    } else if !disk_marked {
        if contains_str(c.as_slice(), DISK_UPSTREAM_ADD) {
            if disk.is_ok() {
                notes.push(NOTE_DISK_RESERVED);
            }
        } else {
            notes.push(NOTE_DISK_SKIPPED);
        }
    }
    assert(strs_view(notes@) =~= disk_notes(content@, compact));
    let ghost first = strs_view(notes@);
    match disk {
        Ok((c1, _)) => {
            let gpu_marked = contains_str(c1.as_slice(), GPU_MARKER);
            let gpu = gpu_step_exec(c1.as_slice(), compact);
            if compact {
                if gpu_marked {
                    if gpu.is_ok() {
                        notes.push(NOTE_GPU_RELEASED);
                    }
                } else {
                    notes.push(NOTE_GPU_ALREADY_COMPACT);
                }
            } else if !gpu_marked {
                if gpu.is_ok() {
                    notes.push(NOTE_GPU_SPLIT);
                }
            }
            assert(strs_view(notes@) =~= first + gpu_notes(c1@, compact));
        },
        Err(_) => {
            assert(strs_view(notes@) =~= first + Seq::<Seq<char>>::empty());
        },
    }
    notes
}

/// Whether `mode` names a stable-width mode: `Some(compact)` for `stable`
/// (false) and `compact` (true), `None` for anything else.
pub fn parse_mode(mode: &str) -> (r: Option<bool>)
    ensures
        mode@ == "stable"@ ==> r == Some(false),
        mode@ == "compact"@ ==> r == Some(true),
        mode@ != "stable"@ && mode@ != "compact"@ ==> r is None,
{
    proof {
        reveal_strlit("stable");
        reveal_strlit("compact");
        assert("stable"@[0] != "compact"@[0]);
    }
    if str_eq(mode, "stable") {
        Some(false)
    } else if str_eq(mode, "compact") {
        Some(true)
    } else {
        None
    }
}

// ── Laws ─────────────────────────────────────────────────────────────────────

/// Stable mode leaves a reserved file alone: when the text carries the GPU
/// reservation marker, and the disk reservation marker or no disk-space
/// activity labels to reserve, the stable patch succeeds, reports no change
/// and keeps the text.
pub proof fn lemma_stable_reserved_is_fixed(content: Seq<char>)
    requires
        contains(content, GPU_MARKER@),
        contains(content, DISK_MARKER@) || !contains(content, DISK_UPSTREAM_ADD@),
    ensures
        stable_width_patch(content, false) == Ok::<(Seq<char>, bool), StableWidthError>((content, false)),
{
}

/// Compact mode leaves a released file alone: with neither reservation
/// marker present, the compact patch succeeds, reports no change and keeps
/// the text.
pub proof fn lemma_compact_released_is_fixed(content: Seq<char>)
    requires
        !contains(content, GPU_MARKER@),
        !contains(content, DISK_MARKER@),
    ensures
        stable_width_patch(content, true) == Ok::<(Seq<char>, bool), StableWidthError>((content, false)),
{
}

/// The literal facts the stable-mode law rests on: the markers sit inside
/// the reserved forms, and no text an edit replaces or writes can overlap a
/// marker (or the disk labels) that a later step must still see.
proof fn lemma_stable_texts_clash()
    ensures
        matches_at(DISK_PATCHED_ADD@, DISK_MARKER@, 258),
        matches_at(GPU_PATCHED_SET@, GPU_MARKER@, 275),
        clash_from(DISK_UPSTREAM_INIT@, DISK_MARKER@, 0),
        clash_from(DISK_MARKER@, DISK_UPSTREAM_INIT@, 1),
        clash_from(DISK_UPSTREAM_ADD@, GPU_MARKER@, 0),
        clash_from(GPU_MARKER@, DISK_UPSTREAM_ADD@, 1),
        clash_from(DISK_UPSTREAM_INIT@, GPU_MARKER@, 0),
        clash_from(GPU_MARKER@, DISK_UPSTREAM_INIT@, 1),
        clash_from(DISK_PATCHED_ADD@, GPU_MARKER@, 0),
        clash_from(GPU_MARKER@, DISK_PATCHED_ADD@, 1),
        clash_from(DISK_PATCHED_INIT@, GPU_MARKER@, 0),
        clash_from(GPU_MARKER@, DISK_PATCHED_INIT@, 1),
        clash_from(GPU_UPSTREAM_INIT@, DISK_MARKER@, 0),
        clash_from(DISK_MARKER@, GPU_UPSTREAM_INIT@, 1),
        clash_from(GPU_UPSTREAM_SET@, DISK_MARKER@, 0),
        clash_from(DISK_MARKER@, GPU_UPSTREAM_SET@, 1),
        clash_from(GPU_PATCHED_INIT@, DISK_UPSTREAM_ADD@, 0),
        clash_from(DISK_UPSTREAM_ADD@, GPU_PATCHED_INIT@, 1),
        clash_from(GPU_PATCHED_SET@, DISK_UPSTREAM_ADD@, 0),
        clash_from(DISK_UPSTREAM_ADD@, GPU_PATCHED_SET@, 1),
{
    reveal_strlit("Space separator between disk-space activity percent and its unit (stable width)");
    reveal_strlit("VRAM value (0-99 GB, 2 digits) gets its own tighter reserved");
    reveal_strlit(r#"      const spaceSep = new St.Label({ text: "  " });

      this.add_child(this._elementsName[filesystem]);
      this.add_child(this._elementsValue[filesystem]);
      this.add_child(this._elementsUnit[filesystem]);
      this.add_child(spaceSep);
      this.add_child(this._elementsSecondaryValue[filesystem]);
      this.add_child(this._elementsSecondaryUnit[filesystem]);"#);
    reveal_strlit(r#"      const spaceSep = new St.Label({ text: "  " });

      this.add_child(this._elementsName[filesystem]);
      this.add_child(this._elementsValue[filesystem]);
      this.add_child(this._elementsUnit[filesystem]);
      this.add_child(spaceSep);
      // Space separator between disk-space activity percent and its unit (stable width)
      this._elementsSecondaryValue[filesystem].width = this._diskActivityWidth;
      this.add_child(this._elementsSecondaryValue[filesystem]);
      this.add_child(this._elementsSecondaryUnit[filesystem]);"#);
    reveal_strlit(r#"  class DiskContainerSpace extends DiskContainer {
    _init() {
      super._init();

      this._elementsSecondaryValue = [];
      this._elementsSecondaryUnit = [];
    }"#);
    reveal_strlit(r#"  class DiskContainerSpace extends DiskContainer {
    _init() {
      super._init();

      // Stable reserved width (px, pre-scale) for the disk-space secondary
      // activity percentage so it does not shift the panel as digits change.
      // Covers the 3-digit worst case "100" at the panel font with slack;
      // secondary values render at 0.92em so this comfortably fits it.
      this._diskActivityWidth = 24;

      this._elementsSecondaryValue = [];
      this._elementsSecondaryUnit = [];
    }"#);
    reveal_strlit(r#"  class GpuContainer extends St.BoxLayout {
    _init() {
      super._init();

      this._elementsUuid = [];
      this._elementsName = [];
      this._elementsValue = [];
      this._elementsUnit = [];
      this._elementsMemoryValue = [];
      this._elementsMemoryUnit = [];
      this._elementsThermalValue = [];
      this._elementsThermalUnit = [];
      this._separatorPairs = [];
    }"#);
    reveal_strlit(r#"  class GpuContainer extends St.BoxLayout {
    _init() {
      super._init();

      this._elementsUuid = [];
      this._elementsName = [];
      this._elementsValue = [];
      this._elementsUnit = [];
      this._elementsMemoryValue = [];
      this._elementsMemoryUnit = [];
      this._elementsThermalValue = [];
      this._elementsThermalUnit = [];
      // Stable reserved width (px, pre-scale) for the GPU VRAM value so it
      // stays snug beside the GPU usage percentage. VRAM is numeric GB, at
      // most 2 digits ("99"), measured ~16px at the panel font; the value
      // label is separate from its unit, so this covers the widest reading.
      this._gpuMemoryWidth = 16;
      this._separatorPairs = [];
    }"#);
    reveal_strlit(r#"      } else {
        this._elementsUuid.forEach((element) => {
          if (this._elementsValue[element] !== undefined) {
            this._elementsValue[element].width = width;
          }

          if (this._elementsMemoryValue[element] !== undefined) {
            this._elementsMemoryValue[element].width = width;
          }
        });
      }"#);
    reveal_strlit(r#"      } else {
        this._elementsUuid.forEach((element) => {
          if (this._elementsValue[element] !== undefined) {
            this._elementsValue[element].width = width;
          }

          if (this._elementsMemoryValue[element] !== undefined) {
            // VRAM value (0-99 GB, 2 digits) gets its own tighter reserved
            // width so it stays snug next to the GPU usage percentage.
            this._elementsMemoryValue[element].width = this._gpuMemoryWidth;
          }
        });
      }"#);
    assert(DISK_PATCHED_ADD@.subrange(258, 337) =~= DISK_MARKER@);
    assert(GPU_PATCHED_SET@.subrange(275, 335) =~= GPU_MARKER@);
    assert forall|d: int| 0 <= d < DISK_UPSTREAM_INIT@.len() implies #[trigger] clash_at(DISK_UPSTREAM_INIT@, DISK_MARKER@, d) by {
        let x = DISK_UPSTREAM_INIT@;
        let y = DISK_MARKER@;
        let idx = if x[d + 0] != y[0] { 0int } else if x[d + 1] != y[1] { 1int } else if x[d + 2] != y[2] { 2int } else if x[d + 3] != y[3] { 3int } else if x[d + 4] != y[4] { 4int } else if x[d + 5] != y[5] { 5int } else { 6int };
        assert(x[d + idx] != y[idx]);
    }
    assert forall|d: int| 1 <= d < DISK_MARKER@.len() implies #[trigger] clash_at(DISK_MARKER@, DISK_UPSTREAM_INIT@, d) by {
        let x = DISK_MARKER@;
        let y = DISK_UPSTREAM_INIT@;
        let idx = if x[d + 0] != y[0] { 0int } else { 1int };
        assert(x[d + idx] != y[idx]);
    }
    assert forall|d: int| 0 <= d < DISK_UPSTREAM_ADD@.len() implies #[trigger] clash_at(DISK_UPSTREAM_ADD@, GPU_MARKER@, d) by {
        let x = DISK_UPSTREAM_ADD@;
        let y = GPU_MARKER@;
        let idx = if x[d + 0] != y[0] { 0int } else { 1int };
        assert(x[d + idx] != y[idx]);
    }
    assert forall|d: int| 1 <= d < GPU_MARKER@.len() implies #[trigger] clash_at(GPU_MARKER@, DISK_UPSTREAM_ADD@, d) by {
        let x = GPU_MARKER@;
        let y = DISK_UPSTREAM_ADD@;
        let idx = if x[d + 0] != y[0] { 0int } else { 1int };
        assert(x[d + idx] != y[idx]);
    }
    assert forall|d: int| 0 <= d < DISK_UPSTREAM_INIT@.len() implies #[trigger] clash_at(DISK_UPSTREAM_INIT@, GPU_MARKER@, d) by {
        let x = DISK_UPSTREAM_INIT@;
        let y = GPU_MARKER@;
        let idx = if x[d + 0] != y[0] { 0int } else { 1int };
        assert(x[d + idx] != y[idx]);
    }
    assert forall|d: int| 1 <= d < GPU_MARKER@.len() implies #[trigger] clash_at(GPU_MARKER@, DISK_UPSTREAM_INIT@, d) by {
        let x = GPU_MARKER@;
        let y = DISK_UPSTREAM_INIT@;
        let idx = if x[d + 0] != y[0] { 0int } else { 1int };
        assert(x[d + idx] != y[idx]);
    }
    assert forall|d: int| 0 <= d < DISK_PATCHED_ADD@.len() implies #[trigger] clash_at(DISK_PATCHED_ADD@, GPU_MARKER@, d) by {
        let x = DISK_PATCHED_ADD@;
        let y = GPU_MARKER@;
        let idx = if x[d + 0] != y[0] { 0int } else { 1int };
        assert(x[d + idx] != y[idx]);
    }
    assert forall|d: int| 1 <= d < GPU_MARKER@.len() implies #[trigger] clash_at(GPU_MARKER@, DISK_PATCHED_ADD@, d) by {
        let x = GPU_MARKER@;
        let y = DISK_PATCHED_ADD@;
        let idx = if x[d + 0] != y[0] { 0int } else { 1int };
        assert(x[d + idx] != y[idx]);
    }
    assert forall|d: int| 0 <= d < DISK_PATCHED_INIT@.len() implies #[trigger] clash_at(DISK_PATCHED_INIT@, GPU_MARKER@, d) by {
        let x = DISK_PATCHED_INIT@;
        let y = GPU_MARKER@;
        let idx = if x[d + 0] != y[0] { 0int } else { 1int };
        assert(x[d + idx] != y[idx]);
    }
    assert forall|d: int| 1 <= d < GPU_MARKER@.len() implies #[trigger] clash_at(GPU_MARKER@, DISK_PATCHED_INIT@, d) by {
        let x = GPU_MARKER@;
        let y = DISK_PATCHED_INIT@;
        let idx = if x[d + 0] != y[0] { 0int } else { 1int };
        assert(x[d + idx] != y[idx]);
    }
    assert forall|d: int| 0 <= d < GPU_UPSTREAM_INIT@.len() implies #[trigger] clash_at(GPU_UPSTREAM_INIT@, DISK_MARKER@, d) by {
        let x = GPU_UPSTREAM_INIT@;
        let y = DISK_MARKER@;
        let idx = if x[d + 0] != y[0] { 0int } else { 1int };
        assert(x[d + idx] != y[idx]);
    }
    assert forall|d: int| 1 <= d < DISK_MARKER@.len() implies #[trigger] clash_at(DISK_MARKER@, GPU_UPSTREAM_INIT@, d) by {
        let x = DISK_MARKER@;
        let y = GPU_UPSTREAM_INIT@;
        let idx = if x[d + 0] != y[0] { 0int } else { 1int };
        assert(x[d + idx] != y[idx]);
    }
    assert forall|d: int| 0 <= d < GPU_UPSTREAM_SET@.len() implies #[trigger] clash_at(GPU_UPSTREAM_SET@, DISK_MARKER@, d) by {
        let x = GPU_UPSTREAM_SET@;
        let y = DISK_MARKER@;
        let idx = { 0int };
        assert(x[d + idx] != y[idx]);
    }
    assert forall|d: int| 1 <= d < DISK_MARKER@.len() implies #[trigger] clash_at(DISK_MARKER@, GPU_UPSTREAM_SET@, d) by {
        let x = DISK_MARKER@;
        let y = GPU_UPSTREAM_SET@;
        let idx = if x[d + 0] != y[0] { 0int } else { 1int };
        assert(x[d + idx] != y[idx]);
    }
    assert forall|d: int| 0 <= d < GPU_PATCHED_INIT@.len() implies #[trigger] clash_at(GPU_PATCHED_INIT@, DISK_UPSTREAM_ADD@, d) by {
        let x = GPU_PATCHED_INIT@;
        let y = DISK_UPSTREAM_ADD@;
        let idx = if x[d + 0] != y[0] { 0int } else if x[d + 1] != y[1] { 1int } else if x[d + 2] != y[2] { 2int } else if x[d + 3] != y[3] { 3int } else if x[d + 4] != y[4] { 4int } else if x[d + 5] != y[5] { 5int } else { 6int };
        assert(x[d + idx] != y[idx]);
    }
    assert forall|d: int| 1 <= d < DISK_UPSTREAM_ADD@.len() implies #[trigger] clash_at(DISK_UPSTREAM_ADD@, GPU_PATCHED_INIT@, d) by {
        let x = DISK_UPSTREAM_ADD@;
        let y = GPU_PATCHED_INIT@;
        let idx = if x[d + 0] != y[0] { 0int } else if x[d + 1] != y[1] { 1int } else if x[d + 2] != y[2] { 2int } else { 3int };
        assert(x[d + idx] != y[idx]);
    }
    assert forall|d: int| 0 <= d < GPU_PATCHED_SET@.len() implies #[trigger] clash_at(GPU_PATCHED_SET@, DISK_UPSTREAM_ADD@, d) by {
        let x = GPU_PATCHED_SET@;
        let y = DISK_UPSTREAM_ADD@;
        let idx = if x[d + 0] != y[0] { 0int } else if x[d + 1] != y[1] { 1int } else if x[d + 2] != y[2] { 2int } else if x[d + 3] != y[3] { 3int } else if x[d + 4] != y[4] { 4int } else if x[d + 5] != y[5] { 5int } else { 6int };
        assert(x[d + idx] != y[idx]);
    }
    assert forall|d: int| 1 <= d < DISK_UPSTREAM_ADD@.len() implies #[trigger] clash_at(DISK_UPSTREAM_ADD@, GPU_PATCHED_SET@, d) by {
        let x = DISK_UPSTREAM_ADD@;
        let y = GPU_PATCHED_SET@;
        let idx = if x[d + 0] != y[0] { 0int } else if x[d + 1] != y[1] { 1int } else if x[d + 2] != y[2] { 2int } else if x[d + 3] != y[3] { 3int } else if x[d + 4] != y[4] { 4int } else if x[d + 5] != y[5] { 5int } else { 6int };
        assert(x[d + idx] != y[idx]);
    }
}

/// The disk part of the stable patch: the disk section ends reserved or
/// without labels to reserve, and the GPU marker is present afterwards
/// exactly when it was before.
proof fn lemma_stable_disk_step(content: Seq<char>)
    requires
        disk_step(content, false) is Ok,
    ensures
        disk_step(content, false) matches Ok((c2, _))
            && (contains(c2, DISK_MARKER@) || !contains(c2, DISK_UPSTREAM_ADD@))
            && contains(c2, GPU_MARKER@) == contains(content, GPU_MARKER@),
{
    lemma_stable_texts_clash();
    if !contains(content, DISK_MARKER@) && contains(content, DISK_UPSTREAM_ADD@) {
        let i = find(content, DISK_UPSTREAM_ADD@)->0;
        lemma_find_from(content, DISK_UPSTREAM_ADD@, 0);
        lemma_replace_first_has_rep(content, DISK_UPSTREAM_ADD@, DISK_PATCHED_ADD@);
        let c1 = replace_first(content, DISK_UPSTREAM_ADD@, DISK_PATCHED_ADD@);
        lemma_matches_within(c1, DISK_PATCHED_ADD@, DISK_MARKER@, i, 258);
        assert(contains(c1, DISK_UPSTREAM_INIT@));
        lemma_find_from(c1, DISK_UPSTREAM_INIT@, 0);
        lemma_match_survives(c1, DISK_UPSTREAM_INIT@, DISK_PATCHED_INIT@, DISK_MARKER@, i + 258);
        let c2 = replace_first(c1, DISK_UPSTREAM_INIT@, DISK_PATCHED_INIT@);
        let p2 = if i + 258 < find(c1, DISK_UPSTREAM_INIT@)->0 {
            i + 258
        } else {
            i + 258 + DISK_PATCHED_INIT@.len() - DISK_UPSTREAM_INIT@.len()
        };
        lemma_contains_at(c2, DISK_MARKER@, p2);
        if contains(content, GPU_MARKER@) {
            lemma_find_from(content, GPU_MARKER@, 0);
            let g = find(content, GPU_MARKER@)->0;
            lemma_match_survives(content, DISK_UPSTREAM_ADD@, DISK_PATCHED_ADD@, GPU_MARKER@, g);
            let g1 = if g < i { g } else { g + DISK_PATCHED_ADD@.len() - DISK_UPSTREAM_ADD@.len() };
            lemma_match_survives(c1, DISK_UPSTREAM_INIT@, DISK_PATCHED_INIT@, GPU_MARKER@, g1);
            let g2 = if g1 < find(c1, DISK_UPSTREAM_INIT@)->0 {
                g1
            } else {
                g1 + DISK_PATCHED_INIT@.len() - DISK_UPSTREAM_INIT@.len()
            };
            lemma_contains_at(c2, GPU_MARKER@, g2);
        } else {
            lemma_absent_survives(content, DISK_UPSTREAM_ADD@, DISK_PATCHED_ADD@, GPU_MARKER@);
            lemma_absent_survives(c1, DISK_UPSTREAM_INIT@, DISK_PATCHED_INIT@, GPU_MARKER@);
        }
    }
}

/// The GPU part of the stable patch: it ends with the GPU marker present
/// and keeps the disk section reserved or without labels to reserve.
proof fn lemma_stable_gpu_step(c2: Seq<char>)
    requires
        gpu_step(c2, false) is Ok,
        contains(c2, DISK_MARKER@) || !contains(c2, DISK_UPSTREAM_ADD@),
    ensures
        gpu_step(c2, false) matches Ok((t, _))
            && contains(t, GPU_MARKER@)
            && (contains(t, DISK_MARKER@) || !contains(t, DISK_UPSTREAM_ADD@)),
{
    lemma_stable_texts_clash();
    if !contains(c2, GPU_MARKER@) {
        assert(contains(c2, GPU_UPSTREAM_INIT@));
        lemma_find_from(c2, GPU_UPSTREAM_INIT@, 0);
        let c3 = replace_first(c2, GPU_UPSTREAM_INIT@, GPU_PATCHED_INIT@);
        assert(contains(c3, GPU_UPSTREAM_SET@));
        lemma_find_from(c3, GPU_UPSTREAM_SET@, 0);
        let c4 = replace_first(c3, GPU_UPSTREAM_SET@, GPU_PATCHED_SET@);
        lemma_replace_first_has_rep(c3, GPU_UPSTREAM_SET@, GPU_PATCHED_SET@);
        lemma_matches_within(c4, GPU_PATCHED_SET@, GPU_MARKER@, find(c3, GPU_UPSTREAM_SET@)->0, 275);
        lemma_contains_at(c4, GPU_MARKER@, find(c3, GPU_UPSTREAM_SET@)->0 + 275);
        if contains(c2, DISK_MARKER@) {
            lemma_find_from(c2, DISK_MARKER@, 0);
            let p2 = find(c2, DISK_MARKER@)->0;
            lemma_match_survives(c2, GPU_UPSTREAM_INIT@, GPU_PATCHED_INIT@, DISK_MARKER@, p2);
            let p3 = if p2 < find(c2, GPU_UPSTREAM_INIT@)->0 {
                p2
            } else {
                p2 + GPU_PATCHED_INIT@.len() - GPU_UPSTREAM_INIT@.len()
            };
            lemma_match_survives(c3, GPU_UPSTREAM_SET@, GPU_PATCHED_SET@, DISK_MARKER@, p3);
            let p4 = if p3 < find(c3, GPU_UPSTREAM_SET@)->0 {
                p3
            } else {
                p3 + GPU_PATCHED_SET@.len() - GPU_UPSTREAM_SET@.len()
            };
            lemma_contains_at(c4, DISK_MARKER@, p4);
        } else {
            lemma_absent_survives(c2, GPU_UPSTREAM_INIT@, GPU_PATCHED_INIT@, DISK_UPSTREAM_ADD@);
            lemma_absent_survives(c3, GPU_UPSTREAM_SET@, GPU_PATCHED_SET@, DISK_UPSTREAM_ADD@);
        }
    }
}

/// Stable mode is idempotent: whenever the stable patch succeeds, patching
/// its output succeeds, reports no change and keeps it.
pub proof fn lemma_stable_patch_is_idempotent(content: Seq<char>)
    requires
        stable_width_patch(content, false) is Ok,
    ensures
        stable_width_patch(content, false) matches Ok((t, _))
            && stable_width_patch(t, false) == Ok::<(Seq<char>, bool), StableWidthError>((t, false)),
{
    lemma_stable_disk_step(content);
    let c2 = disk_step(content, false)->Ok_0.0;
    lemma_stable_gpu_step(c2);
    let t = gpu_step(c2, false)->Ok_0.0;
    lemma_stable_reserved_is_fixed(t);
}

/// The upstream texts the stable mode looks for cannot overlap one another.
proof fn lemma_upstream_texts_apart()
    ensures
        clash_from(DISK_UPSTREAM_ADD@, DISK_UPSTREAM_INIT@, 0),
        clash_from(DISK_UPSTREAM_INIT@, DISK_UPSTREAM_ADD@, 1),
        clash_from(DISK_UPSTREAM_ADD@, GPU_UPSTREAM_INIT@, 0),
        clash_from(GPU_UPSTREAM_INIT@, DISK_UPSTREAM_ADD@, 1),
        clash_from(DISK_UPSTREAM_ADD@, GPU_UPSTREAM_SET@, 0),
        clash_from(GPU_UPSTREAM_SET@, DISK_UPSTREAM_ADD@, 1),
        clash_from(DISK_UPSTREAM_INIT@, GPU_UPSTREAM_INIT@, 0),
        clash_from(GPU_UPSTREAM_INIT@, DISK_UPSTREAM_INIT@, 1),
        clash_from(DISK_UPSTREAM_INIT@, GPU_UPSTREAM_SET@, 0),
        clash_from(GPU_UPSTREAM_SET@, DISK_UPSTREAM_INIT@, 1),
        DISK_UPSTREAM_ADD@.len() == 375,
        DISK_UPSTREAM_INIT@.len() == 173,
        GPU_UPSTREAM_INIT@.len() == 395,
        GPU_UPSTREAM_SET@.len() == 353,
        DISK_PATCHED_INIT@.len() == 511,
        GPU_PATCHED_INIT@.len() == 732,
{
    reveal_strlit(r#"      const spaceSep = new St.Label({ text: "  " });

      this.add_child(this._elementsName[filesystem]);
      this.add_child(this._elementsValue[filesystem]);
      this.add_child(this._elementsUnit[filesystem]);
      this.add_child(spaceSep);
      this.add_child(this._elementsSecondaryValue[filesystem]);
      this.add_child(this._elementsSecondaryUnit[filesystem]);"#);
    reveal_strlit(r#"  class DiskContainerSpace extends DiskContainer {
    _init() {
      super._init();

      this._elementsSecondaryValue = [];
      this._elementsSecondaryUnit = [];
    }"#);
    reveal_strlit(r#"  class DiskContainerSpace extends DiskContainer {
    _init() {
      super._init();

      // Stable reserved width (px, pre-scale) for the disk-space secondary
      // activity percentage so it does not shift the panel as digits change.
      // Covers the 3-digit worst case "100" at the panel font with slack;
      // secondary values render at 0.92em so this comfortably fits it.
      this._diskActivityWidth = 24;

      this._elementsSecondaryValue = [];
      this._elementsSecondaryUnit = [];
    }"#);
    reveal_strlit(r#"  class GpuContainer extends St.BoxLayout {
    _init() {
      super._init();

      this._elementsUuid = [];
      this._elementsName = [];
      this._elementsValue = [];
      this._elementsUnit = [];
      this._elementsMemoryValue = [];
      this._elementsMemoryUnit = [];
      this._elementsThermalValue = [];
      this._elementsThermalUnit = [];
      this._separatorPairs = [];
    }"#);
    reveal_strlit(r#"  class GpuContainer extends St.BoxLayout {
    _init() {
      super._init();

      this._elementsUuid = [];
      this._elementsName = [];
      this._elementsValue = [];
      this._elementsUnit = [];
      this._elementsMemoryValue = [];
      this._elementsMemoryUnit = [];
      this._elementsThermalValue = [];
      this._elementsThermalUnit = [];
      // Stable reserved width (px, pre-scale) for the GPU VRAM value so it
      // stays snug beside the GPU usage percentage. VRAM is numeric GB, at
      // most 2 digits ("99"), measured ~16px at the panel font; the value
      // label is separate from its unit, so this covers the widest reading.
      this._gpuMemoryWidth = 16;
      this._separatorPairs = [];
    }"#);
    reveal_strlit(r#"      } else {
        this._elementsUuid.forEach((element) => {
          if (this._elementsValue[element] !== undefined) {
            this._elementsValue[element].width = width;
          }

          if (this._elementsMemoryValue[element] !== undefined) {
            this._elementsMemoryValue[element].width = width;
          }
        });
      }"#);
    assert forall|d: int| 0 <= d < DISK_UPSTREAM_ADD@.len() implies #[trigger] clash_at(DISK_UPSTREAM_ADD@, DISK_UPSTREAM_INIT@, d) by {
        let x = DISK_UPSTREAM_ADD@;
        let y = DISK_UPSTREAM_INIT@;
        let idx = if x[d + 0] != y[0] { 0int } else if x[d + 1] != y[1] { 1int } else if x[d + 2] != y[2] { 2int } else { 3int };
        assert(x[d + idx] != y[idx]);
    }
    assert forall|d: int| 1 <= d < DISK_UPSTREAM_INIT@.len() implies #[trigger] clash_at(DISK_UPSTREAM_INIT@, DISK_UPSTREAM_ADD@, d) by {
        let x = DISK_UPSTREAM_INIT@;
        let y = DISK_UPSTREAM_ADD@;
        let idx = if x[d + 0] != y[0] { 0int } else if x[d + 1] != y[1] { 1int } else if x[d + 2] != y[2] { 2int } else if x[d + 3] != y[3] { 3int } else if x[d + 4] != y[4] { 4int } else if x[d + 5] != y[5] { 5int } else { 6int };
        assert(x[d + idx] != y[idx]);
    }
    assert forall|d: int| 0 <= d < DISK_UPSTREAM_ADD@.len() implies #[trigger] clash_at(DISK_UPSTREAM_ADD@, GPU_UPSTREAM_INIT@, d) by {
        let x = DISK_UPSTREAM_ADD@;
        let y = GPU_UPSTREAM_INIT@;
        let idx = if x[d + 0] != y[0] { 0int } else if x[d + 1] != y[1] { 1int } else if x[d + 2] != y[2] { 2int } else { 3int };
        assert(x[d + idx] != y[idx]);
    }
    assert forall|d: int| 1 <= d < GPU_UPSTREAM_INIT@.len() implies #[trigger] clash_at(GPU_UPSTREAM_INIT@, DISK_UPSTREAM_ADD@, d) by {
        let x = GPU_UPSTREAM_INIT@;
        let y = DISK_UPSTREAM_ADD@;
        let idx = if x[d + 0] != y[0] { 0int } else if x[d + 1] != y[1] { 1int } else if x[d + 2] != y[2] { 2int } else if x[d + 3] != y[3] { 3int } else if x[d + 4] != y[4] { 4int } else if x[d + 5] != y[5] { 5int } else { 6int };
        assert(x[d + idx] != y[idx]);
    }
    assert forall|d: int| 0 <= d < DISK_UPSTREAM_ADD@.len() implies #[trigger] clash_at(DISK_UPSTREAM_ADD@, GPU_UPSTREAM_SET@, d) by {
        let x = DISK_UPSTREAM_ADD@;
        let y = GPU_UPSTREAM_SET@;
        let idx = if x[d + 0] != y[0] { 0int } else if x[d + 1] != y[1] { 1int } else if x[d + 2] != y[2] { 2int } else if x[d + 3] != y[3] { 3int } else if x[d + 4] != y[4] { 4int } else if x[d + 5] != y[5] { 5int } else { 6int };
        assert(x[d + idx] != y[idx]);
    }
    assert forall|d: int| 1 <= d < GPU_UPSTREAM_SET@.len() implies #[trigger] clash_at(GPU_UPSTREAM_SET@, DISK_UPSTREAM_ADD@, d) by {
        let x = GPU_UPSTREAM_SET@;
        let y = DISK_UPSTREAM_ADD@;
        let idx = if x[d + 0] != y[0] { 0int } else if x[d + 1] != y[1] { 1int } else if x[d + 2] != y[2] { 2int } else if x[d + 3] != y[3] { 3int } else if x[d + 4] != y[4] { 4int } else if x[d + 5] != y[5] { 5int } else { 6int };
        assert(x[d + idx] != y[idx]);
    }
    assert forall|d: int| 0 <= d < DISK_UPSTREAM_INIT@.len() implies #[trigger] clash_at(DISK_UPSTREAM_INIT@, GPU_UPSTREAM_INIT@, d) by {
        let x = DISK_UPSTREAM_INIT@;
        let y = GPU_UPSTREAM_INIT@;
        let idx = if d == 0 { 8int } else if x[d + 0] != y[0] { 0int } else if x[d + 1] != y[1] { 1int } else { 2int };
        assert(x[d + idx] != y[idx]);
    }
    assert forall|d: int| 1 <= d < GPU_UPSTREAM_INIT@.len() implies #[trigger] clash_at(GPU_UPSTREAM_INIT@, DISK_UPSTREAM_INIT@, d) by {
        let x = GPU_UPSTREAM_INIT@;
        let y = DISK_UPSTREAM_INIT@;
        let idx = if x[d + 0] != y[0] { 0int } else if x[d + 1] != y[1] { 1int } else { 2int };
        assert(x[d + idx] != y[idx]);
    }
    assert forall|d: int| 0 <= d < DISK_UPSTREAM_INIT@.len() implies #[trigger] clash_at(DISK_UPSTREAM_INIT@, GPU_UPSTREAM_SET@, d) by {
        let x = DISK_UPSTREAM_INIT@;
        let y = GPU_UPSTREAM_SET@;
        let idx = if x[d + 0] != y[0] { 0int } else if x[d + 1] != y[1] { 1int } else if x[d + 2] != y[2] { 2int } else if x[d + 3] != y[3] { 3int } else if x[d + 4] != y[4] { 4int } else if x[d + 5] != y[5] { 5int } else { 6int };
        assert(x[d + idx] != y[idx]);
    }
    assert forall|d: int| 1 <= d < GPU_UPSTREAM_SET@.len() implies #[trigger] clash_at(GPU_UPSTREAM_SET@, DISK_UPSTREAM_INIT@, d) by {
        let x = GPU_UPSTREAM_SET@;
        let y = DISK_UPSTREAM_INIT@;
        let idx = if x[d + 0] != y[0] { 0int } else if x[d + 1] != y[1] { 1int } else { 2int };
        assert(x[d + idx] != y[idx]);
    }
}

/// The reserved disk labels cannot hold or cut into the upstream texts of
/// the other edits.
proof fn lemma_disk_add_apart()
    ensures
        clash_from(DISK_PATCHED_ADD@, DISK_UPSTREAM_INIT@, 0),
        clash_from(DISK_UPSTREAM_INIT@, DISK_PATCHED_ADD@, 1),
        clash_from(DISK_PATCHED_ADD@, GPU_UPSTREAM_INIT@, 0),
        clash_from(GPU_UPSTREAM_INIT@, DISK_PATCHED_ADD@, 1),
        clash_from(DISK_PATCHED_ADD@, GPU_UPSTREAM_SET@, 0),
        clash_from(GPU_UPSTREAM_SET@, DISK_PATCHED_ADD@, 1),
{
    reveal_strlit(r#"      const spaceSep = new St.Label({ text: "  " });

      this.add_child(this._elementsName[filesystem]);
      this.add_child(this._elementsValue[filesystem]);
      this.add_child(this._elementsUnit[filesystem]);
      this.add_child(spaceSep);
      // Space separator between disk-space activity percent and its unit (stable width)
      this._elementsSecondaryValue[filesystem].width = this._diskActivityWidth;
      this.add_child(this._elementsSecondaryValue[filesystem]);
      this.add_child(this._elementsSecondaryUnit[filesystem]);"#);
    reveal_strlit(r#"  class DiskContainerSpace extends DiskContainer {
    _init() {
      super._init();

      this._elementsSecondaryValue = [];
      this._elementsSecondaryUnit = [];
    }"#);
    reveal_strlit(r#"  class GpuContainer extends St.BoxLayout {
    _init() {
      super._init();

      this._elementsUuid = [];
      this._elementsName = [];
      this._elementsValue = [];
      this._elementsUnit = [];
      this._elementsMemoryValue = [];
      this._elementsMemoryUnit = [];
      this._elementsThermalValue = [];
      this._elementsThermalUnit = [];
      this._separatorPairs = [];
    }"#);
    reveal_strlit(r#"      } else {
        this._elementsUuid.forEach((element) => {
          if (this._elementsValue[element] !== undefined) {
            this._elementsValue[element].width = width;
          }

          if (this._elementsMemoryValue[element] !== undefined) {
            this._elementsMemoryValue[element].width = width;
          }
        });
      }"#);
    assert forall|d: int| 0 <= d < DISK_PATCHED_ADD@.len() implies #[trigger] clash_at(DISK_PATCHED_ADD@, DISK_UPSTREAM_INIT@, d) by {
        let x = DISK_PATCHED_ADD@;
        let y = DISK_UPSTREAM_INIT@;
        let idx = if x[d + 0] != y[0] { 0int } else if x[d + 1] != y[1] { 1int } else if x[d + 2] != y[2] { 2int } else { 3int };
        assert(x[d + idx] != y[idx]);
    }
    assert forall|d: int| 1 <= d < DISK_UPSTREAM_INIT@.len() implies #[trigger] clash_at(DISK_UPSTREAM_INIT@, DISK_PATCHED_ADD@, d) by {
        let x = DISK_UPSTREAM_INIT@;
        let y = DISK_PATCHED_ADD@;
        let idx = if x[d + 0] != y[0] { 0int } else if x[d + 1] != y[1] { 1int } else if x[d + 2] != y[2] { 2int } else if x[d + 3] != y[3] { 3int } else if x[d + 4] != y[4] { 4int } else if x[d + 5] != y[5] { 5int } else { 6int };
        assert(x[d + idx] != y[idx]);
    }
    assert forall|d: int| 0 <= d < DISK_PATCHED_ADD@.len() implies #[trigger] clash_at(DISK_PATCHED_ADD@, GPU_UPSTREAM_INIT@, d) by {
        let x = DISK_PATCHED_ADD@;
        let y = GPU_UPSTREAM_INIT@;
        let idx = if x[d + 0] != y[0] { 0int } else if x[d + 1] != y[1] { 1int } else if x[d + 2] != y[2] { 2int } else { 3int };
        assert(x[d + idx] != y[idx]);
    }
    assert forall|d: int| 1 <= d < GPU_UPSTREAM_INIT@.len() implies #[trigger] clash_at(GPU_UPSTREAM_INIT@, DISK_PATCHED_ADD@, d) by {
        let x = GPU_UPSTREAM_INIT@;
        let y = DISK_PATCHED_ADD@;
        let idx = if x[d + 0] != y[0] { 0int } else if x[d + 1] != y[1] { 1int } else if x[d + 2] != y[2] { 2int } else if x[d + 3] != y[3] { 3int } else if x[d + 4] != y[4] { 4int } else if x[d + 5] != y[5] { 5int } else { 6int };
        assert(x[d + idx] != y[idx]);
    }
    assert forall|d: int| 0 <= d < DISK_PATCHED_ADD@.len() implies #[trigger] clash_at(DISK_PATCHED_ADD@, GPU_UPSTREAM_SET@, d) by {
        let x = DISK_PATCHED_ADD@;
        let y = GPU_UPSTREAM_SET@;
        let idx = if x[d + 0] != y[0] { 0int } else if x[d + 1] != y[1] { 1int } else if x[d + 2] != y[2] { 2int } else if x[d + 3] != y[3] { 3int } else if x[d + 4] != y[4] { 4int } else if x[d + 5] != y[5] { 5int } else { 6int };
        assert(x[d + idx] != y[idx]);
    }
    assert forall|d: int| 1 <= d < GPU_UPSTREAM_SET@.len() implies #[trigger] clash_at(GPU_UPSTREAM_SET@, DISK_PATCHED_ADD@, d) by {
        let x = GPU_UPSTREAM_SET@;
        let y = DISK_PATCHED_ADD@;
        let idx = if x[d + 0] != y[0] { 0int } else if x[d + 1] != y[1] { 1int } else if x[d + 2] != y[2] { 2int } else if x[d + 3] != y[3] { 3int } else if x[d + 4] != y[4] { 4int } else if x[d + 5] != y[5] { 5int } else { 6int };
        assert(x[d + idx] != y[idx]);
    }
}

/// The reserved disk initialiser cannot hold or cut into the upstream texts
/// of the other edits.
proof fn lemma_disk_init_apart()
    ensures
        clash_from(DISK_PATCHED_INIT@, DISK_UPSTREAM_ADD@, 0),
        clash_from(DISK_UPSTREAM_ADD@, DISK_PATCHED_INIT@, 1),
        clash_from(DISK_PATCHED_INIT@, GPU_UPSTREAM_INIT@, 0),
        clash_from(GPU_UPSTREAM_INIT@, DISK_PATCHED_INIT@, 1),
        clash_from(DISK_PATCHED_INIT@, GPU_UPSTREAM_SET@, 0),
        clash_from(GPU_UPSTREAM_SET@, DISK_PATCHED_INIT@, 1),
{
    reveal_strlit(r#"      const spaceSep = new St.Label({ text: "  " });

      this.add_child(this._elementsName[filesystem]);
      this.add_child(this._elementsValue[filesystem]);
      this.add_child(this._elementsUnit[filesystem]);
      this.add_child(spaceSep);
      this.add_child(this._elementsSecondaryValue[filesystem]);
      this.add_child(this._elementsSecondaryUnit[filesystem]);"#);
    reveal_strlit(r#"  class DiskContainerSpace extends DiskContainer {
    _init() {
      super._init();

      // Stable reserved width (px, pre-scale) for the disk-space secondary
      // activity percentage so it does not shift the panel as digits change.
      // Covers the 3-digit worst case "100" at the panel font with slack;
      // secondary values render at 0.92em so this comfortably fits it.
      this._diskActivityWidth = 24;

      this._elementsSecondaryValue = [];
      this._elementsSecondaryUnit = [];
    }"#);
    reveal_strlit(r#"  class GpuContainer extends St.BoxLayout {
    _init() {
      super._init();

      this._elementsUuid = [];
      this._elementsName = [];
      this._elementsValue = [];
      this._elementsUnit = [];
      this._elementsMemoryValue = [];
      this._elementsMemoryUnit = [];
      this._elementsThermalValue = [];
      this._elementsThermalUnit = [];
      this._separatorPairs = [];
    }"#);
    reveal_strlit(r#"      } else {
        this._elementsUuid.forEach((element) => {
          if (this._elementsValue[element] !== undefined) {
            this._elementsValue[element].width = width;
          }

          if (this._elementsMemoryValue[element] !== undefined) {
            this._elementsMemoryValue[element].width = width;
          }
        });
      }"#);
    assert forall|d: int| 0 <= d < DISK_PATCHED_INIT@.len() implies #[trigger] clash_at(DISK_PATCHED_INIT@, DISK_UPSTREAM_ADD@, d) by {
        let x = DISK_PATCHED_INIT@;
        let y = DISK_UPSTREAM_ADD@;
        let idx = if x[d + 0] != y[0] { 0int } else if x[d + 1] != y[1] { 1int } else if x[d + 2] != y[2] { 2int } else if x[d + 3] != y[3] { 3int } else if x[d + 4] != y[4] { 4int } else if x[d + 5] != y[5] { 5int } else { 6int };
        assert(x[d + idx] != y[idx]);
    }
    assert forall|d: int| 1 <= d < DISK_UPSTREAM_ADD@.len() implies #[trigger] clash_at(DISK_UPSTREAM_ADD@, DISK_PATCHED_INIT@, d) by {
        let x = DISK_UPSTREAM_ADD@;
        let y = DISK_PATCHED_INIT@;
        let idx = if x[d + 0] != y[0] { 0int } else if x[d + 1] != y[1] { 1int } else if x[d + 2] != y[2] { 2int } else { 3int };
        assert(x[d + idx] != y[idx]);
    }
    assert forall|d: int| 0 <= d < DISK_PATCHED_INIT@.len() implies #[trigger] clash_at(DISK_PATCHED_INIT@, GPU_UPSTREAM_INIT@, d) by {
        let x = DISK_PATCHED_INIT@;
        let y = GPU_UPSTREAM_INIT@;
        let idx = if d == 0 { 8int } else if x[d + 0] != y[0] { 0int } else if x[d + 1] != y[1] { 1int } else { 2int };
        assert(x[d + idx] != y[idx]);
    }
    assert forall|d: int| 1 <= d < GPU_UPSTREAM_INIT@.len() implies #[trigger] clash_at(GPU_UPSTREAM_INIT@, DISK_PATCHED_INIT@, d) by {
        let x = GPU_UPSTREAM_INIT@;
        let y = DISK_PATCHED_INIT@;
        let idx = if x[d + 0] != y[0] { 0int } else if x[d + 1] != y[1] { 1int } else { 2int };
        assert(x[d + idx] != y[idx]);
    }
    assert forall|d: int| 0 <= d < DISK_PATCHED_INIT@.len() implies #[trigger] clash_at(DISK_PATCHED_INIT@, GPU_UPSTREAM_SET@, d) by {
        let x = DISK_PATCHED_INIT@;
        let y = GPU_UPSTREAM_SET@;
        let idx = if x[d + 0] != y[0] { 0int } else if x[d + 1] != y[1] { 1int } else if x[d + 2] != y[2] { 2int } else if x[d + 3] != y[3] { 3int } else if x[d + 4] != y[4] { 4int } else if x[d + 5] != y[5] { 5int } else { 6int };
        assert(x[d + idx] != y[idx]);
    }
    assert forall|d: int| 1 <= d < GPU_UPSTREAM_SET@.len() implies #[trigger] clash_at(GPU_UPSTREAM_SET@, DISK_PATCHED_INIT@, d) by {
        let x = GPU_UPSTREAM_SET@;
        let y = DISK_PATCHED_INIT@;
        let idx = if x[d + 0] != y[0] { 0int } else if x[d + 1] != y[1] { 1int } else { 2int };
        assert(x[d + idx] != y[idx]);
    }
}

/// The reserved GPU texts cannot hold or cut into the upstream texts of the
/// other edits, nor into the reserved disk initialiser.
proof fn lemma_gpu_writes_apart()
    ensures
        clash_from(GPU_PATCHED_INIT@, DISK_UPSTREAM_ADD@, 0),
        clash_from(DISK_UPSTREAM_ADD@, GPU_PATCHED_INIT@, 1),
        clash_from(GPU_PATCHED_INIT@, DISK_UPSTREAM_INIT@, 0),
        clash_from(DISK_UPSTREAM_INIT@, GPU_PATCHED_INIT@, 1),
        clash_from(GPU_PATCHED_SET@, DISK_UPSTREAM_ADD@, 0),
        clash_from(DISK_UPSTREAM_ADD@, GPU_PATCHED_SET@, 1),
        clash_from(GPU_PATCHED_SET@, DISK_UPSTREAM_INIT@, 0),
        clash_from(DISK_UPSTREAM_INIT@, GPU_PATCHED_SET@, 1),
        clash_from(GPU_PATCHED_INIT@, DISK_PATCHED_INIT@, 0),
        clash_from(DISK_PATCHED_INIT@, GPU_PATCHED_INIT@, 1),
        clash_from(GPU_PATCHED_SET@, DISK_PATCHED_INIT@, 0),
        clash_from(DISK_PATCHED_INIT@, GPU_PATCHED_SET@, 1),
{
    reveal_strlit(r#"      const spaceSep = new St.Label({ text: "  " });

      this.add_child(this._elementsName[filesystem]);
      this.add_child(this._elementsValue[filesystem]);
      this.add_child(this._elementsUnit[filesystem]);
      this.add_child(spaceSep);
      this.add_child(this._elementsSecondaryValue[filesystem]);
      this.add_child(this._elementsSecondaryUnit[filesystem]);"#);
    reveal_strlit(r#"  class DiskContainerSpace extends DiskContainer {
    _init() {
      super._init();

      this._elementsSecondaryValue = [];
      this._elementsSecondaryUnit = [];
    }"#);
    reveal_strlit(r#"  class DiskContainerSpace extends DiskContainer {
    _init() {
      super._init();

      // Stable reserved width (px, pre-scale) for the disk-space secondary
      // activity percentage so it does not shift the panel as digits change.
      // Covers the 3-digit worst case "100" at the panel font with slack;
      // secondary values render at 0.92em so this comfortably fits it.
      this._diskActivityWidth = 24;

      this._elementsSecondaryValue = [];
      this._elementsSecondaryUnit = [];
    }"#);
    reveal_strlit(r#"  class GpuContainer extends St.BoxLayout {
    _init() {
      super._init();

      this._elementsUuid = [];
      this._elementsName = [];
      this._elementsValue = [];
      this._elementsUnit = [];
      this._elementsMemoryValue = [];
      this._elementsMemoryUnit = [];
      this._elementsThermalValue = [];
      this._elementsThermalUnit = [];
      // Stable reserved width (px, pre-scale) for the GPU VRAM value so it
      // stays snug beside the GPU usage percentage. VRAM is numeric GB, at
      // most 2 digits ("99"), measured ~16px at the panel font; the value
      // label is separate from its unit, so this covers the widest reading.
      this._gpuMemoryWidth = 16;
      this._separatorPairs = [];
    }"#);
    reveal_strlit(r#"      } else {
        this._elementsUuid.forEach((element) => {
          if (this._elementsValue[element] !== undefined) {
            this._elementsValue[element].width = width;
          }

          if (this._elementsMemoryValue[element] !== undefined) {
            // VRAM value (0-99 GB, 2 digits) gets its own tighter reserved
            // width so it stays snug next to the GPU usage percentage.
            this._elementsMemoryValue[element].width = this._gpuMemoryWidth;
          }
        });
      }"#);
    assert forall|d: int| 0 <= d < GPU_PATCHED_INIT@.len() implies #[trigger] clash_at(GPU_PATCHED_INIT@, DISK_UPSTREAM_ADD@, d) by {
        let x = GPU_PATCHED_INIT@;
        let y = DISK_UPSTREAM_ADD@;
        let idx = if x[d + 0] != y[0] { 0int } else if x[d + 1] != y[1] { 1int } else if x[d + 2] != y[2] { 2int } else if x[d + 3] != y[3] { 3int } else if x[d + 4] != y[4] { 4int } else if x[d + 5] != y[5] { 5int } else { 6int };
        assert(x[d + idx] != y[idx]);
    }
    assert forall|d: int| 1 <= d < DISK_UPSTREAM_ADD@.len() implies #[trigger] clash_at(DISK_UPSTREAM_ADD@, GPU_PATCHED_INIT@, d) by {
        let x = DISK_UPSTREAM_ADD@;
        let y = GPU_PATCHED_INIT@;
        let idx = if x[d + 0] != y[0] { 0int } else if x[d + 1] != y[1] { 1int } else if x[d + 2] != y[2] { 2int } else { 3int };
        assert(x[d + idx] != y[idx]);
    }
    assert forall|d: int| 0 <= d < GPU_PATCHED_INIT@.len() implies #[trigger] clash_at(GPU_PATCHED_INIT@, DISK_UPSTREAM_INIT@, d) by {
        let x = GPU_PATCHED_INIT@;
        let y = DISK_UPSTREAM_INIT@;
        let idx = if d == 0 { 8int } else if x[d + 0] != y[0] { 0int } else if x[d + 1] != y[1] { 1int } else { 2int };
        assert(x[d + idx] != y[idx]);
    }
    assert forall|d: int| 1 <= d < DISK_UPSTREAM_INIT@.len() implies #[trigger] clash_at(DISK_UPSTREAM_INIT@, GPU_PATCHED_INIT@, d) by {
        let x = DISK_UPSTREAM_INIT@;
        let y = GPU_PATCHED_INIT@;
        let idx = if x[d + 0] != y[0] { 0int } else if x[d + 1] != y[1] { 1int } else { 2int };
        assert(x[d + idx] != y[idx]);
    }
    assert forall|d: int| 0 <= d < GPU_PATCHED_SET@.len() implies #[trigger] clash_at(GPU_PATCHED_SET@, DISK_UPSTREAM_ADD@, d) by {
        let x = GPU_PATCHED_SET@;
        let y = DISK_UPSTREAM_ADD@;
        let idx = if x[d + 0] != y[0] { 0int } else if x[d + 1] != y[1] { 1int } else if x[d + 2] != y[2] { 2int } else if x[d + 3] != y[3] { 3int } else if x[d + 4] != y[4] { 4int } else if x[d + 5] != y[5] { 5int } else { 6int };
        assert(x[d + idx] != y[idx]);
    }
    assert forall|d: int| 1 <= d < DISK_UPSTREAM_ADD@.len() implies #[trigger] clash_at(DISK_UPSTREAM_ADD@, GPU_PATCHED_SET@, d) by {
        let x = DISK_UPSTREAM_ADD@;
        let y = GPU_PATCHED_SET@;
        let idx = if x[d + 0] != y[0] { 0int } else if x[d + 1] != y[1] { 1int } else if x[d + 2] != y[2] { 2int } else if x[d + 3] != y[3] { 3int } else if x[d + 4] != y[4] { 4int } else if x[d + 5] != y[5] { 5int } else { 6int };
        assert(x[d + idx] != y[idx]);
    }
    assert forall|d: int| 0 <= d < GPU_PATCHED_SET@.len() implies #[trigger] clash_at(GPU_PATCHED_SET@, DISK_UPSTREAM_INIT@, d) by {
        let x = GPU_PATCHED_SET@;
        let y = DISK_UPSTREAM_INIT@;
        let idx = if x[d + 0] != y[0] { 0int } else if x[d + 1] != y[1] { 1int } else { 2int };
        assert(x[d + idx] != y[idx]);
    }
    assert forall|d: int| 1 <= d < DISK_UPSTREAM_INIT@.len() implies #[trigger] clash_at(DISK_UPSTREAM_INIT@, GPU_PATCHED_SET@, d) by {
        let x = DISK_UPSTREAM_INIT@;
        let y = GPU_PATCHED_SET@;
        let idx = if x[d + 0] != y[0] { 0int } else if x[d + 1] != y[1] { 1int } else if x[d + 2] != y[2] { 2int } else if x[d + 3] != y[3] { 3int } else if x[d + 4] != y[4] { 4int } else if x[d + 5] != y[5] { 5int } else { 6int };
        assert(x[d + idx] != y[idx]);
    }
    assert forall|d: int| 0 <= d < GPU_PATCHED_INIT@.len() implies #[trigger] clash_at(GPU_PATCHED_INIT@, DISK_PATCHED_INIT@, d) by {
        let x = GPU_PATCHED_INIT@;
        let y = DISK_PATCHED_INIT@;
        let idx = if d == 0 { 8int } else if x[d + 0] != y[0] { 0int } else if x[d + 1] != y[1] { 1int } else { 2int };
        assert(x[d + idx] != y[idx]);
    }
    assert forall|d: int| 1 <= d < DISK_PATCHED_INIT@.len() implies #[trigger] clash_at(DISK_PATCHED_INIT@, GPU_PATCHED_INIT@, d) by {
        let x = DISK_PATCHED_INIT@;
        let y = GPU_PATCHED_INIT@;
        let idx = if x[d + 0] != y[0] { 0int } else if x[d + 1] != y[1] { 1int } else { 2int };
        assert(x[d + idx] != y[idx]);
    }
    assert forall|d: int| 0 <= d < GPU_PATCHED_SET@.len() implies #[trigger] clash_at(GPU_PATCHED_SET@, DISK_PATCHED_INIT@, d) by {
        let x = GPU_PATCHED_SET@;
        let y = DISK_PATCHED_INIT@;
        let idx = if x[d + 0] != y[0] { 0int } else if x[d + 1] != y[1] { 1int } else { 2int };
        assert(x[d + idx] != y[idx]);
    }
    assert forall|d: int| 1 <= d < DISK_PATCHED_INIT@.len() implies #[trigger] clash_at(DISK_PATCHED_INIT@, GPU_PATCHED_SET@, d) by {
        let x = DISK_PATCHED_INIT@;
        let y = GPU_PATCHED_SET@;
        let idx = if x[d + 0] != y[0] { 0int } else if x[d + 1] != y[1] { 1int } else if x[d + 2] != y[2] { 2int } else if x[d + 3] != y[3] { 3int } else if x[d + 4] != y[4] { 4int } else if x[d + 5] != y[5] { 5int } else { 6int };
        assert(x[d + idx] != y[idx]);
    }
}

/// The markers sit in the reserved forms that carry them, and no other
/// reserved text can hold or cut into them; the reserved texts cannot
/// overlap themselves (the GPU set block only at a shift past its marker).
proof fn lemma_markers_apart()
    ensures
        clash_from(DISK_PATCHED_INIT@, DISK_MARKER@, 0),
        clash_from(DISK_MARKER@, DISK_PATCHED_INIT@, 1),
        clash_from(GPU_PATCHED_INIT@, DISK_MARKER@, 0),
        clash_from(DISK_MARKER@, GPU_PATCHED_INIT@, 1),
        clash_from(GPU_PATCHED_SET@, DISK_MARKER@, 0),
        clash_from(DISK_MARKER@, GPU_PATCHED_SET@, 1),
        clash_from(GPU_PATCHED_INIT@, GPU_MARKER@, 0),
        clash_from(GPU_MARKER@, GPU_PATCHED_INIT@, 1),
        clash_from(DISK_PATCHED_ADD@, DISK_PATCHED_ADD@, 1),
        clash_from(DISK_PATCHED_INIT@, DISK_PATCHED_INIT@, 1),
        clash_from(GPU_PATCHED_INIT@, GPU_PATCHED_INIT@, 1),
        GPU_MARKER@.len() == 60,
        matches_at(GPU_PATCHED_SET@, GPU_MARKER@, 275),
        matches_at(DISK_PATCHED_ADD@, DISK_MARKER@, 258),
        forall|d: int| 1 <= d < 335 ==> #[trigger] clash_at(GPU_PATCHED_SET@, GPU_PATCHED_SET@, d),
{
    reveal_strlit("Space separator between disk-space activity percent and its unit (stable width)");
    reveal_strlit("VRAM value (0-99 GB, 2 digits) gets its own tighter reserved");
    reveal_strlit(r#"      const spaceSep = new St.Label({ text: "  " });

      this.add_child(this._elementsName[filesystem]);
      this.add_child(this._elementsValue[filesystem]);
      this.add_child(this._elementsUnit[filesystem]);
      this.add_child(spaceSep);
      // Space separator between disk-space activity percent and its unit (stable width)
      this._elementsSecondaryValue[filesystem].width = this._diskActivityWidth;
      this.add_child(this._elementsSecondaryValue[filesystem]);
      this.add_child(this._elementsSecondaryUnit[filesystem]);"#);
    reveal_strlit(r#"  class DiskContainerSpace extends DiskContainer {
    _init() {
      super._init();

      // Stable reserved width (px, pre-scale) for the disk-space secondary
      // activity percentage so it does not shift the panel as digits change.
      // Covers the 3-digit worst case "100" at the panel font with slack;
      // secondary values render at 0.92em so this comfortably fits it.
      this._diskActivityWidth = 24;

      this._elementsSecondaryValue = [];
      this._elementsSecondaryUnit = [];
    }"#);
    reveal_strlit(r#"  class GpuContainer extends St.BoxLayout {
    _init() {
      super._init();

      this._elementsUuid = [];
      this._elementsName = [];
      this._elementsValue = [];
      this._elementsUnit = [];
      this._elementsMemoryValue = [];
      this._elementsMemoryUnit = [];
      this._elementsThermalValue = [];
      this._elementsThermalUnit = [];
      // Stable reserved width (px, pre-scale) for the GPU VRAM value so it
      // stays snug beside the GPU usage percentage. VRAM is numeric GB, at
      // most 2 digits ("99"), measured ~16px at the panel font; the value
      // label is separate from its unit, so this covers the widest reading.
      this._gpuMemoryWidth = 16;
      this._separatorPairs = [];
    }"#);
    reveal_strlit(r#"      } else {
        this._elementsUuid.forEach((element) => {
          if (this._elementsValue[element] !== undefined) {
            this._elementsValue[element].width = width;
          }

          if (this._elementsMemoryValue[element] !== undefined) {
            // VRAM value (0-99 GB, 2 digits) gets its own tighter reserved
            // width so it stays snug next to the GPU usage percentage.
            this._elementsMemoryValue[element].width = this._gpuMemoryWidth;
          }
        });
      }"#);
    assert forall|d: int| 0 <= d < DISK_PATCHED_INIT@.len() implies #[trigger] clash_at(DISK_PATCHED_INIT@, DISK_MARKER@, d) by {
        let x = DISK_PATCHED_INIT@;
        let y = DISK_MARKER@;
        let idx = if x[d + 0] != y[0] { 0int } else if x[d + 1] != y[1] { 1int } else if x[d + 2] != y[2] { 2int } else if x[d + 3] != y[3] { 3int } else if x[d + 4] != y[4] { 4int } else if x[d + 5] != y[5] { 5int } else { 6int };
        assert(x[d + idx] != y[idx]);
    }
    assert forall|d: int| 1 <= d < DISK_MARKER@.len() implies #[trigger] clash_at(DISK_MARKER@, DISK_PATCHED_INIT@, d) by {
        let x = DISK_MARKER@;
        let y = DISK_PATCHED_INIT@;
        let idx = if x[d + 0] != y[0] { 0int } else { 1int };
        assert(x[d + idx] != y[idx]);
    }
    assert forall|d: int| 0 <= d < GPU_PATCHED_INIT@.len() implies #[trigger] clash_at(GPU_PATCHED_INIT@, DISK_MARKER@, d) by {
        let x = GPU_PATCHED_INIT@;
        let y = DISK_MARKER@;
        let idx = if x[d + 0] != y[0] { 0int } else { 1int };
        assert(x[d + idx] != y[idx]);
    }
    assert forall|d: int| 1 <= d < DISK_MARKER@.len() implies #[trigger] clash_at(DISK_MARKER@, GPU_PATCHED_INIT@, d) by {
        let x = DISK_MARKER@;
        let y = GPU_PATCHED_INIT@;
        let idx = if x[d + 0] != y[0] { 0int } else { 1int };
        assert(x[d + idx] != y[idx]);
    }
    assert forall|d: int| 0 <= d < GPU_PATCHED_SET@.len() implies #[trigger] clash_at(GPU_PATCHED_SET@, DISK_MARKER@, d) by {
        let x = GPU_PATCHED_SET@;
        let y = DISK_MARKER@;
        let idx = { 0int };
        assert(x[d + idx] != y[idx]);
    }
    assert forall|d: int| 1 <= d < DISK_MARKER@.len() implies #[trigger] clash_at(DISK_MARKER@, GPU_PATCHED_SET@, d) by {
        let x = DISK_MARKER@;
        let y = GPU_PATCHED_SET@;
        let idx = if x[d + 0] != y[0] { 0int } else { 1int };
        assert(x[d + idx] != y[idx]);
    }
    assert forall|d: int| 0 <= d < GPU_PATCHED_INIT@.len() implies #[trigger] clash_at(GPU_PATCHED_INIT@, GPU_MARKER@, d) by {
        let x = GPU_PATCHED_INIT@;
        let y = GPU_MARKER@;
        let idx = if d == 416 { 11int } else if x[d + 0] != y[0] { 0int } else if x[d + 1] != y[1] { 1int } else if x[d + 2] != y[2] { 2int } else if x[d + 3] != y[3] { 3int } else if x[d + 4] != y[4] { 4int } else { 5int };
        assert(x[d + idx] != y[idx]);
    }
    assert forall|d: int| 1 <= d < GPU_MARKER@.len() implies #[trigger] clash_at(GPU_MARKER@, GPU_PATCHED_INIT@, d) by {
        let x = GPU_MARKER@;
        let y = GPU_PATCHED_INIT@;
        let idx = if x[d + 0] != y[0] { 0int } else { 1int };
        assert(x[d + idx] != y[idx]);
    }
    assert forall|d: int| 1 <= d < DISK_PATCHED_ADD@.len() implies #[trigger] clash_at(DISK_PATCHED_ADD@, DISK_PATCHED_ADD@, d) by {
        let x = DISK_PATCHED_ADD@;
        let y = DISK_PATCHED_ADD@;
        let idx = if x[d + 0] != y[0] { 0int } else if x[d + 1] != y[1] { 1int } else if x[d + 2] != y[2] { 2int } else if x[d + 3] != y[3] { 3int } else if x[d + 4] != y[4] { 4int } else if x[d + 5] != y[5] { 5int } else { 6int };
        assert(x[d + idx] != y[idx]);
    }
    assert forall|d: int| 1 <= d < DISK_PATCHED_INIT@.len() implies #[trigger] clash_at(DISK_PATCHED_INIT@, DISK_PATCHED_INIT@, d) by {
        let x = DISK_PATCHED_INIT@;
        let y = DISK_PATCHED_INIT@;
        let idx = if x[d + 0] != y[0] { 0int } else if x[d + 1] != y[1] { 1int } else { 2int };
        assert(x[d + idx] != y[idx]);
    }
    assert forall|d: int| 1 <= d < GPU_PATCHED_INIT@.len() implies #[trigger] clash_at(GPU_PATCHED_INIT@, GPU_PATCHED_INIT@, d) by {
        let x = GPU_PATCHED_INIT@;
        let y = GPU_PATCHED_INIT@;
        let idx = if x[d + 0] != y[0] { 0int } else if x[d + 1] != y[1] { 1int } else { 2int };
        assert(x[d + idx] != y[idx]);
    }
    assert forall|d: int| 1 <= d < 335 implies #[trigger] clash_at(GPU_PATCHED_SET@, GPU_PATCHED_SET@, d) by {
        let x = GPU_PATCHED_SET@;
        let y = GPU_PATCHED_SET@;
        let idx = if x[d + 0] != y[0] { 0int } else if x[d + 1] != y[1] { 1int } else if x[d + 2] != y[2] { 2int } else if x[d + 3] != y[3] { 3int } else if x[d + 4] != y[4] { 4int } else if x[d + 5] != y[5] { 5int } else if x[d + 6] != y[6] { 6int } else { 7int };
        assert(x[d + idx] != y[idx]);
    }
    assert(GPU_PATCHED_SET@.subrange(275, 335) =~= GPU_MARKER@);
    assert(DISK_PATCHED_ADD@.subrange(258, 337) =~= DISK_MARKER@);
}

/// The GPU half of the round trip: from a text without the GPU marker whose
/// first upstream GPU initialiser has no reserved initialiser before it,
/// the stable GPU edits followed by the compact GPU step give the text back.
proof fn lemma_gpu_round_trip(c: Seq<char>)
    requires
        !contains(c, GPU_MARKER@),
        contains(c, GPU_UPSTREAM_INIT@),
        contains(replace_first(c, GPU_UPSTREAM_INIT@, GPU_PATCHED_INIT@), GPU_UPSTREAM_SET@),
        forall|p: int| 0 <= p < find(c, GPU_UPSTREAM_INIT@)->0 ==> !#[trigger] matches_at(c, GPU_PATCHED_INIT@, p),
    ensures
        gpu_step(
            replace_first(replace_first(c, GPU_UPSTREAM_INIT@, GPU_PATCHED_INIT@), GPU_UPSTREAM_SET@, GPU_PATCHED_SET@),
            true,
        ) == Ok::<(Seq<char>, bool), StableWidthError>((c, true)),
{
    lemma_upstream_texts_apart();
    lemma_markers_apart();
    lemma_find_from(c, GPU_UPSTREAM_INIT@, 0);
    let f3 = replace_first(c, GPU_UPSTREAM_INIT@, GPU_PATCHED_INIT@);
    let t2 = replace_first(f3, GPU_UPSTREAM_SET@, GPU_PATCHED_SET@);
    lemma_absent_survives(c, GPU_UPSTREAM_INIT@, GPU_PATCHED_INIT@, GPU_MARKER@);
    lemma_find_from(f3, GPU_UPSTREAM_SET@, 0);
    lemma_replace_first_has_rep(f3, GPU_UPSTREAM_SET@, GPU_PATCHED_SET@);
    lemma_matches_within(t2, GPU_PATCHED_SET@, GPU_MARKER@, find(f3, GPU_UPSTREAM_SET@)->0, 275);
    lemma_contains_at(t2, GPU_MARKER@, find(f3, GPU_UPSTREAM_SET@)->0 + 275);
    lemma_replace_undone_marked(f3, GPU_UPSTREAM_SET@, GPU_PATCHED_SET@, GPU_MARKER@, 275);
    lemma_replace_first_has_rep(c, GPU_UPSTREAM_INIT@, GPU_PATCHED_INIT@);
    lemma_replace_undone(c, GPU_UPSTREAM_INIT@, GPU_PATCHED_INIT@);
}

/// Compact mode undoes stable mode on the upstream form: for a text with
/// neither reservation marker on which the stable patch succeeds, where no
/// reserved initialiser stands before the first upstream one it would
/// replace (the disk one only matters when the disk labels are there), the
/// stable patch changes the text, and the compact patch of its output
/// gives the original text back, reporting a change.
pub proof fn lemma_compact_undoes_stable(content: Seq<char>)
    requires
        !contains(content, DISK_MARKER@),
        !contains(content, GPU_MARKER@),
        stable_width_patch(content, false) is Ok,
        contains(content, DISK_UPSTREAM_ADD@) ==> forall|p: int|
            0 <= p < find(content, DISK_UPSTREAM_INIT@)->0 ==> !#[trigger] matches_at(content, DISK_PATCHED_INIT@, p),
        forall|p: int|
            0 <= p < find(content, GPU_UPSTREAM_INIT@)->0 ==> !#[trigger] matches_at(content, GPU_PATCHED_INIT@, p),
    ensures
        stable_width_patch(content, false) matches Ok((t, changed)) && changed
            && stable_width_patch(t, true) == Ok::<(Seq<char>, bool), StableWidthError>((content, true)),
{
    lemma_upstream_texts_apart();
    lemma_disk_add_apart();
    lemma_disk_init_apart();
    lemma_gpu_writes_apart();
    lemma_markers_apart();
    let c = content;
    let ua = DISK_UPSTREAM_ADD@;
    let pa = DISK_PATCHED_ADD@;
    let ui = DISK_UPSTREAM_INIT@;
    let pi = DISK_PATCHED_INIT@;
    let gui = GPU_UPSTREAM_INIT@;
    let gpi = GPU_PATCHED_INIT@;
    let gus = GPU_UPSTREAM_SET@;
    let gps = GPU_PATCHED_SET@;
    let f3 = replace_first(c, gui, gpi);
    let t2 = replace_first(f3, gus, gps);
    if contains(c, ua) {
        let c1 = replace_first(c, ua, pa);
        let c2 = replace_first(c1, ui, pi);
        let c3 = replace_first(c2, gui, gpi);
        let c4 = replace_first(c3, gus, gps);
        lemma_stable_disk_step(c);
        assert(disk_step(c, false) == Ok::<(Seq<char>, bool), StableWidthError>((c2, true)));
        assert(stable_width_patch(c, false) == Ok::<(Seq<char>, bool), StableWidthError>((c4, true)));
        // The first upstream disk texts, and their order.
        lemma_find_from(c, ua, 0);
        let a = find(c, ua)->0;
        if !contains(c, ui) {
            lemma_absent_survives(c, ua, pa, ui);
        }
        lemma_find_from(c, ui, 0);
        let b = find(c, ui)->0;
        if a <= b && b < a + ua.len() {
            lemma_no_overlap(c, ua, ui, 0, a, b);
        }
        if b < a && a < b + ui.len() {
            lemma_no_overlap(c, ui, ua, 1, b, a);
        }
        // Move the add-block edit past the initialiser edit.
        lemma_block_survives(c, ua, pa, ui, ui);
        lemma_block_survives(c, ui, pi, ua, ua);
        lemma_replace_commutes(c, ua, pa, ui, pi);
        let e2 = replace_first(c, ui, pi);
        if !contains(e2, gui) {
            lemma_absent_survives(e2, ua, pa, gui);
        }
        if !contains(c, gui) {
            lemma_absent_survives(c, ui, pi, gui);
        }
        lemma_find_from(e2, ua, 0);
        lemma_find_from(e2, gui, 0);
        let a2 = find(e2, ua)->0;
        let g2 = find(e2, gui)->0;
        if a2 <= g2 && g2 < a2 + ua.len() {
            lemma_no_overlap(e2, ua, gui, 0, a2, g2);
        }
        if g2 < a2 && a2 < g2 + gui.len() {
            lemma_no_overlap(e2, gui, ua, 1, g2, a2);
        }
        // ... past the GPU initialiser edit ...
        lemma_block_survives(e2, ua, pa, gui, gui);
        lemma_block_survives(e2, gui, gpi, ua, ua);
        lemma_replace_commutes(e2, ua, pa, gui, gpi);
        let e3 = replace_first(e2, gui, gpi);
        if !contains(e3, gus) {
            lemma_absent_survives(e3, ua, pa, gus);
        }
        lemma_find_from(e3, ua, 0);
        lemma_find_from(e3, gus, 0);
        let a3 = find(e3, ua)->0;
        let h3 = find(e3, gus)->0;
        if a3 <= h3 && h3 < a3 + ua.len() {
            lemma_no_overlap(e3, ua, gus, 0, a3, h3);
        }
        if h3 < a3 && a3 < h3 + gus.len() {
            lemma_no_overlap(e3, gus, ua, 1, h3, a3);
        }
        // ... and past the GPU set edit: the add-block edit comes last.
        lemma_block_survives(e3, ua, pa, gus, gus);
        lemma_block_survives(e3, gus, gps, ua, ua);
        lemma_replace_commutes(e3, ua, pa, gus, gps);
        let t = replace_first(e3, gus, gps);
        assert(c4 == replace_first(t, ua, pa));
        // Undo the add-block edit: its reserved form is the marked one.
        lemma_absent_survives(c, ui, pi, DISK_MARKER@);
        lemma_absent_survives(e2, gui, gpi, DISK_MARKER@);
        lemma_absent_survives(e3, gus, gps, DISK_MARKER@);
        assert forall|p: int| 0 <= p && p + pa.len() <= find(t, ua)->0 implies !#[trigger] matches_at(t, pa, p) by {
            if matches_at(t, pa, p) {
                lemma_matches_within(t, pa, DISK_MARKER@, p, 258);
                lemma_contains_at(t, DISK_MARKER@, p + 258);
            }
        }
        lemma_replace_undone(t, ua, pa);
        lemma_replace_first_has_rep(t, ua, pa);
        lemma_matches_within(c4, pa, DISK_MARKER@, find(t, ua)->0, 258);
        lemma_contains_at(c4, DISK_MARKER@, find(t, ua)->0 + 258);
        // Move the initialiser edit past both GPU edits.
        lemma_find_from(c, gui, 0);
        let g = find(c, gui)->0;
        if b <= g && g < b + ui.len() {
            lemma_no_overlap(c, ui, gui, 0, b, g);
        }
        if g < b && b < g + gui.len() {
            lemma_no_overlap(c, gui, ui, 1, g, b);
        }
        lemma_block_survives(c, ui, pi, gui, gui);
        lemma_block_survives(c, gui, gpi, ui, ui);
        lemma_replace_commutes(c, ui, pi, gui, gpi);
        if !contains(f3, gus) {
            lemma_absent_survives(f3, ui, pi, gus);
        }
        lemma_find_from(f3, ui, 0);
        lemma_find_from(f3, gus, 0);
        let b3 = find(f3, ui)->0;
        let h = find(f3, gus)->0;
        if b3 <= h && h < b3 + ui.len() {
            lemma_no_overlap(f3, ui, gus, 0, b3, h);
        }
        if h < b3 && b3 < h + gus.len() {
            lemma_no_overlap(f3, gus, ui, 1, h, b3);
        }
        lemma_block_survives(f3, ui, pi, gus, gus);
        lemma_block_survives(f3, gus, gps, ui, ui);
        lemma_replace_commutes(f3, ui, pi, gus, gps);
        assert(t == replace_first(t2, ui, pi));
        // Undo the initialiser edit: no reserved initialiser comes first.
        lemma_none_before_survives(c, gui, gpi, ui, pi);
        lemma_none_before_survives(f3, gus, gps, ui, pi);
        lemma_replace_undone(t2, ui, pi);
        lemma_replace_first_has_rep(t2, ui, pi);
        assert(disk_step(c4, true) == Ok::<(Seq<char>, bool), StableWidthError>((t2, true)));
        lemma_gpu_round_trip(c);
    } else {
        assert(disk_step(c, false) == Ok::<(Seq<char>, bool), StableWidthError>((c, false)));
        lemma_absent_survives(c, gui, gpi, DISK_MARKER@);
        lemma_absent_survives(f3, gus, gps, DISK_MARKER@);
        assert(disk_step(t2, true) == Ok::<(Seq<char>, bool), StableWidthError>((t2, false)));
        lemma_gpu_round_trip(c);
    }
}

} // verus!
