//! Override `_getUsageColor` with 256-step RGB gradients.
//!
//! Patches `extension.js` to:
//!
//! 1. Inject gradient configuration into each indicator's colour settings
//!    during init; each colours array gets a type marker (e.g. `"__cpu"`) so
//!    the gradient function can identify the metric being coloured.
//! 2. Override `_getUsageColor` with a gradient-based implementation that uses
//!    those markers to select the gradient.
//!
//! The gradient ranges come from [`crate::gradient_colors`], so the values
//! interpolated into the injected support block have a single definition.

use vstd::prelude::*;
use crate::gradient_colors::{DISK_USAGE_MAX_PERCENT, ETHERNET_MAX_MBPS, GPU_MEMORY_MAX_GB, RAM_MAX_GB};
use crate::patch_process_popup::lemma_decimal_is_digits;
use crate::patch_text::{lemma_absent_survives, lemma_match_survives};
use crate::settings::{decimal, decimal_exec};
use crate::text::{
    chars_eq, chars_string, clash_at, clash_from, contains, contains_str, find, lemma_clash_concat,
    lemma_contains, lemma_contains_at, lemma_contains_parts, lemma_contains_trans, lemma_find_from,
    lemma_replace_first_has_rep, matches_at, push_all, push_str, replace_first, replace_first_exec,
    replace_first_str, str_chars, strs_view,
};

verus! {

/// Presence of this identifier means the gradient patch is already applied.
pub const ALREADY_PATCHED_MARKER: &'static str = "_gradientGetUsageColor";

/// Anchor the support block is injected before.
pub const CLASS_MARKER: &'static str = "export default class";

pub const ORIGINAL_METHOD: &'static str = r#"    _getUsageColor(value, colors) {
      return getUsageColor(value, colors, COLOR_LIST_SEPARATOR);
    }"#;

/// Everything in the injected support block after the four range constants.
pub const SUPPORT_BLOCK_BODY: &'static str = r#"
function rgbToStyle(r, g, b) {
  const rr = Math.max(0, Math.min(255, Math.round(r)));
  const gg = Math.max(0, Math.min(255, Math.round(g)));
  const bb = Math.max(0, Math.min(255, Math.round(b)));
  return `color: rgb(${rr}, ${gg}, ${bb});`;
}

function getGradientColor(value, minVal, maxVal, startRGB, endRGB) {
  if (!Number.isFinite(value)) return "";

  const ratio = (value - minVal) / (maxVal - minVal);
  const clampedRatio = Math.max(0, Math.min(1, ratio));
  const r = startRGB[0] + (endRGB[0] - startRGB[0]) * clampedRatio;
  const g = startRGB[1] + (endRGB[1] - startRGB[1]) * clampedRatio;
  const b = startRGB[2] + (endRGB[2] - startRGB[2]) * clampedRatio;

  return rgbToStyle(r, g, b);
}

function getGreenYellowRedGradientColor(value, minVal, maxVal, startRGB, endRGB) {
  const midpoint = minVal + (maxVal - minVal) / 2;
  const midpointRGB = [255, 255, 0];

  if (value <= midpoint) {
    return getGradientColor(value, minVal, midpoint, startRGB, midpointRGB);
  }

  return getGradientColor(value, midpoint, maxVal, midpointRGB, endRGB);
}

const GRADIENT_CONFIGS = {
  cpu: {
    minVal: 0,
    maxVal: 100,
    startRGB: [0, 255, 0],
    endRGB: [255, 0, 0],
    inverted: false,
  },
  ram: {
    minVal: 0,
    maxVal: RAM_MAX_GB,
    startRGB: [0, 255, 0],
    endRGB: [255, 0, 0],
    inverted: false,
  },
  diskSpace: {
    minVal: 0,
    maxVal: DISK_USAGE_MAX_PERCENT,
    startRGB: [0, 255, 0],
    endRGB: [255, 0, 0],
    inverted: false,
  },
  eth: {
    minVal: 0,
    maxVal: ETHERNET_MAX_MBPS,
    startRGB: [0, 255, 0],
    endRGB: [255, 0, 0],
    inverted: false,
  },
  wlan: {
    minVal: 0,
    maxVal: ETHERNET_MAX_MBPS,
    startRGB: [0, 255, 0],
    endRGB: [255, 0, 0],
    inverted: false,
  },
  gpu: {
    minVal: 0,
    maxVal: 100,
    startRGB: [0, 255, 0],
    endRGB: [255, 0, 0],
    inverted: false,
  },
  gpuMemory: {
    minVal: 0,
    maxVal: GPU_MEMORY_MAX_GB,
    startRGB: [0, 255, 0],
    endRGB: [255, 0, 0],
    inverted: false,
  },
};"#;

/// Gradient implementation plus type-marker injection, replacing the upstream
/// `_getUsageColor` method body.
pub const REPLACEMENT: &'static str = r#"    // ── Gradient-based color override (patched by rm-monitor patch-colors) ──
    // Augment each indicator's colors array with a type marker for reliable detection.
    _augmentColorsWithType(colors, typeMarker) {
      if (!Array.isArray(colors)) return colors;
      const hasMarker = colors.some(c => c.includes(typeMarker));
      if (hasMarker) return colors;
      return [...colors, typeMarker];
    }

    // Override all color initialization to inject type markers.
    _diskSpaceColorsChanged() {
      this._diskSpaceColors = this._settings.get_strv(DISK_SPACE_COLORS);
      this._diskSpaceColors = this._augmentColorsWithType(this._diskSpaceColors, "__diskSpace");
    }

    _cpuColorsChanged() {
      this._cpuColors = this._settings.get_strv(CPU_COLORS);
      this._cpuColors = this._augmentColorsWithType(this._cpuColors, "__cpu");
    }

    _ramColorsChanged() {
      this._ramColors = this._settings.get_strv(RAM_COLORS);
      this._ramColors = this._augmentColorsWithType(this._ramColors, "__ram");
    }

    _netEthColorsChanged() {
      this._netEthColors = this._settings.get_strv(NET_ETH_COLORS);
      this._netEthColors = this._augmentColorsWithType(this._netEthColors, "__eth");
    }

    _netWlanColorsChanged() {
      this._netWlanColors = this._settings.get_strv(NET_WLAN_COLORS);
      this._netWlanColors = this._augmentColorsWithType(this._netWlanColors, "__wlan");
    }

    _gpuColorsChanged() {
      this._gpuColors = this._settings.get_strv(GPU_COLORS);
      this._gpuColors = this._augmentColorsWithType(this._gpuColors, "__gpu");
    }

    _gpuMemoryColorsChanged() {
      this._gpuMemoryColors = this._settings.get_strv(GPU_MEMORY_COLORS);
      this._gpuMemoryColors = this._augmentColorsWithType(this._gpuMemoryColors, "__gpuMem");
    }

    // Override the main color initialization to inject type markers.
    _initColors() {
      this._cpuColors = this._augmentColorsWithType(
        this._settings.get_strv(CPU_COLORS), "__cpu"
      );
      this._ramColors = this._augmentColorsWithType(
        this._settings.get_strv(RAM_COLORS), "__ram"
      );
      this._diskSpaceColors = this._augmentColorsWithType(
        this._settings.get_strv(DISK_SPACE_COLORS), "__diskSpace"
      );
      this._netEthColors = this._augmentColorsWithType(
        this._settings.get_strv(NET_ETH_COLORS), "__eth"
      );
      this._netWlanColors = this._augmentColorsWithType(
        this._settings.get_strv(NET_WLAN_COLORS), "__wlan"
      );
      this._gpuColors = this._augmentColorsWithType(
        this._settings.get_strv(GPU_COLORS), "__gpu"
      );
      this._gpuMemoryColors = this._augmentColorsWithType(
        this._settings.get_strv(GPU_MEMORY_COLORS), "__gpuMem"
      );
    }

    // ── Gradient-based _getUsageColor implementation ──
    _gradientGetUsageColor(value, colors) {
      const numericValue = Array.isArray(value) ? Math.max(...value.filter(Number.isFinite)) : value;
      if (!Number.isFinite(numericValue)) return "";

      // Detect indicator type from the colors parameter's type markers.
      const colorStr = Array.isArray(colors) ? colors.join(" ") : String(colors || "");

      let config;
      if (colors === this._diskSpaceColors) {
        config = GRADIENT_CONFIGS.diskSpace;
      } else if (colors === this._netEthColors || colorStr.includes("__eth")) {
        config = GRADIENT_CONFIGS.eth;
      } else if (colors === this._netWlanColors || colorStr.includes("__wlan")) {
        config = GRADIENT_CONFIGS.wlan;
      } else if (colors === this._gpuMemoryColors || colorStr.includes("__gpuMem")) {
        config = GRADIENT_CONFIGS.gpuMemory;
      } else if (colorStr.includes("__diskSpace")) {
        config = GRADIENT_CONFIGS.diskSpace;
      } else if (colors === this._gpuColors || colorStr.includes("__gpu")) {
        config = GRADIENT_CONFIGS.gpu;
      } else if (colors === this._ramColors || colorStr.includes("__ram")) {
        config = GRADIENT_CONFIGS.ram;
      } else if (colors === this._cpuColors || colorStr.includes("__cpu")) {
        config = GRADIENT_CONFIGS.cpu;
      } else {
        config = GRADIENT_CONFIGS.cpu;
      }

      let effectiveValue = numericValue;
      let minVal = config.minVal;
      let maxVal = config.maxVal;

      if (config.inverted) {
        effectiveValue = maxVal - numericValue;
      }

      return getGreenYellowRedGradientColor(
        effectiveValue,
        minVal,
        maxVal,
        config.startRGB,
        config.endRGB
      );
    }

    _getUsageColor(value, colors) {
      return this._gradientGetUsageColor(value, colors);
    }"#;

pub const HELPER_INSERTION_POINT: &'static str = "  return rgbToStyle(r, g, b);\n}";

pub const HELPER_BLOCK: &'static str = r#"  return rgbToStyle(r, g, b);
}

function getGreenYellowRedGradientColor(value, minVal, maxVal, startRGB, endRGB) {
  const midpoint = minVal + (maxVal - minVal) / 2;
  const midpointRGB = [255, 255, 0];

  if (value <= midpoint) {
    return getGradientColor(value, minVal, midpoint, startRGB, midpointRGB);
  }

  return getGradientColor(value, midpoint, maxVal, midpointRGB, endRGB);
}"#;

pub const OLD_RETURN: &'static str = "      return getGradientColor(effectiveValue, minVal, maxVal, config.startRGB, config.endRGB);";

pub const NEW_RETURN: &'static str = r#"      return getGreenYellowRedGradientColor(
        effectiveValue,
        minVal,
        maxVal,
        config.startRGB,
        config.endRGB
      );"#;

pub const MARKER_ONLY_DETECTION: &'static str = r#"      if (colorStr.includes("__eth")) {
        config = GRADIENT_CONFIGS.eth;
      } else if (colorStr.includes("__wlan")) {
        config = GRADIENT_CONFIGS.wlan;
      } else if (colorStr.includes("__gpuMem")) {
        config = GRADIENT_CONFIGS.gpuMemory;
      } else if (colorStr.includes("__diskSpace")) {
        config = GRADIENT_CONFIGS.diskSpace;
      } else if (colorStr.includes("__gpu")) {
        config = GRADIENT_CONFIGS.gpu;
      } else if (colorStr.includes("__ram")) {
        config = GRADIENT_CONFIGS.ram;
      } else if (colorStr.includes("__cpu")) {
        config = GRADIENT_CONFIGS.cpu;"#;

pub const IDENTITY_DETECTION: &'static str = r#"      if (colors === this._diskSpaceColors) {
        config = GRADIENT_CONFIGS.diskSpace;
      } else if (colors === this._netEthColors || colorStr.includes("__eth")) {
        config = GRADIENT_CONFIGS.eth;
      } else if (colors === this._netWlanColors || colorStr.includes("__wlan")) {
        config = GRADIENT_CONFIGS.wlan;
      } else if (colors === this._gpuMemoryColors || colorStr.includes("__gpuMem")) {
        config = GRADIENT_CONFIGS.gpuMemory;
      } else if (colorStr.includes("__diskSpace")) {
        config = GRADIENT_CONFIGS.diskSpace;
      } else if (colors === this._gpuColors || colorStr.includes("__gpu")) {
        config = GRADIENT_CONFIGS.gpu;
      } else if (colors === this._ramColors || colorStr.includes("__ram")) {
        config = GRADIENT_CONFIGS.ram;
      } else if (colors === this._cpuColors || colorStr.includes("__cpu")) {
        config = GRADIENT_CONFIGS.cpu;"#;

/// Heading of the injected support block.
pub const SUPPORT_BLOCK_HEADER: &'static str = "// ── Gradient color support (patched by rm-monitor patch-colors) ──\n";

/// Name of the midpoint-gradient helper, present once it is injected.
pub const MIDPOINT_HELPER_NAME: &'static str = "function getGreenYellowRedGradientColor";

/// Identity-based gradient detection, present once migrated.
pub const IDENTITY_CHECK: &'static str = "colors === this._diskSpaceColors";

/// The self-contained gradient support block injected into `extension.js`.
pub open spec fn support_block_spec() -> Seq<char> {
    SUPPORT_BLOCK_HEADER@ + "const ETHERNET_MAX_MBPS = "@ + decimal(ETHERNET_MAX_MBPS as int) + ";\n"@
        + "const RAM_MAX_GB = "@ + decimal(RAM_MAX_GB as int) + ";\n"@
        + "const DISK_USAGE_MAX_PERCENT = "@ + decimal(DISK_USAGE_MAX_PERCENT as int) + ";\n"@
        + "const GPU_MEMORY_MAX_GB = "@ + decimal(GPU_MEMORY_MAX_GB as int) + ";\n"@ + SUPPORT_BLOCK_BODY@
}

/// Result of [`migrate_green_yellow_red_gradient`].
pub open spec fn midpoint_migration(content: Seq<char>) -> Seq<char> {
    let m1 = if !contains(content, MIDPOINT_HELPER_NAME@) && contains(content, HELPER_INSERTION_POINT@) {
        replace_first(content, HELPER_INSERTION_POINT@, HELPER_BLOCK@)
    } else {
        content
    };
    if contains(m1, OLD_RETURN@) {
        replace_first(m1, OLD_RETURN@, NEW_RETURN@)
    } else {
        m1
    }
}

/// Result of [`patch_extension_js`].
pub open spec fn colors_patch(content: Seq<char>) -> Seq<char> {
    if contains(content, ALREADY_PATCHED_MARKER@) {
        let migrated = midpoint_migration(content);
        if !contains(migrated, IDENTITY_CHECK@) {
            replace_first(migrated, MARKER_ONLY_DETECTION@, IDENTITY_DETECTION@)
        } else {
            migrated
        }
    } else if !contains(content, ORIGINAL_METHOD@) || !contains(content, CLASS_MARKER@) {
        content
    } else {
        let with_support = replace_first(
            content,
            CLASS_MARKER@,
            support_block_spec() + "\n\n"@ + CLASS_MARKER@,
        );
        replace_first(with_support, ORIGINAL_METHOD@, REPLACEMENT@)
    }
}

/// Appends `name = <value>;` and a newline.
fn push_const_line(out: &mut Vec<char>, name: &str, value: i64)
    ensures
        final(out)@ == old(out)@ + name@ + decimal(value as int) + ";\n"@,
{
    push_str(out, name);
    let d = decimal_exec(value);
    push_all(out, d.as_slice());
    push_str(out, ";\n");
}

/// The gradient support block as characters.
fn support_block_chars() -> (r: Vec<char>)
    ensures
        r@ == support_block_spec(),
{
    let mut out: Vec<char> = Vec::new();
    push_str(&mut out, SUPPORT_BLOCK_HEADER);
    push_const_line(&mut out, "const ETHERNET_MAX_MBPS = ", ETHERNET_MAX_MBPS);
    push_const_line(&mut out, "const RAM_MAX_GB = ", RAM_MAX_GB);
    push_const_line(&mut out, "const DISK_USAGE_MAX_PERCENT = ", DISK_USAGE_MAX_PERCENT);
    push_const_line(&mut out, "const GPU_MEMORY_MAX_GB = ", GPU_MEMORY_MAX_GB);
    push_str(&mut out, SUPPORT_BLOCK_BODY);
    out
}

/// Build the self-contained gradient support block injected into
/// `extension.js`; its four range constants come from
/// [`crate::gradient_colors`].
pub fn support_block() -> (r: String)
    ensures
        r@ == support_block_spec(),
{
    let v = support_block_chars();
    chars_string(v.as_slice())
}

/// Upgrade a previously patched `extension.js` from the older two-stop
/// gradient to the green -> yellow -> red midpoint gradient: inject
/// `getGreenYellowRedGradientColor` when missing and rewrite the return
/// statement to call it. Each substitution is applied only when its source
/// form is present.
pub fn migrate_green_yellow_red_gradient(content: &str) -> (r: String)
    ensures
        r@ == midpoint_migration(content@),
{
    let c = str_chars(content);
    let v = migrate_chars(c.as_slice());
    chars_string(v.as_slice())
}

/// [`migrate_green_yellow_red_gradient`] on characters.
fn migrate_chars(c: &[char]) -> (r: Vec<char>)
    ensures
        r@ == midpoint_migration(c@),
{
    let mut m: Vec<char> = Vec::new();
    push_all(&mut m, c);
    assert(m@ =~= c@);
    if !contains_str(m.as_slice(), MIDPOINT_HELPER_NAME) && contains_str(m.as_slice(), HELPER_INSERTION_POINT) {
        m = replace_first_str(m.as_slice(), HELPER_INSERTION_POINT, HELPER_BLOCK);
    }
    if contains_str(m.as_slice(), OLD_RETURN) {
        m = replace_first_str(m.as_slice(), OLD_RETURN, NEW_RETURN);
    }
    m
}

/// Patch `extension.js` to override `_getUsageColor` with gradient colouring
/// and to inject type markers into each indicator's colour settings. When
/// the upstream anchors are missing the content is returned unchanged.
pub fn patch_extension_js(content: &str) -> (r: String)
    ensures
        r@ == colors_patch(content@),
{
    let c = str_chars(content);
    if contains_str(c.as_slice(), ALREADY_PATCHED_MARKER) {
        let migrated = migrate_chars(c.as_slice());
        if !contains_str(migrated.as_slice(), IDENTITY_CHECK) {
            let v = replace_first_str(migrated.as_slice(), MARKER_ONLY_DETECTION, IDENTITY_DETECTION);
            return chars_string(v.as_slice());
        }
        return chars_string(migrated.as_slice());
    }
    if !contains_str(c.as_slice(), ORIGINAL_METHOD) || !contains_str(c.as_slice(), CLASS_MARKER) {
        return content.to_owned();
    }
    let mut insert = support_block_chars();
    push_str(&mut insert, "\n\n");
    push_str(&mut insert, CLASS_MARKER);
    let marker = str_chars(CLASS_MARKER);
    let with_support = replace_first_exec(c.as_slice(), marker.as_slice(), insert.as_slice());
    let v = replace_first_str(with_support.as_slice(), ORIGINAL_METHOD, REPLACEMENT);
    chars_string(v.as_slice())
}

// ── Progress lines ───────────────────────────────────────────────────────────

/// Printed when the midpoint migration changed the text.
pub const NOTE_MIDPOINT: &'static str = "Migrated gradient colors to green-yellow-red midpoint";
/// Printed when marker-only detection is upgraded to identity checks.
pub const NOTE_IDENTITY: &'static str = "Migrating gradient color detection to property identity checks";
/// Printed when the colours are already patched.
pub const NOTE_ALREADY: &'static str = "Colors already patched — skipping";
/// Printed when `_getUsageColor` is missing.
pub const NOTE_NO_METHOD: &'static str = "Could not find target _getUsageColor in extension.js — skipping";
/// Printed when the extension class marker is missing.
pub const NOTE_NO_CLASS: &'static str = "Could not find extension class marker in extension.js — skipping";
/// Printed when the gradient system is injected.
pub const NOTE_PATCHED: &'static str = "Patched extension.js with gradient-based color system";

/// The progress lines [`patch_extension_js`] reports for `content`, in order.
pub open spec fn colors_notes(content: Seq<char>) -> Seq<Seq<char>> {
    if contains(content, ALREADY_PATCHED_MARKER@) {
        let migrated = midpoint_migration(content);
        let first = if migrated != content {
            seq![NOTE_MIDPOINT@]
        } else {
            Seq::empty()
        };
        first + if !contains(migrated, IDENTITY_CHECK@) {
            seq![NOTE_IDENTITY@]
        } else {
            seq![NOTE_ALREADY@]
        }
    } else if !contains(content, ORIGINAL_METHOD@) {
        seq![NOTE_NO_METHOD@]
    } else if !contains(content, CLASS_MARKER@) {
        seq![NOTE_NO_CLASS@]
    } else {
        seq![NOTE_PATCHED@]
    }
}

/// The progress lines [`patch_extension_js`] reports for `content`: which
/// migrations ran, or whether the patch was applied or skipped and why.
pub fn patch_progress(content: &str) -> (r: Vec<&'static str>)
    ensures
        strs_view(r@) == colors_notes(content@),
{
    let c = str_chars(content);
    let mut notes: Vec<&'static str> = Vec::new();
    if contains_str(c.as_slice(), ALREADY_PATCHED_MARKER) {
        let migrated = migrate_chars(c.as_slice());
        if !chars_eq(migrated.as_slice(), c.as_slice()) {
            notes.push(NOTE_MIDPOINT);
        }
        if !contains_str(migrated.as_slice(), IDENTITY_CHECK) {
            notes.push(NOTE_IDENTITY);
        } else {
            notes.push(NOTE_ALREADY);
        }
    } else if !contains_str(c.as_slice(), ORIGINAL_METHOD) {
        notes.push(NOTE_NO_METHOD);
    } else if !contains_str(c.as_slice(), CLASS_MARKER) {
        notes.push(NOTE_NO_CLASS);
    } else {
        notes.push(NOTE_PATCHED);
    }
    assert(strs_view(notes@) =~= colors_notes(content@));
    notes
}

// ── Laws ─────────────────────────────────────────────────────────────────────

/// An already-patched `extension.js` is left alone: when the text carries the
/// patch marker, the midpoint helper (or offers no place for it), the
/// identity-based detection, and no pre-midpoint gradient return, patching
/// keeps it as it is.
pub proof fn lemma_patched_extension_is_fixed(content: Seq<char>)
    requires
        contains(content, ALREADY_PATCHED_MARKER@),
        contains(content, MIDPOINT_HELPER_NAME@) || !contains(content, HELPER_INSERTION_POINT@),
        !contains(content, OLD_RETURN@),
        contains(content, IDENTITY_CHECK@),
    ensures
        colors_patch(content) == content,
{
}

/// The literal facts the fresh-patch law rests on: where the markers sit in
/// the injected texts, and which texts cannot overlap which.
proof fn lemma_color_texts_clash()
    ensures
        contains(REPLACEMENT@, ALREADY_PATCHED_MARKER@),
        contains(REPLACEMENT@, IDENTITY_CHECK@),
        contains(SUPPORT_BLOCK_BODY@, MIDPOINT_HELPER_NAME@),
        SUPPORT_BLOCK_HEADER@.len() > 0,
        SUPPORT_BLOCK_HEADER@[0] == '/',
        OLD_RETURN@.len() > 1,
        OLD_RETURN@[0] == ' ',
        OLD_RETURN@[1] == ' ',
        forall|d: int| 0 <= d < OLD_RETURN@.len() ==> OLD_RETURN@[d] != '/',
        clash_from(CLASS_MARKER@, ORIGINAL_METHOD@, 0),
        clash_from(ORIGINAL_METHOD@, CLASS_MARKER@, 1),
        clash_from(ORIGINAL_METHOD@, MIDPOINT_HELPER_NAME@, 0),
        clash_from(MIDPOINT_HELPER_NAME@, ORIGINAL_METHOD@, 1),
        clash_from(REPLACEMENT@, OLD_RETURN@, 0),
        clash_from(OLD_RETURN@, REPLACEMENT@, 1),
        clash_from(SUPPORT_BLOCK_HEADER@, OLD_RETURN@, 0),
        clash_from(SUPPORT_BLOCK_BODY@, OLD_RETURN@, 0),
        clash_from(CLASS_MARKER@, OLD_RETURN@, 0),
{
    reveal_strlit("_gradientGetUsageColor");
    reveal_strlit("export default class");
    reveal_strlit(r#"    _getUsageColor(value, colors) {
      return getUsageColor(value, colors, COLOR_LIST_SEPARATOR);
    }"#);
    reveal_strlit(r#"
function rgbToStyle(r, g, b) {
  const rr = Math.max(0, Math.min(255, Math.round(r)));
  const gg = Math.max(0, Math.min(255, Math.round(g)));
  const bb = Math.max(0, Math.min(255, Math.round(b)));
  return `color: rgb(${rr}, ${gg}, ${bb});`;
}

function getGradientColor(value, minVal, maxVal, startRGB, endRGB) {
  if (!Number.isFinite(value)) return "";

  const ratio = (value - minVal) / (maxVal - minVal);
  const clampedRatio = Math.max(0, Math.min(1, ratio));
  const r = startRGB[0] + (endRGB[0] - startRGB[0]) * clampedRatio;
  const g = startRGB[1] + (endRGB[1] - startRGB[1]) * clampedRatio;
  const b = startRGB[2] + (endRGB[2] - startRGB[2]) * clampedRatio;

  return rgbToStyle(r, g, b);
}

function getGreenYellowRedGradientColor(value, minVal, maxVal, startRGB, endRGB) {
  const midpoint = minVal + (maxVal - minVal) / 2;
  const midpointRGB = [255, 255, 0];

  if (value <= midpoint) {
    return getGradientColor(value, minVal, midpoint, startRGB, midpointRGB);
  }

  return getGradientColor(value, midpoint, maxVal, midpointRGB, endRGB);
}

const GRADIENT_CONFIGS = {
  cpu: {
    minVal: 0,
    maxVal: 100,
    startRGB: [0, 255, 0],
    endRGB: [255, 0, 0],
    inverted: false,
  },
  ram: {
    minVal: 0,
    maxVal: RAM_MAX_GB,
    startRGB: [0, 255, 0],
    endRGB: [255, 0, 0],
    inverted: false,
  },
  diskSpace: {
    minVal: 0,
    maxVal: DISK_USAGE_MAX_PERCENT,
    startRGB: [0, 255, 0],
    endRGB: [255, 0, 0],
    inverted: false,
  },
  eth: {
    minVal: 0,
    maxVal: ETHERNET_MAX_MBPS,
    startRGB: [0, 255, 0],
    endRGB: [255, 0, 0],
    inverted: false,
  },
  wlan: {
    minVal: 0,
    maxVal: ETHERNET_MAX_MBPS,
    startRGB: [0, 255, 0],
    endRGB: [255, 0, 0],
    inverted: false,
  },
  gpu: {
    minVal: 0,
    maxVal: 100,
    startRGB: [0, 255, 0],
    endRGB: [255, 0, 0],
    inverted: false,
  },
  gpuMemory: {
    minVal: 0,
    maxVal: GPU_MEMORY_MAX_GB,
    startRGB: [0, 255, 0],
    endRGB: [255, 0, 0],
    inverted: false,
  },
};"#);
    reveal_strlit(r#"    // ── Gradient-based color override (patched by rm-monitor patch-colors) ──
    // Augment each indicator's colors array with a type marker for reliable detection.
    _augmentColorsWithType(colors, typeMarker) {
      if (!Array.isArray(colors)) return colors;
      const hasMarker = colors.some(c => c.includes(typeMarker));
      if (hasMarker) return colors;
      return [...colors, typeMarker];
    }

    // Override all color initialization to inject type markers.
    _diskSpaceColorsChanged() {
      this._diskSpaceColors = this._settings.get_strv(DISK_SPACE_COLORS);
      this._diskSpaceColors = this._augmentColorsWithType(this._diskSpaceColors, "__diskSpace");
    }

    _cpuColorsChanged() {
      this._cpuColors = this._settings.get_strv(CPU_COLORS);
      this._cpuColors = this._augmentColorsWithType(this._cpuColors, "__cpu");
    }

    _ramColorsChanged() {
      this._ramColors = this._settings.get_strv(RAM_COLORS);
      this._ramColors = this._augmentColorsWithType(this._ramColors, "__ram");
    }

    _netEthColorsChanged() {
      this._netEthColors = this._settings.get_strv(NET_ETH_COLORS);
      this._netEthColors = this._augmentColorsWithType(this._netEthColors, "__eth");
    }

    _netWlanColorsChanged() {
      this._netWlanColors = this._settings.get_strv(NET_WLAN_COLORS);
      this._netWlanColors = this._augmentColorsWithType(this._netWlanColors, "__wlan");
    }

    _gpuColorsChanged() {
      this._gpuColors = this._settings.get_strv(GPU_COLORS);
      this._gpuColors = this._augmentColorsWithType(this._gpuColors, "__gpu");
    }

    _gpuMemoryColorsChanged() {
      this._gpuMemoryColors = this._settings.get_strv(GPU_MEMORY_COLORS);
      this._gpuMemoryColors = this._augmentColorsWithType(this._gpuMemoryColors, "__gpuMem");
    }

    // Override the main color initialization to inject type markers.
    _initColors() {
      this._cpuColors = this._augmentColorsWithType(
        this._settings.get_strv(CPU_COLORS), "__cpu"
      );
      this._ramColors = this._augmentColorsWithType(
        this._settings.get_strv(RAM_COLORS), "__ram"
      );
      this._diskSpaceColors = this._augmentColorsWithType(
        this._settings.get_strv(DISK_SPACE_COLORS), "__diskSpace"
      );
      this._netEthColors = this._augmentColorsWithType(
        this._settings.get_strv(NET_ETH_COLORS), "__eth"
      );
      this._netWlanColors = this._augmentColorsWithType(
        this._settings.get_strv(NET_WLAN_COLORS), "__wlan"
      );
      this._gpuColors = this._augmentColorsWithType(
        this._settings.get_strv(GPU_COLORS), "__gpu"
      );
      this._gpuMemoryColors = this._augmentColorsWithType(
        this._settings.get_strv(GPU_MEMORY_COLORS), "__gpuMem"
      );
    }

    // ── Gradient-based _getUsageColor implementation ──
    _gradientGetUsageColor(value, colors) {
      const numericValue = Array.isArray(value) ? Math.max(...value.filter(Number.isFinite)) : value;
      if (!Number.isFinite(numericValue)) return "";

      // Detect indicator type from the colors parameter's type markers.
      const colorStr = Array.isArray(colors) ? colors.join(" ") : String(colors || "");

      let config;
      if (colors === this._diskSpaceColors) {
        config = GRADIENT_CONFIGS.diskSpace;
      } else if (colors === this._netEthColors || colorStr.includes("__eth")) {
        config = GRADIENT_CONFIGS.eth;
      } else if (colors === this._netWlanColors || colorStr.includes("__wlan")) {
        config = GRADIENT_CONFIGS.wlan;
      } else if (colors === this._gpuMemoryColors || colorStr.includes("__gpuMem")) {
        config = GRADIENT_CONFIGS.gpuMemory;
      } else if (colorStr.includes("__diskSpace")) {
        config = GRADIENT_CONFIGS.diskSpace;
      } else if (colors === this._gpuColors || colorStr.includes("__gpu")) {
        config = GRADIENT_CONFIGS.gpu;
      } else if (colors === this._ramColors || colorStr.includes("__ram")) {
        config = GRADIENT_CONFIGS.ram;
      } else if (colors === this._cpuColors || colorStr.includes("__cpu")) {
        config = GRADIENT_CONFIGS.cpu;
      } else {
        config = GRADIENT_CONFIGS.cpu;
      }

      let effectiveValue = numericValue;
      let minVal = config.minVal;
      let maxVal = config.maxVal;

      if (config.inverted) {
        effectiveValue = maxVal - numericValue;
      }

      return getGreenYellowRedGradientColor(
        effectiveValue,
        minVal,
        maxVal,
        config.startRGB,
        config.endRGB
      );
    }

    _getUsageColor(value, colors) {
      return this._gradientGetUsageColor(value, colors);
    }"#);
    reveal_strlit("      return getGradientColor(effectiveValue, minVal, maxVal, config.startRGB, config.endRGB);");
    reveal_strlit("// ── Gradient color support (patched by rm-monitor patch-colors) ──\n");
    reveal_strlit("function getGreenYellowRedGradientColor");
    reveal_strlit("colors === this._diskSpaceColors");
    assert(REPLACEMENT@.subrange(2814, 2836) =~= ALREADY_PATCHED_MARKER@);
    lemma_contains_at(REPLACEMENT@, ALREADY_PATCHED_MARKER@, 2814);
    assert(REPLACEMENT@.subrange(3200, 3232) =~= IDENTITY_CHECK@);
    lemma_contains_at(REPLACEMENT@, IDENTITY_CHECK@, 3200);
    assert(SUPPORT_BLOCK_BODY@.subrange(708, 747) =~= MIDPOINT_HELPER_NAME@);
    lemma_contains_at(SUPPORT_BLOCK_BODY@, MIDPOINT_HELPER_NAME@, 708);
    assert forall|d: int| 0 <= d < CLASS_MARKER@.len() implies #[trigger] clash_at(CLASS_MARKER@, ORIGINAL_METHOD@, d) by {
        let x = CLASS_MARKER@;
        let y = ORIGINAL_METHOD@;
        let idx = if x[d + 0] != y[0] { 0int } else { 1int };
        assert(x[d + idx] != y[idx]);
    }
    assert forall|d: int| 1 <= d < ORIGINAL_METHOD@.len() implies #[trigger] clash_at(ORIGINAL_METHOD@, CLASS_MARKER@, d) by {
        let x = ORIGINAL_METHOD@;
        let y = CLASS_MARKER@;
        let idx = if x[d + 0] != y[0] { 0int } else { 1int };
        assert(x[d + idx] != y[idx]);
    }
    assert forall|d: int| 0 <= d < ORIGINAL_METHOD@.len() implies #[trigger] clash_at(ORIGINAL_METHOD@, MIDPOINT_HELPER_NAME@, d) by {
        let x = ORIGINAL_METHOD@;
        let y = MIDPOINT_HELPER_NAME@;
        let idx = { 0int };
        assert(x[d + idx] != y[idx]);
    }
    assert forall|d: int| 1 <= d < MIDPOINT_HELPER_NAME@.len() implies #[trigger] clash_at(MIDPOINT_HELPER_NAME@, ORIGINAL_METHOD@, d) by {
        let x = MIDPOINT_HELPER_NAME@;
        let y = ORIGINAL_METHOD@;
        let idx = if x[d + 0] != y[0] { 0int } else { 1int };
        assert(x[d + idx] != y[idx]);
    }
    assert forall|d: int| 0 <= d < REPLACEMENT@.len() implies #[trigger] clash_at(REPLACEMENT@, OLD_RETURN@, d) by {
        let x = REPLACEMENT@;
        let y = OLD_RETURN@;
        let idx = if d == 368 { 13int } else if d == 4358 { 18int } else if d == 4558 { 13int } else if x[d + 0] != y[0] { 0int } else if x[d + 1] != y[1] { 1int } else if x[d + 2] != y[2] { 2int } else if x[d + 3] != y[3] { 3int } else if x[d + 4] != y[4] { 4int } else if x[d + 5] != y[5] { 5int } else { 6int };
        assert(x[d + idx] != y[idx]);
    }
    assert forall|d: int| 1 <= d < OLD_RETURN@.len() implies #[trigger] clash_at(OLD_RETURN@, REPLACEMENT@, d) by {
        let x = OLD_RETURN@;
        let y = REPLACEMENT@;
        let idx = if x[d + 0] != y[0] { 0int } else if x[d + 1] != y[1] { 1int } else if x[d + 2] != y[2] { 2int } else if x[d + 3] != y[3] { 3int } else { 4int };
        assert(x[d + idx] != y[idx]);
    }
    assert forall|d: int| 0 <= d < SUPPORT_BLOCK_HEADER@.len() implies #[trigger] clash_at(SUPPORT_BLOCK_HEADER@, OLD_RETURN@, d) by {
        let x = SUPPORT_BLOCK_HEADER@;
        let y = OLD_RETURN@;
        let idx = if x[d + 0] != y[0] { 0int } else { 1int };
        assert(x[d + idx] != y[idx]);
    }
    assert forall|d: int| 0 <= d < SUPPORT_BLOCK_BODY@.len() implies #[trigger] clash_at(SUPPORT_BLOCK_BODY@, OLD_RETURN@, d) by {
        let x = SUPPORT_BLOCK_BODY@;
        let y = OLD_RETURN@;
        let idx = if x[d + 0] != y[0] { 0int } else if x[d + 1] != y[1] { 1int } else if x[d + 2] != y[2] { 2int } else if x[d + 3] != y[3] { 3int } else { 4int };
        assert(x[d + idx] != y[idx]);
    }
    assert forall|d: int| 0 <= d < CLASS_MARKER@.len() implies #[trigger] clash_at(CLASS_MARKER@, OLD_RETURN@, d) by {
        let x = CLASS_MARKER@;
        let y = OLD_RETURN@;
        let idx = if x[d + 0] != y[0] { 0int } else { 1int };
        assert(x[d + idx] != y[idx]);
    }
}

/// A constant line `name` + digits + `;\n`, whose name has no two spaces in
/// a row and ends in one, holds no shifted copy of a text that opens with
/// two spaces.
proof fn lemma_const_line_clash(name: Seq<char>, n: int, m: Seq<char>)
    requires
        n >= 0,
        name.len() > 0,
        name[name.len() - 1] == ' ',
        forall|d: int| 0 <= d < name.len() - 1 && #[trigger] name[d] == ' ' ==> name[d + 1] != ' ',
        m.len() > 1,
        m[0] == ' ',
        m[1] == ' ',
    ensures
        clash_from(name + decimal(n) + ";\n"@, m, 0),
{
    reveal_strlit(";\n");
    lemma_decimal_is_digits(n);
    let dec = decimal(n);
    let line = name + dec + ";\n"@;
    assert forall|d: int| 0 <= d < line.len() implies #[trigger] clash_at(line, m, d) by {
        if d < name.len() {
            assert(line[d] == name[d]);
            if name[d] == ' ' {
                if d == name.len() - 1 {
                    assert(line[d + 1] == dec[0]);
                    assert('0' <= dec[0] <= '9');
                } else {
                    assert(line[d + 1] == name[d + 1]);
                }
                assert(line[d + 1] != m[1]);
            } else {
                assert(line[d] != m[0]);
            }
        } else if d < name.len() + dec.len() {
            assert(line[d] == dec[d - name.len()]);
            assert('0' <= dec[d - name.len()] <= '9');
            assert(line[d] != m[0]);
        } else {
            assert(line[d] == ";\n"@[d - name.len() - dec.len()]);
            assert(line[d] != m[0]);
        }
    }
}

/// The injected support block holds no shifted copy of the pre-midpoint
/// gradient return.
proof fn lemma_support_block_clash()
    ensures
        clash_from(support_block_spec() + "\n\n"@ + CLASS_MARKER@, OLD_RETURN@, 0),
        (support_block_spec() + "\n\n"@ + CLASS_MARKER@)[0] == '/',
        contains(support_block_spec() + "\n\n"@ + CLASS_MARKER@, MIDPOINT_HELPER_NAME@),
{
    lemma_color_texts_clash();
    reveal_strlit("\n\n");
    reveal_strlit("const ETHERNET_MAX_MBPS = ");
    lemma_const_line_clash("const ETHERNET_MAX_MBPS = "@, ETHERNET_MAX_MBPS as int, OLD_RETURN@);
    reveal_strlit("const RAM_MAX_GB = ");
    lemma_const_line_clash("const RAM_MAX_GB = "@, RAM_MAX_GB as int, OLD_RETURN@);
    reveal_strlit("const DISK_USAGE_MAX_PERCENT = ");
    lemma_const_line_clash("const DISK_USAGE_MAX_PERCENT = "@, DISK_USAGE_MAX_PERCENT as int, OLD_RETURN@);
    reveal_strlit("const GPU_MEMORY_MAX_GB = ");
    lemma_const_line_clash("const GPU_MEMORY_MAX_GB = "@, GPU_MEMORY_MAX_GB as int, OLD_RETURN@);
    let l1 = "const ETHERNET_MAX_MBPS = "@ + decimal(ETHERNET_MAX_MBPS as int) + ";\n"@;
    let l2 = "const RAM_MAX_GB = "@ + decimal(RAM_MAX_GB as int) + ";\n"@;
    let l3 = "const DISK_USAGE_MAX_PERCENT = "@ + decimal(DISK_USAGE_MAX_PERCENT as int) + ";\n"@;
    let l4 = "const GPU_MEMORY_MAX_GB = "@ + decimal(GPU_MEMORY_MAX_GB as int) + ";\n"@;
    let tail = "\n\n"@ + CLASS_MARKER@;
    let whole = support_block_spec() + "\n\n"@ + CLASS_MARKER@;
    assert(whole =~= SUPPORT_BLOCK_HEADER@ + (l1 + (l2 + (l3 + (l4 + (SUPPORT_BLOCK_BODY@ + tail))))));
    assert(clash_from("\n\n"@, OLD_RETURN@, 0)) by {
        assert forall|d: int| 0 <= d < "\n\n"@.len() implies #[trigger] clash_at("\n\n"@, OLD_RETURN@, d) by {
            assert("\n\n"@[d] != OLD_RETURN@[0]);
        }
    }
    lemma_clash_concat("\n\n"@, CLASS_MARKER@, OLD_RETURN@);
    lemma_clash_concat(SUPPORT_BLOCK_BODY@, tail, OLD_RETURN@);
    lemma_clash_concat(l4, SUPPORT_BLOCK_BODY@ + tail, OLD_RETURN@);
    lemma_clash_concat(l3, l4 + (SUPPORT_BLOCK_BODY@ + tail), OLD_RETURN@);
    lemma_clash_concat(l2, l3 + (l4 + (SUPPORT_BLOCK_BODY@ + tail)), OLD_RETURN@);
    lemma_clash_concat(l1, l2 + (l3 + (l4 + (SUPPORT_BLOCK_BODY@ + tail))), OLD_RETURN@);
    lemma_clash_concat(SUPPORT_BLOCK_HEADER@, l1 + (l2 + (l3 + (l4 + (SUPPORT_BLOCK_BODY@ + tail)))), OLD_RETURN@);
    lemma_contains_parts(SUPPORT_BLOCK_BODY@, tail);
    lemma_contains_parts(SUPPORT_BLOCK_HEADER@ + (l1 + (l2 + (l3 + l4))), SUPPORT_BLOCK_BODY@ + tail);
    assert(whole =~= (SUPPORT_BLOCK_HEADER@ + (l1 + (l2 + (l3 + l4)))) + (SUPPORT_BLOCK_BODY@ + tail));
    lemma_contains_trans(whole, SUPPORT_BLOCK_BODY@ + tail, SUPPORT_BLOCK_BODY@);
    lemma_contains_trans(whole, SUPPORT_BLOCK_BODY@, MIDPOINT_HELPER_NAME@);
}

/// Patching an unpatched `extension.js` is idempotent: when the text has no
/// patch marker and no pre-midpoint gradient return, and offers both the
/// colour method and the class to patch, patching its output keeps it as
/// it is.
pub proof fn lemma_fresh_extension_patch_is_idempotent(content: Seq<char>)
    requires
        !contains(content, ALREADY_PATCHED_MARKER@),
        !contains(content, OLD_RETURN@),
        contains(content, ORIGINAL_METHOD@),
        contains(content, CLASS_MARKER@),
    ensures
        colors_patch(colors_patch(content)) == colors_patch(content),
{
    lemma_color_texts_clash();
    lemma_support_block_clash();
    let block = support_block_spec() + "\n\n"@ + CLASS_MARKER@;
    assert(clash_from(OLD_RETURN@, block, 1)) by {
        assert forall|d: int| 1 <= d < OLD_RETURN@.len() implies #[trigger] clash_at(OLD_RETURN@, block, d) by {
            assert(OLD_RETURN@[d] != block[0]);
        }
    }
    // Injecting the support block.
    lemma_find_from(content, CLASS_MARKER@, 0);
    let c1 = replace_first(content, CLASS_MARKER@, block);
    lemma_absent_survives(content, CLASS_MARKER@, block, OLD_RETURN@);
    lemma_contains(content, ORIGINAL_METHOD@);
    let p = choose|p: int| matches_at(content, ORIGINAL_METHOD@, p);
    lemma_match_survives(content, CLASS_MARKER@, block, ORIGINAL_METHOD@, p);
    lemma_contains_at(c1, ORIGINAL_METHOD@, if p < find(content, CLASS_MARKER@)->0 { p } else { p + block.len() - CLASS_MARKER@.len() });
    lemma_replace_first_has_rep(content, CLASS_MARKER@, block);
    lemma_contains_trans(c1, block, MIDPOINT_HELPER_NAME@);
    // Rewriting the colour method.
    lemma_find_from(c1, ORIGINAL_METHOD@, 0);
    let t = replace_first(c1, ORIGINAL_METHOD@, REPLACEMENT@);
    lemma_absent_survives(c1, ORIGINAL_METHOD@, REPLACEMENT@, OLD_RETURN@);
    lemma_contains(c1, MIDPOINT_HELPER_NAME@);
    let q = choose|q: int| matches_at(c1, MIDPOINT_HELPER_NAME@, q);
    lemma_match_survives(c1, ORIGINAL_METHOD@, REPLACEMENT@, MIDPOINT_HELPER_NAME@, q);
    lemma_contains_at(t, MIDPOINT_HELPER_NAME@, if q < find(c1, ORIGINAL_METHOD@)->0 { q } else { q + REPLACEMENT@.len() - ORIGINAL_METHOD@.len() });
    lemma_replace_first_has_rep(c1, ORIGINAL_METHOD@, REPLACEMENT@);
    lemma_contains_trans(t, REPLACEMENT@, ALREADY_PATCHED_MARKER@);
    lemma_contains_trans(t, REPLACEMENT@, IDENTITY_CHECK@);
    assert(colors_patch(content) == t);
    lemma_patched_extension_is_fixed(t);
}

} // verus!
