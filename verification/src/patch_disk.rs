//! Patch the Resource Monitor disk space display.
//!
//! Three files are touched:
//!
//! - `panel/containers.js`: `DiskContainerSpace` gains a secondary label for
//!   live disk activity, plus styled unit labels.
//! - `services/refreshers.js`: the disk-space row renders free GB coloured by
//!   used percentage, with the live IO busy percentage as the secondary value;
//!   the `getDiskSpaceActivityPercent` and `getDiskUsagePercentStyle` helpers
//!   are injected here.
//! - `extension.js`: disk-space rows are keyed by mount point.
//!
//! Every edit is version-tolerant: known older patched forms are migrated in
//! place, so re-running the patcher across revisions converges instead of
//! failing. Reading and writing the three files is left to the caller.

use vstd::prelude::*;
use crate::patch_text::{
    find_matching_close, known_snippet, known_snippet_optional, known_snippet_or_patterns, known_snippet_with_migration, lemma_find_is, lemma_match_survives, lemma_matching_close_skip, lemma_known_snippet_idempotent, lemma_matching_close_bounds, matching_close, replace_known_snippet, replace_known_snippet_optional, replace_known_snippet_or_patterns, replace_known_snippet_with_migration, migrate_all, migration_step, Migration, PatchTargetMissing,
};
use crate::configure::opt_view;
use crate::regex_calls::{regex_escape, regex_escaped};
use crate::style_runs::{
    appends_extra, each_followed, ends_in_newline, newline_free, no_repeat, lemma_collapse_keeps, lemma_insert_keeps, lemma_collapse_settled, lemma_collapse_settles, lemma_insert_followed,
    lemma_insert_settled, lemma_migration_settles,
};
use crate::text::{
    chars_eq, chars_string, clash_at, clash_from, contains, contains_str, find, find_exec, find_from, find_from_exec,
    first_present, lemma_contains_at, lemma_contains_parts, lemma_first_present_from, lemma_contains_trans, lemma_find_from, lemma_matches_within,
    lemma_clash_concat, lemma_contains, lemma_find_from_skip, lemma_no_overlap, lemma_replace_all_keeps, lemma_replace_all_keeps_out, lemma_replace_first_absent,
    lemma_replace_first_has_rep, matches_at, matches_at_exec, replace_all,
    push_all, push_range, push_str, replace_first, replace_first_exec, replace_first_str,
    str_chars, str_eq, strs_view,
};

verus! {

// ── containers.js snippets ───────────────────────────────────────────────────

pub const ORIGINAL_DISK_CONTAINER: &'static str = r#"export const DiskContainerSpace = GObject.registerClass(
  class DiskContainerSpace extends DiskContainer {
    add_element(filesystem, label) {
      this._elementsPath.push(filesystem);

      this._elementsName[filesystem] = _createNameLabel(label);

      this._elementsValue[filesystem] = _createValueLabel("--");

      this._elementsUnit[filesystem] = _createUnitLabel("GB");

      this.add_child(this._elementsName[filesystem]);
      this.add_child(this._elementsValue[filesystem]);
      this.add_child(this._elementsUnit[filesystem]);
    }

    update_element_value(filesystem, value, unit, style = "") {
      if (this._elementsValue[filesystem]) {
        this._elementsValue[filesystem].text = value;
        this._elementsValue[filesystem].style = style;
        this._elementsUnit[filesystem].text = unit;
      }
    }
  }
);"#;

pub const BROKEN_PATCHED_DISK_CONTAINER: &'static str = r#"export const DiskContainerSpace = GObject.registerClass(
  class DiskContainerSpace extends DiskContainer {
    add_element(filesystem, label) {
      this._elementsPath.push(filesystem);

      this._elementsName[filesystem] = _createNameLabel(label);

      this._elementsValue[filesystem] = _createValueLabel("--");

      this._elementsUnit[filesystem] = _createUnitLabel("KB");

      // Secondary value label for free space in GB
      this._elementsSecondaryValue[filesystem] = _createValueLabel("", [
        "resource-monitor-secondary-value",
      ]);

      this._elementsSecondaryUnit[filesystem] = _createUnitLabel("GB", [
        "resource-monitor-secondary-unit",
      ]);

      // Space separator between primary and secondary values
      const spaceSep = new St.Label({ text: "  " });

      this.add_child(this._elementsName[filesystem]);
      this.add_child(this._elementsValue[filesystem]);
      this.add_child(this._elementsUnit[filesystem]);
      this.add_child(spaceSep);
      this.add_child(this._elementsSecondaryValue[filesystem]);
      this.add_child(this._elementsSecondaryUnit[filesystem]);
    }

    update_element_value(filesystem, value, unit, style = "") {
      if (this._elementsValue[filesystem]) {
        this._elementsValue[filesystem].text = value;
        this._elementsValue[filesystem].style = style;
        this._elementsUnit[filesystem].text = unit;
      }
    }

    update_element_secondary_value(filesystem, value, unit, style = "") {
      if (this._elementsSecondaryValue[filesystem]) {
        this._elementsSecondaryValue[filesystem].text = value;
        this._elementsSecondaryValue[filesystem].style = style;
        this._elementsSecondaryUnit[filesystem].text = unit;
        this._elementsSecondaryUnit[filesystem].style = style;
      }
    }
  }
);"#;

pub const FIXED_DISK_CONTAINER: &'static str = r#"export const DiskContainerSpace = GObject.registerClass(
  class DiskContainerSpace extends DiskContainer {
    _init() {
      super._init();

      this._elementsSecondaryValue = [];
      this._elementsSecondaryUnit = [];
    }

    add_element(filesystem, label) {
      this._elementsPath.push(filesystem);

      this._elementsName[filesystem] = _createNameLabel(label);

      this._elementsValue[filesystem] = _createValueLabel("--");

      this._elementsUnit[filesystem] = _createUnitLabel("KB");

      this._elementsSecondaryValue[filesystem] = _createValueLabel("", [
        "resource-monitor-secondary-value",
      ]);

      this._elementsSecondaryUnit[filesystem] = _createUnitLabel("%", [
        "resource-monitor-secondary-unit",
      ]);

      const spaceSep = new St.Label({ text: "  " });

      this.add_child(this._elementsName[filesystem]);
      this.add_child(this._elementsValue[filesystem]);
      this.add_child(this._elementsUnit[filesystem]);
      this.add_child(spaceSep);
      this.add_child(this._elementsSecondaryValue[filesystem]);
      this.add_child(this._elementsSecondaryUnit[filesystem]);
    }

    cleanup_elements() {
      super.cleanup_elements();

      this._elementsSecondaryValue = [];
      this._elementsSecondaryUnit = [];
    }

    update_element_value(filesystem, value, unit, style = "") {
      if (this._elementsValue[filesystem]) {
        this._elementsValue[filesystem].text = value;
        this._elementsValue[filesystem].style = style;
        this._elementsUnit[filesystem].text = unit;
        this._elementsUnit[filesystem].style = style;
      }
    }

    update_element_secondary_value(filesystem, value, unit, style = "") {
      if (this._elementsSecondaryValue[filesystem]) {
        this._elementsSecondaryValue[filesystem].text = value;
        this._elementsSecondaryValue[filesystem].style = style;
        this._elementsSecondaryUnit[filesystem].text = unit;
        this._elementsSecondaryUnit[filesystem].style = style;
      }
    }
  }
);"#;

/// Marker proving `containers.js` already carries the current disk patch
/// (secondary unit is `%`, not the older broken `"GB"` form).
pub const DISK_CONTAINER_MARKER: &'static str = "this._elementsSecondaryUnit[filesystem] = _createUnitLabel(\"%\", [";

/// Required by both container migrations: the patched `_init` field list.
pub const SECONDARY_INIT_MARKER: &'static str = "this._elementsSecondaryValue = [];";

pub const STYLE_DISK_UNIT_FROM: &'static str = r#"        this._elementsValue[filesystem].text = value;
        this._elementsValue[filesystem].style = style;
        this._elementsUnit[filesystem].text = unit;"#;

pub const STYLE_DISK_UNIT_TO: &'static str = r#"        this._elementsValue[filesystem].text = value;
        this._elementsValue[filesystem].style = style;
        this._elementsUnit[filesystem].text = unit;
        this._elementsUnit[filesystem].style = style;"#;

pub const STYLE_DISK_SECONDARY_FROM: &'static str = r#"    update_element_secondary_value(filesystem, value, unit) {
      if (this._elementsSecondaryValue[filesystem]) {
        this._elementsSecondaryValue[filesystem].text = value;
        this._elementsSecondaryUnit[filesystem].text = unit;
      }
    }"#;

pub const STYLE_DISK_SECONDARY_TO: &'static str = r#"    update_element_secondary_value(filesystem, value, unit, style = "") {
      if (this._elementsSecondaryValue[filesystem]) {
        this._elementsSecondaryValue[filesystem].text = value;
        this._elementsSecondaryValue[filesystem].style = style;
        this._elementsSecondaryUnit[filesystem].text = unit;
        this._elementsSecondaryUnit[filesystem].style = style;
      }
    }"#;

pub const UNIT_TEXT_LINE: &'static str = "        this._elementsUnit[filesystem].text = unit;\n";

pub const UNIT_STYLE_LINE: &'static str = "        this._elementsUnit[filesystem].style = style;\n";

pub const ORIGINAL_REFRESH_UPDATE: &'static str = r#"          indicator._diskSpaceBox.update_element_value(
            entry.filesystem,
            `${indicator._getValueFixed(display.value, "diskSpace")}`,
            display.unit,
            indicator._getUsageColor(display.value, indicator._diskSpaceColors)
          );"#;

pub const BROKEN_PATCHED_REFRESH_UPDATE: &'static str = r#"          // Primary: used percentage (always shown)
          const primaryValue = entry.usedPercent;
          const primaryUnit = "%";
          const primaryStyle = indicator._getUsageColor(primaryValue, indicator._diskSpaceColors);

          // Secondary: free space in GB (numeric display)
          const factor = getDataScaleFactor(indicator._dataScaleBase || "decimal");
          const freeInGb = entry.availableBytes / (factor * 1024);
          const secondaryValue = Math.round(freeInGb * 10) / 10;
          const secondaryUnit = "GB";

          indicator._diskSpaceBox.update_element_value(
            entry.filesystem,
            `${indicator._getValueFixed(primaryValue, "diskSpace")}`,
            primaryUnit,
            primaryStyle
          );
          indicator._diskSpaceBox.update_element_secondary_value(
            entry.filesystem,
            secondaryValue.toFixed(1),
            secondaryUnit
          );"#;

pub const SPACE_USED_PATCHED_REFRESH_UPDATE: &'static str = r#"          const primaryDisplay = buildDiskSpaceDisplay(entry, {
            monitor: "used",
            unitType: "perc",
            unitMeasure: indicator._diskSpaceUnitMeasure,
            scaleBase: indicator._dataScaleBase,
          });
          const freeDisplay = buildDiskSpaceDisplay(entry, {
            monitor: "free",
            unitType: "numeric",
            unitMeasure: "g",
            scaleBase: indicator._dataScaleBase,
          });
          const primaryStyle = indicator._getUsageColor(
            entry.usedPercent,
            indicator._diskSpaceColors
          );

          indicator._diskSpaceBox.update_element_value(
            entry.filesystem,
            `${indicator._getValueFixed(primaryDisplay.value, "diskSpace")}`,
            primaryDisplay.unit,
            primaryStyle
          );
          indicator._diskSpaceBox.update_element_secondary_value(
            entry.filesystem,
            `${indicator._getValueFixed(freeDisplay.value, "diskSpace")}`,
            freeDisplay.unit
          );"#;

/// Green -> yellow -> red disk usage colour helper injected into refreshers.js.
/// Its colour math is the disk-usage gradient of the Resource Monitor palette.
pub const DISK_USAGE_STYLE_HELPER: &'static str = r#"function getDiskUsagePercentStyle(value) {
  if (!Number.isFinite(value)) {
    return "";
  }

  const ratio = Math.max(0, Math.min(1, value / 100));
  const red = ratio <= 0.5 ? Math.round(510 * ratio) : 255;
  const green = ratio <= 0.5 ? 255 : Math.round(510 * (1 - ratio));

  return `color: rgb(${red}, ${green}, 0);`;
}"#;

pub const DISK_ACTIVITY_HELPER_BODY: &'static str = r#"function getDiskSpaceActivityPercent(indicator, filesystem) {
  if (!indicator._diskSpaceActivitySamples) {
    indicator._diskSpaceActivitySamples = new Map();
  }

  try {
    const [ok, diskStatsContents] = GLib.file_get_contents("/proc/diskstats");
    if (!ok) {
      return 0;
    }

    const diskName = filesystem.replace(/^\/dev\//, "");
    const names = [diskName];
    // LVM/mapper paths show as /dev/mapper/foo while diskstats uses dm-N.
    try {
      const linkTarget = GLib.file_read_link(filesystem);
      if (linkTarget) {
        const base = String(linkTarget).replace(/^.*\//, "");
        if (base && !names.includes(base)) {
          names.push(base);
        }
      }
    } catch (_linkError) {
      // Not a symlink — keep the basename match only.
    }

    const diskStatsLine = new TextDecoder()
      .decode(diskStatsContents)
      .split("\n")
      .map((line) => line.trim().split(/\s+/))
      .find((fields) => fields.length >= 13 && names.includes(fields[2]));

    if (!diskStatsLine) {
      return 0;
    }

    const ioTimeMs = parseInt(diskStatsLine[12], 10);
    if (!Number.isFinite(ioTimeMs)) {
      return 0;
    }

    const sampleTimeMs = GLib.get_monotonic_time() / 1000;
    const previousSample = indicator._diskSpaceActivitySamples.get(filesystem);

    indicator._diskSpaceActivitySamples.set(filesystem, {
      ioTimeMs,
      sampleTimeMs,
    });

    if (!previousSample || !Number.isFinite(previousSample.ioTimeMs)) {
      return 0;
    }

    const elapsedMs = Math.max(0, sampleTimeMs - previousSample.sampleTimeMs);
    const activeMs = Math.max(0, ioTimeMs - previousSample.ioTimeMs);

    return elapsedMs > 0 ? Math.min(100, (activeMs * 100) / elapsedMs) : 0;
  } catch (error) {
    return 0;
  }
}"#;

pub const ACTIVITY_PERCENT_FREE_GB_REFRESH_UPDATE: &'static str = r#"          if (!indicator._diskSpaceActivitySamples) {
            indicator._diskSpaceActivitySamples = new Map();
          }

          let activityPercent = 0;
          try {
            const [ok, diskStatsContents] = GLib.file_get_contents("/proc/diskstats");
            if (ok) {
              const diskName = entry.filesystem.replace(/^\/dev\//, "");
              const diskStatsLine = new TextDecoder()
                .decode(diskStatsContents)
                .split("\n")
                .map((line) => line.trim().split(/\s+/))
                .find((fields) => fields.length >= 13 && fields[2] === diskName);

              if (diskStatsLine) {
                const ioTimeMs = parseInt(diskStatsLine[12], 10);
                const sampleTimeMs = GLib.get_monotonic_time() / 1000;
                const previousSample = indicator._diskSpaceActivitySamples.get(
                  entry.filesystem
                );

                indicator._diskSpaceActivitySamples.set(entry.filesystem, {
                  ioTimeMs,
                  sampleTimeMs,
                });

                if (previousSample && Number.isFinite(ioTimeMs)) {
                  const elapsedMs = Math.max(
                    0,
                    sampleTimeMs - previousSample.sampleTimeMs
                  );
                  const activeMs = Math.max(
                    0,
                    ioTimeMs - previousSample.ioTimeMs
                  );
                  activityPercent = elapsedMs > 0
                    ? Math.min(100, (activeMs * 100) / elapsedMs)
                    : 0;
                }
              }
            }
          } catch (error) {
            activityPercent = 0;
          }

          const freeDisplay = buildDiskSpaceDisplay(entry, {
            monitor: "free",
            unitType: "numeric",
            unitMeasure: "g",
            scaleBase: indicator._dataScaleBase,
          });
          const primaryStyle = indicator._getUsageColor(
            activityPercent,
            indicator._diskSpaceColors
          );

          indicator._diskSpaceBox.update_element_value(
            entry.filesystem,
            `${indicator._getValueFixed(activityPercent, "diskSpace")}`,
            "%",
            primaryStyle
          );
          indicator._diskSpaceBox.update_element_secondary_value(
            entry.filesystem,
            `${indicator._getValueFixed(freeDisplay.value, "diskSpace")}`,
            freeDisplay.unit
          );"#;

pub const FREE_GB_PRIMARY_ACTIVITY_REFRESH_UPDATE: &'static str = r#"          const diskSpaceDisplay = buildDiskSpaceDisplay(entry, {
            monitor: "free",
            unitType: "numeric",
            unitMeasure: "g",
            scaleBase: indicator._dataScaleBase,
          });
          const activityPercent = getDiskSpaceActivityPercent(indicator, entry.devicePath);
          const primaryStyle = indicator._getUsageColor(entry.usedPercent, indicator._diskSpaceColors);

          indicator._diskSpaceBox.update_element_value(
            entry.filesystem,
            `${indicator._getValueFixed(diskSpaceDisplay.value, "diskSpace")}`,
            diskSpaceDisplay.unit,
            primaryStyle
          );
          indicator._diskSpaceBox.update_element_secondary_value(
            entry.filesystem,
            `${indicator._getValueFixed(activityPercent, "diskSpace")}`,
            "%"
          );"#;

pub const FIXED_REFRESH_UPDATE: &'static str = r#"          const diskSpaceUsageDisplay = buildDiskSpaceDisplay(entry, {
            monitor: "free",
            unitType: "numeric",
            unitMeasure: "g",
            scaleBase: indicator._dataScaleBase,
          });
          const activityPercent = getDiskSpaceActivityPercent(indicator, entry.devicePath);
          const primaryStyle = getDiskUsagePercentStyle(entry.usedPercent);
          const activityStyle = getDiskUsagePercentStyle(activityPercent);

          indicator._diskSpaceBox.update_element_value(
            entry.filesystem,
            `${indicator._getValueFixed(diskSpaceUsageDisplay.value, "diskSpace")}`,
            diskSpaceUsageDisplay.unit,
            primaryStyle
          );
          indicator._diskSpaceBox.update_element_secondary_value(
            entry.filesystem,
            `${indicator._getValueFixed(activityPercent, "diskSpace")}`,
            "%",
            activityStyle
          );"#;

pub const USED_GB_ACTIVITY_REFRESH_UPDATE: &'static str = r#"          const diskSpaceDisplay = buildDiskSpaceDisplay(entry, {
            monitor: "used",
            unitType: "numeric",
            unitMeasure: "g",
            scaleBase: indicator._dataScaleBase,
          });
          const activityPercent = getDiskSpaceActivityPercent(indicator, entry.filesystem);
          const primaryStyle = indicator._getUsageColor(entry.usedPercent, indicator._diskSpaceColors);

          indicator._diskSpaceBox.update_element_value(
            entry.filesystem,
            `${indicator._getValueFixed(diskSpaceDisplay.value, "diskSpace")}`,
            diskSpaceDisplay.unit,
            primaryStyle
          );
          indicator._diskSpaceBox.update_element_secondary_value(
            entry.filesystem,
            `${indicator._getValueFixed(activityPercent, "diskSpace")}`,
            "%"
          );"#;

/// Marker proving refreshers.js already carries the current disk-space update.
pub const REFRESH_UPDATE_MARKER: &'static str = "const diskSpaceUsageDisplay = buildDiskSpaceDisplay(entry, {";

/// Shared prelude of the two upstream refresh forms; also the stale block the
/// migration removes when it precedes an already-applied usage patch.
pub const UPSTREAM_DISPLAY_BLOCK: &'static str = r#"          const display = buildDiskSpaceDisplay(entry, {
            monitor: indicator._diskSpaceMonitor,
            unitType: indicator._diskSpaceUnitType,
            unitMeasure: indicator._diskSpaceUnitMeasure,
            scaleBase: indicator._dataScaleBase,
          });

"#;

pub const CURRENT_UPSTREAM_UPDATE: &'static str = r#"          indicator._diskSpaceBox.update_element_value(
            entry.filesystem,
            display.isPercent
              ? `${display.value}`
              : `${indicator._getValueFixed(display.value)}`,
            display.unit,
            indicator._getUsageColor(display.value, indicator._diskSpaceColors)
          );"#;

pub const ORIGINAL_DISK_REFRESH_RESULT: &'static str = r#"        return {
          filesystem: device.device,
          usedBytes: Math.max(0, size - free),
          availableBytes: Math.max(0, free),
          usedPercent: size > 0 ? Math.round((100 * (size - free)) / size) : 0,
        };"#;

pub const FIXED_DISK_REFRESH_RESULT: &'static str = r#"        return {
          filesystem: device.mountPoint || device.device,
          devicePath: device.device,
          usedBytes: Math.max(0, size - free),
          availableBytes: Math.max(0, free),
          usedPercent: size > 0 ? Math.round((100 * (size - free)) / size) : 0,
        };"#;

pub const DISK_ROW_KEY_MARKER: &'static str = "devicePath: device.device,";

pub const ACTIVITY_HELPER_MARKER: &'static str = "function getDiskSpaceActivityPercent(indicator, filesystem)";

pub const COLOR_HELPER_MARKER: &'static str = "function getDiskUsagePercentStyle(value)";

pub const REFRESH_FUNCTION_MARKER: &'static str = "export function refreshDiskSpaceValue(indicator) {";

pub const ORIGINAL_EXTENSION_DISK_LIST: &'static str = r#"      this._diskDevices.forEach((device) => {
        if (device.stats) {
          this._diskStatsBox.add_element(device.device, device.displayName);
        }

        if (device.space) {
          this._diskSpaceBox.add_element(device.device, device.displayName);
        }
      });"#;

pub const FIXED_EXTENSION_DISK_LIST: &'static str = r#"      this._diskDevices.forEach((device) => {
        if (device.stats) {
          this._diskStatsBox.add_element(device.device, device.displayName);
        }

        if (device.space) {
          const diskSpaceKey = device.mountPoint || device.device;
          this._diskSpaceBox.add_element(diskSpaceKey, device.displayName);
        }
      });"#;

pub const EXTENSION_DISK_KEY_MARKER: &'static str = "const diskSpaceKey = device.mountPoint || device.device;";

/// Current-body marker: LVM/mapper paths need `file_read_link` to match dm-N
/// names in `/proc/diskstats`. Older patched helpers omit this.
pub const ACTIVITY_HELPER_CURRENT_MARKER: &'static str = "GLib.file_read_link(filesystem)";

/// Unit label of the upstream class in its gigabyte variant.
pub const GB_UNIT_LABEL: &'static str = r#"_createUnitLabel("GB")"#;

/// Unit label of the upstream class in its kilobyte variant.
pub const KB_UNIT_LABEL: &'static str = r#"_createUnitLabel("KB")"#;

// ── refreshers.js migrations ─────────────────────────────────────────────────

/// Primary disk style through the generic gradient helper (older form).
pub const PRIMARY_STYLE_GENERIC: &'static str = "          const primaryStyle = indicator._getUsageColor(diskSpaceUsageDisplay.value, indicator._diskSpaceColors);";

/// Primary disk style through the dedicated disk helper, keyed on the display value.
pub const PRIMARY_STYLE_DIRECT: &'static str = "          const primaryStyle = getDiskUsagePercentStyle(diskSpaceUsageDisplay.value);";

/// Primary disk style keyed on the used percentage (current form).
pub const PRIMARY_STYLE_USED_PERCENT: &'static str = "          const primaryStyle = getDiskUsagePercentStyle(entry.usedPercent);";

/// The older, muddy two-stop disk usage gradient.
pub const GRADIENT_MUDDY: &'static str = "  const ratio = Math.max(0, Math.min(1, value / 100));\n  const red = Math.round(255 * ratio);\n  const green = Math.round(255 * (1 - ratio));";

/// The bright green -> yellow -> red disk usage gradient.
pub const GRADIENT_BRIGHT: &'static str = "  const ratio = Math.max(0, Math.min(1, value / 100));\n  const red = ratio <= 0.5 ? Math.round(510 * ratio) : 255;\n  const green = ratio <= 0.5 ? 255 : Math.round(510 * (1 - ratio));";

pub const MONITOR_USED: &'static str = "            monitor: \"used\",";
pub const MONITOR_FREE: &'static str = "            monitor: \"free\",";
pub const UNIT_TYPE_PERC: &'static str = "            unitType: \"perc\",";
pub const UNIT_TYPE_NUMERIC: &'static str = "            unitType: \"numeric\",";
pub const UNIT_MEASURE_SETTING: &'static str = "            unitMeasure: indicator._diskSpaceUnitMeasure,";
pub const UNIT_MEASURE_GB: &'static str = "            unitMeasure: \"g\",";

/// Presence of this line means the activity label is already styled.
pub const ACTIVITY_STYLE_MARKER: &'static str = "const activityStyle = getDiskUsagePercentStyle(activityPercent);";

pub const ACTIVITY_LINE: &'static str = "          const activityPercent = getDiskSpaceActivityPercent(indicator, entry.devicePath);";

pub const SECONDARY_CALL: &'static str = r#"          indicator._diskSpaceBox.update_element_secondary_value(
            entry.filesystem,
            `${indicator._getValueFixed(activityPercent, "diskSpace")}`,
            "%"
          );"#;

pub const STYLED_SECONDARY_CALL: &'static str = r#"          indicator._diskSpaceBox.update_element_secondary_value(
            entry.filesystem,
            `${indicator._getValueFixed(activityPercent, "diskSpace")}`,
            "%",
            activityStyle
          );"#;

// ── Specifications ───────────────────────────────────────────────────────────

/// Pass one of the unit-style normalisation, from index `k`: the text with
/// every `line` that is not directly followed by `extra` given one `extra`.
pub open spec fn insert_after_each_from(s: Seq<char>, line: Seq<char>, extra: Seq<char>, k: int) -> Seq<char>
    decreases s.len() - k,
{
    if k < 0 || k > s.len() || line.len() == 0 {
        s.skip(k)
    } else {
        match find_from(s, line, k) {
            None => s.skip(k),
            Some(i) => {
                proof {
                    lemma_find_from(s, line, k);
                }
                let end = i + line.len();
                s.subrange(k, end) + (if matches_at(s, extra, end) {
                    Seq::empty()
                } else {
                    extra
                }) + insert_after_each_from(s, line, extra, end)
            },
        }
    }
}

/// Index just past the run of back-to-back `line`s that starts at `e`.
pub open spec fn run_end(s: Seq<char>, line: Seq<char>, e: int) -> int
    decreases s.len() - e,
{
    if line.len() > 0 && matches_at(s, line, e) {
        run_end(s, line, e + line.len())
    } else {
        e
    }
}

/// Pass two of the unit-style normalisation, from index `k`: every run of
/// back-to-back `line`s collapsed to a single `line`.
pub open spec fn collapse_runs_from(s: Seq<char>, line: Seq<char>, k: int) -> Seq<char>
    decreases s.len() - k,
{
    if k < 0 || k > s.len() || line.len() == 0 {
        s.skip(k)
    } else {
        match find_from(s, line, k) {
            None => s.skip(k),
            Some(i) => {
                proof {
                    lemma_find_from(s, line, k);
                    lemma_run_end(s, line, i);
                }
                s.subrange(k, i) + line + collapse_runs_from(s, line, run_end(s, line, i))
            },
        }
    }
}

/// Result of [`normalize_disk_container_styles`].
pub open spec fn normalized_styles(s: Seq<char>) -> Seq<char> {
    collapse_runs_from(
        insert_after_each_from(s, UNIT_TEXT_LINE@, UNIT_STYLE_LINE@, 0),
        UNIT_STYLE_LINE@,
        0,
    )
}

/// The text with the top-level function whose header is the first
/// occurrence of `header` (through the `}` balancing the first `{` after the
/// header) replaced by `replacement`; `None` when the header or a balanced
/// body is missing.
pub open spec fn js_function_replaced(content: Seq<char>, header: Seq<char>, replacement: Seq<char>) -> Option<Seq<char>> {
    match find(content, header) {
        None => None,
        Some(start) => match find_from(content, seq!['{'], start) {
            None => None,
            Some(open_idx) => match matching_close(content, open_idx, '{', '}') {
                None => None,
                Some(close_idx) => Some(content.take(start) + replacement + content.skip(close_idx + 1)),
            },
        },
    }
}

/// Both injected helpers, colour helper first.
pub open spec fn helper_pair() -> Seq<char> {
    DISK_USAGE_STYLE_HELPER@ + "\n\n"@ + DISK_ACTIVITY_HELPER_BODY@
}

/// Result of [`ensure_disk_activity_helper`].
pub open spec fn helpers_ensured(content: Seq<char>) -> Seq<char> {
    let upgraded = if contains(content, ACTIVITY_HELPER_MARKER@) && !contains(
        content,
        ACTIVITY_HELPER_CURRENT_MARKER@,
    ) {
        match js_function_replaced(content, ACTIVITY_HELPER_MARKER@, DISK_ACTIVITY_HELPER_BODY@) {
            Some(t) => t,
            None => content,
        }
    } else {
        content
    };
    let has_activity = contains(upgraded, ACTIVITY_HELPER_MARKER@);
    let has_color = contains(upgraded, COLOR_HELPER_MARKER@);
    if has_activity && has_color {
        upgraded
    } else if has_activity {
        replace_first(
            upgraded,
            ACTIVITY_HELPER_MARKER@,
            DISK_USAGE_STYLE_HELPER@ + "\n\n"@ + ACTIVITY_HELPER_MARKER@,
        )
    } else if contains(upgraded, REFRESH_FUNCTION_MARKER@) {
        replace_first(upgraded, REFRESH_FUNCTION_MARKER@, helper_pair() + "\n\n"@ + REFRESH_FUNCTION_MARKER@)
    } else {
        helper_pair() + "\n\n"@ + upgraded
    }
}

/// Result of [`migrate_disk_space_primary_to_free_gb`].
pub open spec fn primary_free_gb(content: Seq<char>) -> Seq<char> {
    let t1 = replace_first(content, MONITOR_USED@, MONITOR_FREE@);
    let t2 = replace_first(t1, UNIT_TYPE_PERC@, UNIT_TYPE_NUMERIC@);
    let t3 = replace_first(t2, UNIT_MEASURE_SETTING@, UNIT_MEASURE_GB@);
    replace_first(t3, PRIMARY_STYLE_DIRECT@, PRIMARY_STYLE_USED_PERCENT@)
}

/// Result of [`migrate_disk_activity_style`].
pub open spec fn activity_styled(content: Seq<char>) -> Seq<char> {
    if contains(content, ACTIVITY_STYLE_MARKER@) || !contains(content, ACTIVITY_LINE@) || !contains(
        content,
        SECONDARY_CALL@,
    ) {
        content
    } else {
        let t = replace_first(
            content,
            ACTIVITY_LINE@,
            ACTIVITY_LINE@ + "\n          "@ + ACTIVITY_STYLE_MARKER@,
        );
        replace_first(t, SECONDARY_CALL@, STYLED_SECONDARY_CALL@)
    }
}

/// Result of [`remove_stale_disk_space_display_block`]: the first upstream
/// display block that stands directly before the current update is cut out.
pub open spec fn stale_display_removed(content: Seq<char>) -> Seq<char> {
    match find(content, UPSTREAM_DISPLAY_BLOCK@ + REFRESH_UPDATE_MARKER@) {
        Some(i) => content.take(i) + content.skip(i + UPSTREAM_DISPLAY_BLOCK@.len()),
        None => content,
    }
}

/// The known older `DiskContainerSpace` forms, in the order they are tried.
pub open spec fn container_snippets() -> Seq<Seq<char>> {
    seq![
        ORIGINAL_DISK_CONTAINER@,
        replace_first(ORIGINAL_DISK_CONTAINER@, GB_UNIT_LABEL@, KB_UNIT_LABEL@),
        BROKEN_PATCHED_DISK_CONTAINER@,
    ]
}

/// The in-place migrations of an already patched `DiskContainerSpace`.
pub open spec fn container_migrations() -> Seq<Migration> {
    seq![
        Migration {
            from: STYLE_DISK_UNIT_FROM,
            to: STYLE_DISK_UNIT_TO,
            all: true,
            required_marker: Some(SECONDARY_INIT_MARKER),
        },
        Migration {
            from: STYLE_DISK_SECONDARY_FROM,
            to: STYLE_DISK_SECONDARY_TO,
            all: false,
            required_marker: Some(SECONDARY_INIT_MARKER),
        },
    ]
}

/// Result of the disk [`patch_containers`]: `None` when no target is found.
pub open spec fn disk_containers_patch(content: Seq<char>) -> Option<Seq<char>> {
    match known_snippet_with_migration(
        content,
        container_snippets(),
        FIXED_DISK_CONTAINER@,
        DISK_CONTAINER_MARKER@,
        container_migrations(),
    ) {
        Some((t, _)) => Some(normalized_styles(t)),
        None => None,
    }
}

/// The known older disk-space update forms, in the order they are tried.
pub open spec fn refresh_snippets() -> Seq<Seq<char>> {
    seq![
        ORIGINAL_REFRESH_UPDATE@,
        BROKEN_PATCHED_REFRESH_UPDATE@,
        SPACE_USED_PATCHED_REFRESH_UPDATE@,
        ACTIVITY_PERCENT_FREE_GB_REFRESH_UPDATE@,
        FREE_GB_PRIMARY_ACTIVITY_REFRESH_UPDATE@,
        USED_GB_ACTIVITY_REFRESH_UPDATE@,
    ]
}

/// The two upstream forms (display block plus update), as escaped patterns.
pub open spec fn refresh_patterns() -> Seq<Seq<char>> {
    seq![
        regex_escaped(UPSTREAM_DISPLAY_BLOCK@ + CURRENT_UPSTREAM_UPDATE@),
        regex_escaped(UPSTREAM_DISPLAY_BLOCK@ + ORIGINAL_REFRESH_UPDATE@),
    ]
}

/// Result of [`apply_refreshers_migrations`].
pub open spec fn refreshers_migrated(t: Seq<char>) -> Seq<char> {
    let t1 = replace_first(t, PRIMARY_STYLE_GENERIC@, PRIMARY_STYLE_DIRECT@);
    let t2 = replace_first(t1, GRADIENT_MUDDY@, GRADIENT_BRIGHT@);
    let t3 = stale_display_removed(t2);
    let t4 = primary_free_gb(t3);
    let t5 = activity_styled(t4);
    let t6 = known_snippet_optional(
        t5,
        seq![ORIGINAL_DISK_REFRESH_RESULT@],
        FIXED_DISK_REFRESH_RESULT@,
        DISK_ROW_KEY_MARKER@,
    );
    helpers_ensured(t6)
}

/// Result of [`patch_refreshers`]: `None` when no target is found.
pub open spec fn refreshers_patch(content: Seq<char>) -> Option<Seq<char>> {
    match known_snippet_or_patterns(
        content,
        refresh_snippets(),
        refresh_patterns(),
        FIXED_REFRESH_UPDATE@,
        REFRESH_UPDATE_MARKER@,
    ) {
        Some((t, _)) => Some(refreshers_migrated(t)),
        None => None,
    }
}

/// Result of the disk [`patch_extension`]: `None` when no target is found.
pub open spec fn disk_extension_patch(content: Seq<char>) -> Option<Seq<char>> {
    match known_snippet(
        content,
        seq![ORIGINAL_EXTENSION_DISK_LIST@],
        FIXED_EXTENSION_DISK_LIST@,
        EXTENSION_DISK_KEY_MARKER@,
    ) {
        Some((t, _)) => Some(t),
        None => None,
    }
}

/// Whether a `Result` agrees with an optional spec outcome, the error
/// naming `target`.
pub open spec fn patch_result(r: Result<String, PatchTargetMissing>, o: Option<Seq<char>>, target: Seq<char>) -> bool {
    match o {
        Some(t) => r matches Ok(s) && s@ == t,
        None => r matches Err(e) && e.0@ == target,
    }
}

// ── Lemmas ───────────────────────────────────────────────────────────────────

/// A run starting with a match ends at least one `line` later, inside the text.
pub proof fn lemma_run_end(s: Seq<char>, line: Seq<char>, e: int)
    ensures
        e <= run_end(s, line, e),
        run_end(s, line, e) <= s.len() || run_end(s, line, e) == e,
        line.len() > 0 && matches_at(s, line, e) ==> e + line.len() <= run_end(s, line, e) <= s.len(),
    decreases s.len() - e,
{
    if line.len() > 0 && matches_at(s, line, e) {
        lemma_run_end(s, line, e + line.len());
    }
}

// ── Pure text transforms ─────────────────────────────────────────────────────

/// Pass one of [`normalize_disk_container_styles`] on characters.
fn insert_unit_styles(c: &[char]) -> (r: Vec<char>)
    ensures
        r@ == insert_after_each_from(c@, UNIT_TEXT_LINE@, UNIT_STYLE_LINE@, 0),
{
    let line = str_chars(UNIT_TEXT_LINE);
    let extra = str_chars(UNIT_STYLE_LINE);
    proof {
        reveal_strlit("        this._elementsUnit[filesystem].text = unit;\n");
    }
    assert(line@.len() > 0);
    let mut out: Vec<char> = Vec::new();
    let mut p: usize = 0;
    loop
        invariant
            p <= c.len(),
            line@ == UNIT_TEXT_LINE@,
            extra@ == UNIT_STYLE_LINE@,
            line@.len() > 0,
            out@ + insert_after_each_from(c@, line@, extra@, p as int) == insert_after_each_from(
                c@,
                line@,
                extra@,
                0,
            ),
        decreases c.len() - p,
    {
        let ghost before = out@;
        match find_from_exec(c, line.as_slice(), p) {
            None => {
                push_range(&mut out, c, p, c.len());
                assert(c@.skip(p as int) =~= c@.subrange(p as int, c.len() as int));
                return out;
            },
            Some(i) => {
                proof {
                    lemma_find_from(c@, line@, p as int);
                    assert(matches_at(c@, line@, i as int));
                }
                assert(i + line.len() <= c.len());
                let end = i + line.len();
                push_range(&mut out, c, p, end);
                if !matches_at_exec(c, extra.as_slice(), end) {
                    push_all(&mut out, extra.as_slice());
                }
                assert(out@ + insert_after_each_from(c@, line@, extra@, end as int) =~= before
                    + insert_after_each_from(c@, line@, extra@, p as int));
                p = end;
            },
        }
    }
}

/// Pass two of [`normalize_disk_container_styles`] on characters.
fn collapse_unit_styles(c: &[char]) -> (r: Vec<char>)
    ensures
        r@ == collapse_runs_from(c@, UNIT_STYLE_LINE@, 0),
{
    let line = str_chars(UNIT_STYLE_LINE);
    proof {
        reveal_strlit("        this._elementsUnit[filesystem].style = style;\n");
    }
    assert(line@.len() > 0);
    let mut out: Vec<char> = Vec::new();
    let mut p: usize = 0;
    loop
        invariant
            p <= c.len(),
            line@ == UNIT_STYLE_LINE@,
            line@.len() > 0,
            out@ + collapse_runs_from(c@, line@, p as int) == collapse_runs_from(c@, line@, 0),
        decreases c.len() - p,
    {
        let ghost before = out@;
        match find_from_exec(c, line.as_slice(), p) {
            None => {
                push_range(&mut out, c, p, c.len());
                assert(c@.skip(p as int) =~= c@.subrange(p as int, c.len() as int));
                return out;
            },
            Some(i) => {
                proof {
                    lemma_find_from(c@, line@, p as int);
                    lemma_run_end(c@, line@, i as int);
                }
                push_range(&mut out, c, p, i);
                push_all(&mut out, line.as_slice());
                let mut end = i;
                while matches_at_exec(c, line.as_slice(), end)
                    invariant
                        i <= end <= c.len(),
                        line@.len() > 0,
                        run_end(c@, line@, end as int) == run_end(c@, line@, i as int),
                    decreases c.len() - end,
                {
                    assert(end + line.len() <= c.len());
                    end = end + line.len();
                }
                assert(out@ + collapse_runs_from(c@, line@, end as int) =~= before
                    + collapse_runs_from(c@, line@, p as int));
                p = end;
            },
        }
    }
}

/// Ensure each disk unit label gets its style applied exactly once.
///
/// Inserts a missing `.style = style;` assignment after the unit-text line and
/// collapses duplicate assignments produced by re-running the patch.
pub fn normalize_disk_container_styles(content: &str) -> (r: String)
    ensures
        r@ == normalized_styles(content@),
        each_followed(r@, UNIT_TEXT_LINE@, UNIT_STYLE_LINE@),
        no_repeat(r@, UNIT_STYLE_LINE@),
        normalized_styles(r@) == r@,
        !contains(content@, UNIT_TEXT_LINE@) && !contains(content@, UNIT_STYLE_LINE@) ==> r@ == content@,
{
    let c = str_chars(content);
    let inserted = insert_unit_styles(c.as_slice());
    let collapsed = collapse_unit_styles(inserted.as_slice());
    proof {
        lemma_unit_lines_clash();
        let s = content@;
        lemma_insert_followed(s, UNIT_TEXT_LINE@, UNIT_STYLE_LINE@, 0);
        lemma_collapse_settles(inserted@, UNIT_TEXT_LINE@, UNIT_STYLE_LINE@, 0);
        lemma_normalized_styles_idempotent(s);
        if !contains(s, UNIT_TEXT_LINE@) && !contains(s, UNIT_STYLE_LINE@) {
            lemma_contains(s, UNIT_TEXT_LINE@);
            lemma_contains(s, UNIT_STYLE_LINE@);
            lemma_insert_settled(s, UNIT_TEXT_LINE@, UNIT_STYLE_LINE@, 0);
            lemma_collapse_settled(s, UNIT_STYLE_LINE@, 0);
            assert(s.skip(0) =~= s);
        }
    }
    chars_string(collapsed.as_slice())
}

/// Replace a top-level `function name(...) { ... }` whose header matches
/// `header_marker` with `replacement` (full function text including braces).
///
/// Returns `None` when the header is absent or braces are unbalanced.
fn replace_js_function(c: &[char], header_marker: &str, replacement: &str) -> (r: Option<Vec<char>>)
    ensures
        match js_function_replaced(c@, header_marker@, replacement@) {
            Some(t) => r matches Some(v) && v@ == t,
            None => r is None,
        },
{
    let h = str_chars(header_marker);
    let start = match find_exec(c, h.as_slice()) {
        Some(s) => s,
        None => return None,
    };
    let mut brace: Vec<char> = Vec::new();
    brace.push('{');
    assert(brace@ =~= seq!['{']);
    let open_idx = match find_from_exec(c, brace.as_slice(), start) {
        Some(o) => o,
        None => return None,
    };
    proof {
        lemma_find_from(c@, h@, 0);
        lemma_find_from(c@, brace@, start as int);
        assert(c@.subrange(open_idx as int, open_idx + 1)[0] == c@[open_idx as int]);
    }
    let close_idx = match find_matching_close(c, open_idx, '{', '}') {
        Some(ci) => ci,
        None => return None,
    };
    proof {
        lemma_matching_close_bounds(c@, open_idx as int, 0, '{', '}');
    }
    assert(c@.len() == c.len());
    assert(close_idx < c.len());
    let mut out: Vec<char> = Vec::new();
    push_range(&mut out, c, 0, start);
    push_str(&mut out, replacement);
    push_range(&mut out, c, close_idx + 1, c.len());
    assert(c@.take(start as int) =~= c@.subrange(0, start as int));
    assert(c@.skip(close_idx + 1) =~= c@.subrange(close_idx + 1, c.len() as int));
    Some(out)
}

/// The literal facts the helper law rests on: each helper text begins with
/// its marker.
proof fn lemma_helpers_carry_markers()
    ensures
        contains(DISK_USAGE_STYLE_HELPER@, COLOR_HELPER_MARKER@),
        contains(DISK_ACTIVITY_HELPER_BODY@, ACTIVITY_HELPER_MARKER@),
{
    reveal_strlit("function getDiskUsagePercentStyle(value)");
    reveal_strlit("function getDiskSpaceActivityPercent(indicator, filesystem)");
    reveal_strlit(r#"function getDiskUsagePercentStyle(value) {
  if (!Number.isFinite(value)) {
    return "";
  }

  const ratio = Math.max(0, Math.min(1, value / 100));
  const red = ratio <= 0.5 ? Math.round(510 * ratio) : 255;
  const green = ratio <= 0.5 ? 255 : Math.round(510 * (1 - ratio));

  return `color: rgb(${red}, ${green}, 0);`;
}"#);
    assert(DISK_USAGE_STYLE_HELPER@.subrange(0, COLOR_HELPER_MARKER@.len() as int) =~= COLOR_HELPER_MARKER@);
    lemma_contains_at(DISK_USAGE_STYLE_HELPER@, COLOR_HELPER_MARKER@, 0);
    reveal_strlit(r#"function getDiskSpaceActivityPercent(indicator, filesystem) {
  if (!indicator._diskSpaceActivitySamples) {
    indicator._diskSpaceActivitySamples = new Map();
  }

  try {
    const [ok, diskStatsContents] = GLib.file_get_contents("/proc/diskstats");
    if (!ok) {
      return 0;
    }

    const diskName = filesystem.replace(/^\/dev\//, "");
    const names = [diskName];
    // LVM/mapper paths show as /dev/mapper/foo while diskstats uses dm-N.
    try {
      const linkTarget = GLib.file_read_link(filesystem);
      if (linkTarget) {
        const base = String(linkTarget).replace(/^.*\//, "");
        if (base && !names.includes(base)) {
          names.push(base);
        }
      }
    } catch (_linkError) {
      // Not a symlink — keep the basename match only.
    }

    const diskStatsLine = new TextDecoder()
      .decode(diskStatsContents)
      .split("\n")
      .map((line) => line.trim().split(/\s+/))
      .find((fields) => fields.length >= 13 && names.includes(fields[2]));

    if (!diskStatsLine) {
      return 0;
    }

    const ioTimeMs = parseInt(diskStatsLine[12], 10);
    if (!Number.isFinite(ioTimeMs)) {
      return 0;
    }

    const sampleTimeMs = GLib.get_monotonic_time() / 1000;
    const previousSample = indicator._diskSpaceActivitySamples.get(filesystem);

    indicator._diskSpaceActivitySamples.set(filesystem, {
      ioTimeMs,
      sampleTimeMs,
    });

    if (!previousSample || !Number.isFinite(previousSample.ioTimeMs)) {
      return 0;
    }

    const elapsedMs = Math.max(0, sampleTimeMs - previousSample.sampleTimeMs);
    const activeMs = Math.max(0, ioTimeMs - previousSample.ioTimeMs);

    return elapsedMs > 0 ? Math.min(100, (activeMs * 100) / elapsedMs) : 0;
  } catch (error) {
    return 0;
  }
}"#);
    assert(DISK_ACTIVITY_HELPER_BODY@.subrange(0, ACTIVITY_HELPER_MARKER@.len() as int) =~= ACTIVITY_HELPER_MARKER@);
    lemma_contains_at(DISK_ACTIVITY_HELPER_BODY@, ACTIVITY_HELPER_MARKER@, 0);
}

/// [`ensure_disk_activity_helper`] on characters.
fn helpers_ensured_chars(c: &[char]) -> (r: Vec<char>)
    ensures
        r@ == helpers_ensured(c@),
{
    let mut content: Vec<char> = Vec::new();
    push_all(&mut content, c);
    assert(content@ =~= c@);
    if contains_str(c, ACTIVITY_HELPER_MARKER) && !contains_str(c, ACTIVITY_HELPER_CURRENT_MARKER) {
        match replace_js_function(c, ACTIVITY_HELPER_MARKER, DISK_ACTIVITY_HELPER_BODY) {
            Some(upgraded) => {
                content = upgraded;
            },
            None => {},
        }
    }
    let has_activity = contains_str(content.as_slice(), ACTIVITY_HELPER_MARKER);
    let has_color = contains_str(content.as_slice(), COLOR_HELPER_MARKER);
    if has_activity && has_color {
        return content;
    }
    if has_activity {
        let mut rep: Vec<char> = Vec::new();
        push_str(&mut rep, DISK_USAGE_STYLE_HELPER);
        push_str(&mut rep, "\n\n");
        push_str(&mut rep, ACTIVITY_HELPER_MARKER);
        let pat = str_chars(ACTIVITY_HELPER_MARKER);
        return replace_first_exec(content.as_slice(), pat.as_slice(), rep.as_slice());
    }
    let mut helper: Vec<char> = Vec::new();
    push_str(&mut helper, DISK_USAGE_STYLE_HELPER);
    push_str(&mut helper, "\n\n");
    push_str(&mut helper, DISK_ACTIVITY_HELPER_BODY);
    push_str(&mut helper, "\n\n");
    if contains_str(content.as_slice(), REFRESH_FUNCTION_MARKER) {
        push_str(&mut helper, REFRESH_FUNCTION_MARKER);
        let pat = str_chars(REFRESH_FUNCTION_MARKER);
        return replace_first_exec(content.as_slice(), pat.as_slice(), helper.as_slice());
    }
    push_all(&mut helper, content.as_slice());
    helper
}

/// Ensure refreshers.js defines both the disk-activity and disk-usage-colour
/// helpers, injecting whichever is missing at the appropriate anchor, and
/// upgrading a stale activity helper body when the LVM/mapper fix is absent.
///
/// The result always defines both helpers.
pub fn ensure_disk_activity_helper(content: &str) -> (r: String)
    ensures
        r@ == helpers_ensured(content@),
        contains(r@, ACTIVITY_HELPER_MARKER@),
        contains(r@, COLOR_HELPER_MARKER@),
{
    proof {
        lemma_helpers_ensured_defines_both(content@);
    }
    let c = str_chars(content);
    let v = helpers_ensured_chars(c.as_slice());
    chars_string(v.as_slice())
}

/// Whatever the input, the helper step leaves both helpers defined.
pub proof fn lemma_helpers_ensured_defines_both(content: Seq<char>)
    ensures
        contains(helpers_ensured(content), ACTIVITY_HELPER_MARKER@),
        contains(helpers_ensured(content), COLOR_HELPER_MARKER@),
{
    lemma_helpers_carry_markers();
    let upgraded = if contains(content, ACTIVITY_HELPER_MARKER@) && !contains(
        content,
        ACTIVITY_HELPER_CURRENT_MARKER@,
    ) {
        match js_function_replaced(content, ACTIVITY_HELPER_MARKER@, DISK_ACTIVITY_HELPER_BODY@) {
            Some(t) => t,
            None => content,
        }
    } else {
        content
    };
    let has_activity = contains(upgraded, ACTIVITY_HELPER_MARKER@);
    let has_color = contains(upgraded, COLOR_HELPER_MARKER@);
    let color_helper = DISK_USAGE_STYLE_HELPER@;
    let sep = "\n\n"@;
    let pair = helper_pair();
    // The helper pair holds both markers.
    lemma_contains_parts(color_helper + sep, DISK_ACTIVITY_HELPER_BODY@);
    lemma_contains_parts(color_helper, sep);
    lemma_contains_trans(pair, color_helper + sep, color_helper);
    lemma_contains_trans(pair, color_helper, COLOR_HELPER_MARKER@);
    lemma_contains_trans(pair, DISK_ACTIVITY_HELPER_BODY@, ACTIVITY_HELPER_MARKER@);
    if has_activity && has_color {
    } else if has_activity {
        let rep = color_helper + sep + ACTIVITY_HELPER_MARKER@;
        lemma_contains_parts(color_helper + sep, ACTIVITY_HELPER_MARKER@);
        lemma_contains_trans(rep, color_helper + sep, color_helper);
        lemma_contains_trans(rep, color_helper, COLOR_HELPER_MARKER@);
        lemma_replace_first_has_rep(upgraded, ACTIVITY_HELPER_MARKER@, rep);
        let out = replace_first(upgraded, ACTIVITY_HELPER_MARKER@, rep);
        lemma_contains_trans(out, rep, COLOR_HELPER_MARKER@);
        lemma_contains_trans(out, rep, ACTIVITY_HELPER_MARKER@);
    } else if contains(upgraded, REFRESH_FUNCTION_MARKER@) {
        let rep = pair + sep + REFRESH_FUNCTION_MARKER@;
        lemma_contains_parts(pair + sep, REFRESH_FUNCTION_MARKER@);
        lemma_contains_parts(pair, sep);
        lemma_contains_trans(rep, pair + sep, pair);
        lemma_replace_first_has_rep(upgraded, REFRESH_FUNCTION_MARKER@, rep);
        let out = replace_first(upgraded, REFRESH_FUNCTION_MARKER@, rep);
        lemma_contains_trans(out, rep, pair);
        lemma_contains_trans(out, pair, COLOR_HELPER_MARKER@);
        lemma_contains_trans(out, pair, ACTIVITY_HELPER_MARKER@);
    } else {
        let out = pair + sep + upgraded;
        lemma_contains_parts(pair + sep, upgraded);
        lemma_contains_parts(pair, sep);
        lemma_contains_trans(out, pair + sep, pair);
        lemma_contains_trans(out, pair, COLOR_HELPER_MARKER@);
        lemma_contains_trans(out, pair, ACTIVITY_HELPER_MARKER@);
    }
}

/// `s` with the first `from` replaced by `to`, testing for `from` first as
/// the migrations do.
fn replace_if_present(s: &[char], from: &str, to: &str) -> (r: Vec<char>)
    ensures
        r@ == replace_first(s@, from@, to@),
{
    if !contains_str(s, from) {
        let mut v: Vec<char> = Vec::new();
        push_all(&mut v, s);
        proof {
            lemma_replace_first_absent(s@, from@, to@);
        }
        assert(v@ =~= s@);
        return v;
    }
    replace_first_str(s, from, to)
}

/// Switch the primary disk style from the generic gradient helper to the
/// dedicated `getDiskUsagePercentStyle` helper.
pub fn migrate_disk_usage_style(content: &str) -> (r: String)
    ensures
        r@ == replace_first(content@, PRIMARY_STYLE_GENERIC@, PRIMARY_STYLE_DIRECT@),
{
    let c = str_chars(content);
    let v = replace_if_present(c.as_slice(), PRIMARY_STYLE_GENERIC, PRIMARY_STYLE_DIRECT);
    chars_string(v.as_slice())
}

/// Upgrade an older "muddy" disk usage gradient to the brighter
/// green -> yellow -> red gradient.
pub fn migrate_disk_usage_style_gradient(content: &str) -> (r: String)
    ensures
        r@ == replace_first(content@, GRADIENT_MUDDY@, GRADIENT_BRIGHT@),
{
    let c = str_chars(content);
    let v = replace_if_present(c.as_slice(), GRADIENT_MUDDY, GRADIENT_BRIGHT);
    chars_string(v.as_slice())
}

/// [`migrate_disk_space_primary_to_free_gb`] on characters.
fn primary_free_gb_chars(c: &[char]) -> (r: Vec<char>)
    ensures
        r@ == primary_free_gb(c@),
{
    let t1 = replace_if_present(c, MONITOR_USED, MONITOR_FREE);
    let t2 = replace_if_present(t1.as_slice(), UNIT_TYPE_PERC, UNIT_TYPE_NUMERIC);
    let t3 = replace_if_present(t2.as_slice(), UNIT_MEASURE_SETTING, UNIT_MEASURE_GB);
    replace_if_present(t3.as_slice(), PRIMARY_STYLE_DIRECT, PRIMARY_STYLE_USED_PERCENT)
}

/// Migrate the primary disk display from "used percent" to "free GB".
///
/// Switches the monitor/unit-type/unit-measure settings and recolours using
/// `usedPercent`. Each substitution is applied only when its source is present.
pub fn migrate_disk_space_primary_to_free_gb(content: &str) -> (r: String)
    ensures
        r@ == primary_free_gb(content@),
{
    let c = str_chars(content);
    let v = primary_free_gb_chars(c.as_slice());
    chars_string(v.as_slice())
}

/// [`migrate_disk_activity_style`] on characters.
fn activity_styled_chars(c: &[char]) -> (r: Vec<char>)
    ensures
        r@ == activity_styled(c@),
{
    if contains_str(c, ACTIVITY_STYLE_MARKER) || !contains_str(c, ACTIVITY_LINE) || !contains_str(
        c,
        SECONDARY_CALL,
    ) {
        let mut v: Vec<char> = Vec::new();
        push_all(&mut v, c);
        assert(v@ =~= c@);
        return v;
    }
    let mut rep: Vec<char> = Vec::new();
    push_str(&mut rep, ACTIVITY_LINE);
    push_str(&mut rep, "\n          ");
    push_str(&mut rep, ACTIVITY_STYLE_MARKER);
    let pat = str_chars(ACTIVITY_LINE);
    let t = replace_first_exec(c, pat.as_slice(), rep.as_slice());
    replace_first_str(t.as_slice(), SECONDARY_CALL, STYLED_SECONDARY_CALL)
}

/// Add a colour style to the secondary disk-activity (live IO %) label.
pub fn migrate_disk_activity_style(content: &str) -> (r: String)
    ensures
        r@ == activity_styled(content@),
{
    let c = str_chars(content);
    let v = activity_styled_chars(c.as_slice());
    chars_string(v.as_slice())
}

/// [`remove_stale_disk_space_display_block`] on characters.
fn stale_display_removed_chars(c: &[char]) -> (r: Vec<char>)
    ensures
        r@ == stale_display_removed(c@),
{
    let mut pat = str_chars(UPSTREAM_DISPLAY_BLOCK);
    let block_len = pat.len();
    push_str(&mut pat, REFRESH_UPDATE_MARKER);
    match find_exec(c, pat.as_slice()) {
        Some(i) => {
            proof {
                lemma_find_from(c@, pat@, 0);
                assert(matches_at(c@, pat@, i as int));
            }
            assert(i + pat.len() <= c.len());
            let mut out: Vec<char> = Vec::new();
            push_range(&mut out, c, 0, i);
            push_range(&mut out, c, i + block_len, c.len());
            assert(c@.take(i as int) =~= c@.subrange(0, i as int));
            assert(c@.skip(i + block_len) =~= c@.subrange(i + block_len, c.len() as int));
            out
        },
        None => {
            let mut v: Vec<char> = Vec::new();
            push_all(&mut v, c);
            assert(v@ =~= c@);
            v
        },
    }
}

/// Remove a stale disk-space display block left by earlier patch revisions that
/// would otherwise sit before the current usage patch.
pub fn remove_stale_disk_space_display_block(content: &str) -> (r: String)
    ensures
        r@ == stale_display_removed(content@),
{
    let c = str_chars(content);
    let v = stale_display_removed_chars(c.as_slice());
    chars_string(v.as_slice())
}

// ── File-level patching ──────────────────────────────────────────────────────

/// Apply the `DiskContainerSpace` rewrite to `containers.js` content.
pub fn patch_containers(content: &str) -> (r: Result<String, PatchTargetMissing>)
    ensures
        patch_result(r, disk_containers_patch(content@), "DiskContainerSpace"@),
{
    // The KB variant is the same upstream class with a different default unit
    // label, so derive it instead of duplicating the whole snippet.
    let original = str_chars(ORIGINAL_DISK_CONTAINER);
    let kb_chars = replace_first_str(original.as_slice(), GB_UNIT_LABEL, KB_UNIT_LABEL);
    let original_kb = chars_string(kb_chars.as_slice());
    let snippets: [&str; 3] = [ORIGINAL_DISK_CONTAINER, original_kb.as_str(), BROKEN_PATCHED_DISK_CONTAINER];
    let migrations: [Migration; 2] = [
        Migration {
            from: STYLE_DISK_UNIT_FROM,
            to: STYLE_DISK_UNIT_TO,
            all: true,
            required_marker: Some(SECONDARY_INIT_MARKER),
        },
        Migration {
            from: STYLE_DISK_SECONDARY_FROM,
            to: STYLE_DISK_SECONDARY_TO,
            all: false,
            required_marker: Some(SECONDARY_INIT_MARKER),
        },
    ];
    assert(strs_view(snippets@) =~= container_snippets());
    assert(migrations@ =~= container_migrations());
    let result = replace_known_snippet_with_migration(
        content,
        &snippets,
        FIXED_DISK_CONTAINER,
        DISK_CONTAINER_MARKER,
        &migrations,
        "DiskContainerSpace",
    );
    match result {
        Ok((patched, _status)) => Ok(normalize_disk_container_styles(patched.as_str())),
        Err(e) => Err(e),
    }
}

/// The migrations and helper injection that follow the disk-space update
/// replacement in `refreshers.js`: style and gradient upgrades, removal of a
/// stale display block, the free-GB primary display, the activity style, the
/// mount-point row key, and both helpers.
pub fn apply_refreshers_migrations(patched: &str) -> (r: String)
    ensures
        r@ == refreshers_migrated(patched@),
{
    let c = str_chars(patched);
    let t1 = replace_if_present(c.as_slice(), PRIMARY_STYLE_GENERIC, PRIMARY_STYLE_DIRECT);
    let t2 = replace_if_present(t1.as_slice(), GRADIENT_MUDDY, GRADIENT_BRIGHT);
    let t3 = stale_display_removed_chars(t2.as_slice());
    let t4 = primary_free_gb_chars(t3.as_slice());
    let t5 = activity_styled_chars(t4.as_slice());
    let t5s = chars_string(t5.as_slice());
    let row_snippets: [&str; 1] = [ORIGINAL_DISK_REFRESH_RESULT];
    assert(strs_view(row_snippets@) =~= seq![ORIGINAL_DISK_REFRESH_RESULT@]);
    let t6 = replace_known_snippet_optional(
        t5s.as_str(),
        &row_snippets,
        FIXED_DISK_REFRESH_RESULT,
        DISK_ROW_KEY_MARKER,
        "refreshers.js disk space row key",
    );
    ensure_disk_activity_helper(t6.as_str())
}

/// The characters of `a` followed by those of `b`, as a string.
fn concat_str(a: &str, b: &str) -> (r: String)
    ensures
        r@ == a@ + b@,
{
    let mut v = str_chars(a);
    push_str(&mut v, b);
    chars_string(v.as_slice())
}

/// Apply every disk-space edit to `refreshers.js` content.
///
/// Both upstream forms are literal text; escaping them keeps the "patterns
/// before snippets" precedence without hand-writing regex syntax.
pub fn patch_refreshers(content: &str) -> (r: Result<String, PatchTargetMissing>)
    ensures
        patch_result(r, refreshers_patch(content@), "refreshers.js disk space update"@),
{
    let current = concat_str(UPSTREAM_DISPLAY_BLOCK, CURRENT_UPSTREAM_UPDATE);
    let legacy = concat_str(UPSTREAM_DISPLAY_BLOCK, ORIGINAL_REFRESH_UPDATE);
    let current_pattern = regex_escape(current.as_str());
    let legacy_pattern = regex_escape(legacy.as_str());
    let patterns: [&str; 2] = [current_pattern.as_str(), legacy_pattern.as_str()];
    let snippets: [&str; 6] = [
        ORIGINAL_REFRESH_UPDATE,
        BROKEN_PATCHED_REFRESH_UPDATE,
        SPACE_USED_PATCHED_REFRESH_UPDATE,
        ACTIVITY_PERCENT_FREE_GB_REFRESH_UPDATE,
        FREE_GB_PRIMARY_ACTIVITY_REFRESH_UPDATE,
        USED_GB_ACTIVITY_REFRESH_UPDATE,
    ];
    assert(strs_view(patterns@) =~= refresh_patterns());
    assert(strs_view(snippets@) =~= refresh_snippets());
    let result = replace_known_snippet_or_patterns(
        content,
        &snippets,
        &patterns,
        FIXED_REFRESH_UPDATE,
        REFRESH_UPDATE_MARKER,
        "refreshers.js disk space update",
    );
    match result {
        Ok((patched, _status)) => Ok(apply_refreshers_migrations(patched.as_str())),
        Err(e) => Err(e),
    }
}

/// Key the extension's disk-space rows by mount point.
pub fn patch_extension(content: &str) -> (r: Result<String, PatchTargetMissing>)
    ensures
        patch_result(r, disk_extension_patch(content@), "extension.js disk space row key"@),
{
    let snippets: [&str; 1] = [ORIGINAL_EXTENSION_DISK_LIST];
    assert(strs_view(snippets@) =~= seq![ORIGINAL_EXTENSION_DISK_LIST@]);
    let result = replace_known_snippet(
        content,
        &snippets,
        FIXED_EXTENSION_DISK_LIST,
        EXTENSION_DISK_KEY_MARKER,
        "extension.js disk space row key",
    );
    match result {
        Ok((patched, _status)) => Ok(patched),
        Err(e) => Err(e),
    }
}

// ── The three-file plan ──────────────────────────────────────────────────────

/// The files a disk patch writes: each new content, present only when it
/// differs from what the file holds.
#[derive(Debug, Clone, PartialEq, Eq)]
pub struct DiskWrites {
    pub containers: Option<String>,
    pub refreshers: Option<String>,
    pub extension: Option<String>,
}

/// What a disk patch does: the progress lines it reports, then the files
/// it writes, or the target it could not find (nothing is written then).
#[derive(Debug)]
pub struct DiskPatchPlan {
    pub progress: Vec<&'static str>,
    pub writes: Result<DiskWrites, PatchTargetMissing>,
}

pub const MESSAGE_DISK_PATCHED: &'static str = "Patched Resource Monitor disk free-space and live IO activity display";

pub const MESSAGE_DISK_ALREADY: &'static str = "Disk free-space and live IO activity display already patched — skipping";

/// `new` when it differs from `old`.
pub open spec fn changed_to(old: Seq<char>, new: Seq<char>) -> Option<Seq<char>> {
    if new == old {
        None
    } else {
        Some(new)
    }
}

/// The view of an optional string.
pub open spec fn opt_string_view(o: Option<String>) -> Option<Seq<char>> {
    match o {
        Some(s) => Some(s@),
        None => None,
    }
}

/// The writes of a disk patch: every target is patched before anything is
/// written, the first target that fails names the error, and a file is
/// written only when its patched text differs.
pub open spec fn disk_writes(
    containers: Seq<char>,
    refreshers: Seq<char>,
    extension: Option<Seq<char>>,
) -> Result<(Option<Seq<char>>, Option<Seq<char>>, Option<Seq<char>>), Seq<char>> {
    match disk_containers_patch(containers) {
        None => Err("DiskContainerSpace"@),
        Some(c) => match refreshers_patch(refreshers) {
            None => Err("refreshers.js disk space update"@),
            Some(r) => match extension {
                None => Ok((changed_to(containers, c), changed_to(refreshers, r), None)),
                Some(e) => match disk_extension_patch(e) {
                    None => Err("extension.js disk space row key"@),
                    Some(x) => Ok((changed_to(containers, c), changed_to(refreshers, r), changed_to(e, x))),
                },
            },
        },
    }
}

/// The progress lines of a disk patch: those of the `refreshers.js` edit,
/// reported once `containers.js` has been patched.
pub open spec fn disk_progress(containers: Seq<char>, refreshers: Seq<char>) -> Seq<Seq<char>> {
    if disk_containers_patch(containers) is Some {
        refreshers_notes(refreshers)
    } else {
        Seq::empty()
    }
}

impl DiskWrites {
    /// Whether any file is written.
    pub open spec fn changes(&self) -> bool {
        self.containers is Some || self.refreshers is Some || self.extension is Some
    }

    /// Whether any file is written.
    pub fn any_changed(&self) -> (r: bool)
        ensures
            r == self.changes(),
    {
        self.containers.is_some() || self.refreshers.is_some() || self.extension.is_some()
    }

    /// The closing message: patched when any file is written, skipped
    /// otherwise.
    pub fn message(&self) -> (r: &'static str)
        ensures
            r@ == if self.changes() { MESSAGE_DISK_PATCHED@ } else { MESSAGE_DISK_ALREADY@ },
    {
        if self.any_changed() {
            MESSAGE_DISK_PATCHED
        } else {
            MESSAGE_DISK_ALREADY
        }
    }
}

/// The new text when it differs from the old one.
fn changed_string(old: &str, new: String) -> (r: Option<String>)
    ensures
        opt_string_view(r) == changed_to(old@, new@),
{
    if str_eq(new.as_str(), old) {
        None
    } else {
        Some(new)
    }
}

/// Plan a disk patch of `containers.js`, `refreshers.js` and, when the
/// file exists, `extension.js`: patch all three texts before anything is
/// written, and keep only the texts that change.
pub fn disk_patch_plan(containers: &str, refreshers: &str, extension: Option<&str>) -> (r: DiskPatchPlan)
    ensures
        strs_view(r.progress@) == disk_progress(containers@, refreshers@),
        match disk_writes(containers@, refreshers@, opt_view(extension)) {
            Ok((c, f, x)) => r.writes matches Ok(w) && opt_string_view(w.containers) == c
                && opt_string_view(w.refreshers) == f && opt_string_view(w.extension) == x,
            Err(target) => r.writes matches Err(e) && e.0@ == target,
        },
{
    let patched_containers = match patch_containers(containers) {
        Ok(c) => c,
        Err(e) => {
            let progress: Vec<&'static str> = Vec::new();
            assert(strs_view(progress@) =~= Seq::<Seq<char>>::empty());
            return DiskPatchPlan { progress, writes: Err(e) };
        },
    };
    let progress = refreshers_progress(refreshers);
    let patched_refreshers = match patch_refreshers(refreshers) {
        Ok(c) => c,
        Err(e) => return DiskPatchPlan { progress, writes: Err(e) },
    };
    let patched_extension = match extension {
        Some(content) => match patch_extension(content) {
            Ok(x) => Some(changed_string(content, x)),
            Err(e) => return DiskPatchPlan { progress, writes: Err(e) },
        },
        None => None,
    };
    let writes = DiskWrites {
        containers: changed_string(containers, patched_containers),
        refreshers: changed_string(refreshers, patched_refreshers),
        extension: match patched_extension {
            Some(x) => x,
            None => None,
        },
    };
    DiskPatchPlan { progress, writes: Ok(writes) }
}

// ── Laws ─────────────────────────────────────────────────────────────────────

/// The mount-point key edit is idempotent: whenever it succeeds, running it
/// again on its output succeeds and leaves the text unchanged.
pub proof fn lemma_disk_extension_patch_idempotent(content: Seq<char>)
    requires
        disk_extension_patch(content) is Some,
    ensures
        disk_extension_patch(disk_extension_patch(content)->0) == disk_extension_patch(content),
{
    reveal_strlit("const diskSpaceKey = device.mountPoint || device.device;");
    reveal_strlit(r#"      this._diskDevices.forEach((device) => {
        if (device.stats) {
          this._diskStatsBox.add_element(device.device, device.displayName);
        }

        if (device.space) {
          const diskSpaceKey = device.mountPoint || device.device;
          this._diskSpaceBox.add_element(diskSpaceKey, device.displayName);
        }
      });"#);
    // The key line starts at character 200 of the keyed list.
    assert(FIXED_EXTENSION_DISK_LIST@.subrange(200, 200 + EXTENSION_DISK_KEY_MARKER@.len() as int) =~= EXTENSION_DISK_KEY_MARKER@);
    lemma_contains_at(FIXED_EXTENSION_DISK_LIST@, EXTENSION_DISK_KEY_MARKER@, 200);
    lemma_known_snippet_idempotent(
        content,
        seq![ORIGINAL_EXTENSION_DISK_LIST@],
        FIXED_EXTENSION_DISK_LIST@,
        EXTENSION_DISK_KEY_MARKER@,
    );
}

/// The two unit lines cannot overlap each other or themselves in a shifted
/// position, and a text line cannot start where a style line does.
proof fn lemma_unit_lines_clash()
    ensures
        UNIT_TEXT_LINE@.len() > 0,
        UNIT_STYLE_LINE@.len() > 0,
        clash_from(UNIT_TEXT_LINE@, UNIT_TEXT_LINE@, 1),
        clash_from(UNIT_STYLE_LINE@, UNIT_STYLE_LINE@, 1),
        clash_from(UNIT_TEXT_LINE@, UNIT_STYLE_LINE@, 1),
        clash_from(UNIT_STYLE_LINE@, UNIT_TEXT_LINE@, 0),
{
    reveal_strlit("        this._elementsUnit[filesystem].text = unit;\n");
    reveal_strlit("        this._elementsUnit[filesystem].style = style;\n");
    let t = UNIT_TEXT_LINE@;
    let s = UNIT_STYLE_LINE@;
    // Both lines open with eight spaces and share no other run of two
    // spaces, so a shifted copy disagrees within its first few characters.
    assert forall|d: int| 1 <= d < t.len() implies #[trigger] clash_at(t, t, d) by {
        let idx = if d < 8 { 8 - d } else if t[d] == ' ' { 1 } else { 0 };
        assert(t[d + idx] != t[idx]);
    }
    assert forall|d: int| 1 <= d < s.len() implies #[trigger] clash_at(s, s, d) by {
        let idx = if d < 8 { 8 - d } else if s[d] == ' ' { 1 } else { 0 };
        assert(s[d + idx] != s[idx]);
    }
    assert forall|d: int| 1 <= d < t.len() implies #[trigger] clash_at(t, s, d) by {
        let idx = if d < 8 { 8 - d } else if t[d] == ' ' { 1 } else { 0 };
        assert(t[d + idx] != s[idx]);
    }
    assert forall|d: int| 0 <= d < s.len() implies #[trigger] clash_at(s, t, d) by {
        let idx = if d == 0 { 39 } else if d < 8 { 8 - d } else if s[d] == ' ' { 1 } else { 0 };
        assert(s[d + idx] != t[idx]);
    }
}

/// The unit-style normalisation settles in one pass: normalising an already
/// normalised text changes nothing, so re-running the containers patch does
/// not stack style assignments.
pub proof fn lemma_normalized_styles_idempotent(s: Seq<char>)
    ensures
        normalized_styles(normalized_styles(s)) == normalized_styles(s),
{
    lemma_unit_lines_clash();
    let t = UNIT_TEXT_LINE@;
    let st = UNIT_STYLE_LINE@;
    let y = insert_after_each_from(s, t, st, 0);
    lemma_insert_followed(s, t, st, 0);
    let n = collapse_runs_from(y, st, 0);
    lemma_collapse_settles(y, t, st, 0);
    lemma_insert_settled(n, t, st, 0);
    lemma_collapse_settled(n, st, 0);
    assert(n.skip(0) =~= n);
}

/// The literal facts the helper-step law rests on.
proof fn lemma_helper_texts_clash()
    ensures
        contains(DISK_ACTIVITY_HELPER_BODY@, ACTIVITY_HELPER_CURRENT_MARKER@),
        ACTIVITY_HELPER_MARKER@.len() > 0,
        ACTIVITY_HELPER_MARKER@[0] == 'f',
        clash_from(DISK_USAGE_STYLE_HELPER@, ACTIVITY_HELPER_MARKER@, 0),
        clash_from(ACTIVITY_HELPER_MARKER@, DISK_USAGE_STYLE_HELPER@, 1),
        clash_from(ACTIVITY_HELPER_MARKER@, ACTIVITY_HELPER_CURRENT_MARKER@, 0),
        clash_from(ACTIVITY_HELPER_CURRENT_MARKER@, ACTIVITY_HELPER_MARKER@, 1),
{
    reveal_strlit(r#"function getDiskUsagePercentStyle(value) {
  if (!Number.isFinite(value)) {
    return "";
  }

  const ratio = Math.max(0, Math.min(1, value / 100));
  const red = ratio <= 0.5 ? Math.round(510 * ratio) : 255;
  const green = ratio <= 0.5 ? 255 : Math.round(510 * (1 - ratio));

  return `color: rgb(${red}, ${green}, 0);`;
}"#);
    reveal_strlit("function getDiskSpaceActivityPercent(indicator, filesystem)");
    reveal_strlit("GLib.file_read_link(filesystem)");
    reveal_strlit(r#"function getDiskSpaceActivityPercent(indicator, filesystem) {
  if (!indicator._diskSpaceActivitySamples) {
    indicator._diskSpaceActivitySamples = new Map();
  }

  try {
    const [ok, diskStatsContents] = GLib.file_get_contents("/proc/diskstats");
    if (!ok) {
      return 0;
    }

    const diskName = filesystem.replace(/^\/dev\//, "");
    const names = [diskName];
    // LVM/mapper paths show as /dev/mapper/foo while diskstats uses dm-N.
    try {
      const linkTarget = GLib.file_read_link(filesystem);
      if (linkTarget) {
        const base = String(linkTarget).replace(/^.*\//, "");
        if (base && !names.includes(base)) {
          names.push(base);
        }
      }
    } catch (_linkError) {
      // Not a symlink — keep the basename match only.
    }

    const diskStatsLine = new TextDecoder()
      .decode(diskStatsContents)
      .split("\n")
      .map((line) => line.trim().split(/\s+/))
      .find((fields) => fields.length >= 13 && names.includes(fields[2]));

    if (!diskStatsLine) {
      return 0;
    }

    const ioTimeMs = parseInt(diskStatsLine[12], 10);
    if (!Number.isFinite(ioTimeMs)) {
      return 0;
    }

    const sampleTimeMs = GLib.get_monotonic_time() / 1000;
    const previousSample = indicator._diskSpaceActivitySamples.get(filesystem);

    indicator._diskSpaceActivitySamples.set(filesystem, {
      ioTimeMs,
      sampleTimeMs,
    });

    if (!previousSample || !Number.isFinite(previousSample.ioTimeMs)) {
      return 0;
    }

    const elapsedMs = Math.max(0, sampleTimeMs - previousSample.sampleTimeMs);
    const activeMs = Math.max(0, ioTimeMs - previousSample.ioTimeMs);

    return elapsedMs > 0 ? Math.min(100, (activeMs * 100) / elapsedMs) : 0;
  } catch (error) {
    return 0;
  }
}"#);
    assert(DISK_ACTIVITY_HELPER_BODY@.subrange(488, 519) =~= ACTIVITY_HELPER_CURRENT_MARKER@);
    lemma_contains_at(DISK_ACTIVITY_HELPER_BODY@, ACTIVITY_HELPER_CURRENT_MARKER@, 488);
    assert forall|d: int| 0 <= d < DISK_USAGE_STYLE_HELPER@.len() implies #[trigger] clash_at(DISK_USAGE_STYLE_HELPER@, ACTIVITY_HELPER_MARKER@, d) by {
        let x = DISK_USAGE_STYLE_HELPER@;
        let y = ACTIVITY_HELPER_MARKER@;
        let idx = if d == 0 { 16int } else if x[d + 0] != y[0] { 0int } else { 1int };
        assert(x[d + idx] != y[idx]);
    }
    assert forall|d: int| 1 <= d < ACTIVITY_HELPER_MARKER@.len() implies #[trigger] clash_at(ACTIVITY_HELPER_MARKER@, DISK_USAGE_STYLE_HELPER@, d) by {
        let x = ACTIVITY_HELPER_MARKER@;
        let y = DISK_USAGE_STYLE_HELPER@;
        let idx = if x[d + 0] != y[0] { 0int } else { 1int };
        assert(x[d + idx] != y[idx]);
    }
    assert forall|d: int| 0 <= d < ACTIVITY_HELPER_MARKER@.len() implies #[trigger] clash_at(ACTIVITY_HELPER_MARKER@, ACTIVITY_HELPER_CURRENT_MARKER@, d) by {
        let x = ACTIVITY_HELPER_MARKER@;
        let y = ACTIVITY_HELPER_CURRENT_MARKER@;
        let idx = { 0int };
        assert(x[d + idx] != y[idx]);
    }
    assert forall|d: int| 1 <= d < ACTIVITY_HELPER_CURRENT_MARKER@.len() implies #[trigger] clash_at(ACTIVITY_HELPER_CURRENT_MARKER@, ACTIVITY_HELPER_MARKER@, d) by {
        let x = ACTIVITY_HELPER_CURRENT_MARKER@;
        let y = ACTIVITY_HELPER_MARKER@;
        let idx = if x[d + 0] != y[0] { 0int } else { 1int };
        assert(x[d + idx] != y[idx]);
    }
}

/// The placing part of the helper step, applied to the (possibly upgraded)
/// text.
pub open spec fn helpers_placed(upgraded: Seq<char>) -> Seq<char> {
    let has_activity = contains(upgraded, ACTIVITY_HELPER_MARKER@);
    let has_color = contains(upgraded, COLOR_HELPER_MARKER@);
    if has_activity && has_color {
        upgraded
    } else if has_activity {
        replace_first(
            upgraded,
            ACTIVITY_HELPER_MARKER@,
            DISK_USAGE_STYLE_HELPER@ + "\n\n"@ + ACTIVITY_HELPER_MARKER@,
        )
    } else if contains(upgraded, REFRESH_FUNCTION_MARKER@) {
        replace_first(upgraded, REFRESH_FUNCTION_MARKER@, helper_pair() + "\n\n"@ + REFRESH_FUNCTION_MARKER@)
    } else {
        helper_pair() + "\n\n"@ + upgraded
    }
}

/// Placing the helpers keeps the current activity-helper form.
proof fn lemma_placed_keeps_current(u: Seq<char>)
    requires
        contains(u, ACTIVITY_HELPER_CURRENT_MARKER@),
    ensures
        contains(helpers_placed(u), ACTIVITY_HELPER_CURRENT_MARKER@),
{
    lemma_helper_texts_clash();
    let cur = ACTIVITY_HELPER_CURRENT_MARKER@;
    let am = ACTIVITY_HELPER_MARKER@;
    let sep = "\n\n"@;
    let pair = helper_pair();
    lemma_contains_parts(DISK_USAGE_STYLE_HELPER@ + sep, DISK_ACTIVITY_HELPER_BODY@);
    lemma_contains_trans(pair, DISK_ACTIVITY_HELPER_BODY@, cur);
    if contains(u, am) && !contains(u, COLOR_HELPER_MARKER@) {
        lemma_contains(u, cur);
        let p = choose|p: int| matches_at(u, cur, p);
        lemma_find_from(u, am, 0);
        lemma_match_survives(u, am, DISK_USAGE_STYLE_HELPER@ + sep + am, cur, p);
        let out = replace_first(u, am, DISK_USAGE_STYLE_HELPER@ + sep + am);
        lemma_contains_at(out, cur, if p < find(u, am)->0 { p } else { p + (DISK_USAGE_STYLE_HELPER@ + sep + am).len() - am.len() });
    } else if !contains(u, am) {
        if contains(u, REFRESH_FUNCTION_MARKER@) {
            let rep = pair + sep + REFRESH_FUNCTION_MARKER@;
            lemma_contains_parts(pair, sep);
            lemma_contains_parts(pair + sep, REFRESH_FUNCTION_MARKER@);
            lemma_contains_trans(rep, pair + sep, pair);
            lemma_replace_first_has_rep(u, REFRESH_FUNCTION_MARKER@, rep);
            lemma_contains_trans(replace_first(u, REFRESH_FUNCTION_MARKER@, rep), rep, pair);
            lemma_contains_trans(replace_first(u, REFRESH_FUNCTION_MARKER@, rep), pair, cur);
        } else {
            lemma_contains_parts(pair, sep);
            lemma_contains_parts(pair + sep, u);
            lemma_contains_trans(pair + sep + u, pair + sep, pair);
            lemma_contains_trans(pair + sep + u, pair, cur);
        }
    }
}

/// Placing the colour helper in front of the activity helper leaves the
/// activity helper's body where a failed upgrade found it: the upgrade fails
/// again.
proof fn lemma_placed_keeps_failed_upgrade(u: Seq<char>)
    requires
        contains(u, ACTIVITY_HELPER_MARKER@),
        js_function_replaced(u, ACTIVITY_HELPER_MARKER@, DISK_ACTIVITY_HELPER_BODY@) is None,
    ensures
        js_function_replaced(helpers_placed(u), ACTIVITY_HELPER_MARKER@, DISK_ACTIVITY_HELPER_BODY@) is None,
{
    lemma_helper_texts_clash();
    let am = ACTIVITY_HELPER_MARKER@;
    let sep = "\n\n"@;
    if !contains(u, COLOR_HELPER_MARKER@) {
        let x = DISK_USAGE_STYLE_HELPER@ + sep;
        let rep = x + am;
        lemma_find_from(u, am, 0);
        let i = find(u, am)->0;
        let out = replace_first(u, am, rep);
        assert(out =~= u.take(i) + rep + u.skip(i + am.len()));
        // The activity helper now starts right after the inserted colour helper.
        let i2 = i + x.len();
        assert(clash_from("\n\n"@, am, 0)) by {
            reveal_strlit("\n\n");
            assert forall|d: int| 0 <= d < "\n\n"@.len() implies #[trigger] clash_at("\n\n"@, am, d) by {
                assert("\n\n"@[d] != am[0]);
            }
        }
        lemma_clash_concat(DISK_USAGE_STYLE_HELPER@, sep, am);
        assert(clash_from(am, rep, 1)) by {
            assert forall|d: int| 1 <= d < am.len() implies #[trigger] clash_at(am, rep, d) by {
                assert(clash_at(am, DISK_USAGE_STYLE_HELPER@, d));
                let idx = choose|idx: int| 0 <= idx < DISK_USAGE_STYLE_HELPER@.len() && d + idx < am.len() && am[d + idx] != DISK_USAGE_STYLE_HELPER@[idx];
                assert(rep[idx] == DISK_USAGE_STYLE_HELPER@[idx]);
            }
        }
        assert(matches_at(out, rep, i)) by {
            assert(out.subrange(i, i + rep.len()) =~= rep);
        }
        assert(matches_at(out, x, i)) by {
            assert(out.subrange(i, i + x.len()) =~= x);
        }
        assert(matches_at(out, am, i2)) by {
            assert(out.subrange(i2, i2 + am.len()) =~= am);
        }
        assert forall|p: int| 0 <= p < i2 implies !#[trigger] matches_at(out, am, p) by {
            if p + am.len() <= i {
                assert(out.subrange(p, p + am.len()) =~= u.subrange(p, p + am.len()));
                assert(!matches_at(u, am, p));
            } else if p < i {
                if matches_at(out, am, p) {
                    lemma_no_overlap(out, am, rep, 1, p, i);
                }
            } else {
                lemma_no_overlap(out, x, am, 0, i, p);
            }
        }
        lemma_find_is(out, am, i2);
        // Both scans continue over the same suffix.
        let w = u.skip(i);
        assert(out.skip(i2) =~= w);
        lemma_find_from_skip(u, seq!['{'], i, 0);
        lemma_find_from_skip(out, seq!['{'], i2, 0);
        lemma_find_from(w, seq!['{'], 0);
        if let Some(f0) = find_from(w, seq!['{'], 0) {
            lemma_matching_close_skip(u, i, f0, 0, '{', '}');
            lemma_matching_close_skip(out, i2, f0, 0, '{', '}');
        }
    }
}

/// The helper step is idempotent: running it on its own output changes
/// nothing.
pub proof fn lemma_helpers_ensured_idempotent(content: Seq<char>)
    ensures
        helpers_ensured(helpers_ensured(content)) == helpers_ensured(content),
{
    lemma_helpers_ensured_defines_both(content);
    lemma_helper_texts_clash();
    lemma_helpers_carry_markers();
    let am = ACTIVITY_HELPER_MARKER@;
    let cur = ACTIVITY_HELPER_CURRENT_MARKER@;
    let body = DISK_ACTIVITY_HELPER_BODY@;
    let attempt = contains(content, am) && !contains(content, cur);
    let u = if attempt {
        match js_function_replaced(content, am, body) {
            Some(t) => t,
            None => content,
        }
    } else {
        content
    };
    let out = helpers_ensured(content);
    assert(out == helpers_placed(u));
    if !contains(out, cur) {
        if attempt && js_function_replaced(content, am, body) is None {
            lemma_placed_keeps_failed_upgrade(u);
        } else if attempt {
            // A successful upgrade writes the current body.
            let start = find(content, am)->0;
            let close = matching_close(content, find_from(content, seq!['{'], start)->0, '{', '}')->0;
            assert(u =~= content.take(start) + body + content.skip(close + 1));
            lemma_contains_parts(content.take(start) + body, content.skip(close + 1));
            lemma_contains_parts(content.take(start), body);
            lemma_contains_trans(u, content.take(start) + body, body);
            lemma_contains_trans(u, body, cur);
            lemma_placed_keeps_current(u);
        } else if contains(content, cur) {
            lemma_placed_keeps_current(u);
        } else {
            // No activity helper: the pair is placed, with the current body.
            lemma_contains_parts(DISK_USAGE_STYLE_HELPER@ + "\n\n"@, body);
            lemma_contains_trans(helper_pair(), body, cur);
            lemma_placed_keeps_current(helper_pair());
            assert(!contains(u, am));
            assert(contains(out, cur)) by {
                let sep = "\n\n"@;
                let pair = helper_pair();
                if contains(u, REFRESH_FUNCTION_MARKER@) {
                    let rep = pair + sep + REFRESH_FUNCTION_MARKER@;
                    lemma_contains_parts(pair, sep);
                    lemma_contains_parts(pair + sep, REFRESH_FUNCTION_MARKER@);
                    lemma_contains_trans(rep, pair + sep, pair);
                    lemma_replace_first_has_rep(u, REFRESH_FUNCTION_MARKER@, rep);
                    lemma_contains_trans(out, rep, pair);
                    lemma_contains_trans(out, pair, cur);
                } else {
                    lemma_contains_parts(pair, sep);
                    lemma_contains_parts(pair + sep, u);
                    lemma_contains_trans(out, pair + sep, pair);
                    lemma_contains_trans(out, pair, cur);
                }
            }
        }
    }
}

/// The literal facts the containers law rests on: the unit migration appends
/// the unit style line behind a block that ends with the unit text line,
/// and the texts it writes or keeps cannot overlap what must stay.
proof fn lemma_unit_migration_texts()
    ensures
        appends_extra(STYLE_DISK_UNIT_FROM@, STYLE_DISK_UNIT_TO@, UNIT_TEXT_LINE@, UNIT_STYLE_LINE@),
        clash_from(UNIT_STYLE_LINE@, STYLE_DISK_UNIT_FROM@, 0),
        clash_from(STYLE_DISK_UNIT_TO@, STYLE_DISK_SECONDARY_FROM@, 0),
        clash_from(STYLE_DISK_SECONDARY_FROM@, STYLE_DISK_UNIT_TO@, 1),
        clash_from(STYLE_DISK_UNIT_FROM@, DISK_CONTAINER_MARKER@, 0),
        clash_from(DISK_CONTAINER_MARKER@, STYLE_DISK_UNIT_FROM@, 1),
{
    reveal_strlit("        this._elementsUnit[filesystem].text = unit;\n");
    reveal_strlit("        this._elementsUnit[filesystem].style = style;\n");
    reveal_strlit(r#"        this._elementsValue[filesystem].text = value;
        this._elementsValue[filesystem].style = style;
        this._elementsUnit[filesystem].text = unit;"#);
    reveal_strlit(r#"        this._elementsValue[filesystem].text = value;
        this._elementsValue[filesystem].style = style;
        this._elementsUnit[filesystem].text = unit;
        this._elementsUnit[filesystem].style = style;"#);
    reveal_strlit(r#"    update_element_secondary_value(filesystem, value, unit) {
      if (this._elementsSecondaryValue[filesystem]) {
        this._elementsSecondaryValue[filesystem].text = value;
        this._elementsSecondaryUnit[filesystem].text = unit;
      }
    }"#);
    reveal_strlit("this._elementsSecondaryUnit[filesystem] = _createUnitLabel(\"%\", [");
    let f = STYLE_DISK_UNIT_FROM@;
    assert((f + seq!['\n']).subrange(f.len() + 1 - UNIT_TEXT_LINE@.len(), (f.len() + 1) as int) =~= UNIT_TEXT_LINE@);
    assert(STYLE_DISK_UNIT_TO@ =~= f + seq!['\n'] + UNIT_STYLE_LINE@.drop_last());
    assert forall|d: int| 0 <= d < UNIT_STYLE_LINE@.len() implies #[trigger] clash_at(UNIT_STYLE_LINE@, STYLE_DISK_UNIT_FROM@, d) by {
        let x = UNIT_STYLE_LINE@;
        let y = STYLE_DISK_UNIT_FROM@;
        let idx = if d == 0 { 22int } else if x[d + 0] != y[0] { 0int } else if x[d + 1] != y[1] { 1int } else if x[d + 2] != y[2] { 2int } else if x[d + 3] != y[3] { 3int } else if x[d + 4] != y[4] { 4int } else if x[d + 5] != y[5] { 5int } else if x[d + 6] != y[6] { 6int } else { 7int };
        assert(x[d + idx] != y[idx]);
    }
    assert forall|d: int| 0 <= d < STYLE_DISK_UNIT_TO@.len() implies #[trigger] clash_at(STYLE_DISK_UNIT_TO@, STYLE_DISK_SECONDARY_FROM@, d) by {
        let x = STYLE_DISK_UNIT_TO@;
        let y = STYLE_DISK_SECONDARY_FROM@;
        let idx = if x[d + 0] != y[0] { 0int } else if x[d + 1] != y[1] { 1int } else if x[d + 2] != y[2] { 2int } else if x[d + 3] != y[3] { 3int } else { 4int };
        assert(x[d + idx] != y[idx]);
    }
    assert forall|d: int| 1 <= d < STYLE_DISK_SECONDARY_FROM@.len() implies #[trigger] clash_at(STYLE_DISK_SECONDARY_FROM@, STYLE_DISK_UNIT_TO@, d) by {
        let x = STYLE_DISK_SECONDARY_FROM@;
        let y = STYLE_DISK_UNIT_TO@;
        let idx = if d == 116 { 22int } else if d == 179 { 22int } else if x[d + 0] != y[0] { 0int } else if x[d + 1] != y[1] { 1int } else if x[d + 2] != y[2] { 2int } else if x[d + 3] != y[3] { 3int } else if x[d + 4] != y[4] { 4int } else if x[d + 5] != y[5] { 5int } else if x[d + 6] != y[6] { 6int } else { 7int };
        assert(x[d + idx] != y[idx]);
    }
    assert forall|d: int| 0 <= d < STYLE_DISK_UNIT_FROM@.len() implies #[trigger] clash_at(STYLE_DISK_UNIT_FROM@, DISK_CONTAINER_MARKER@, d) by {
        let x = STYLE_DISK_UNIT_FROM@;
        let y = DISK_CONTAINER_MARKER@;
        let idx = if d == 8 { 14int } else if d == 62 { 14int } else if d == 117 { 14int } else if x[d + 0] != y[0] { 0int } else { 1int };
        assert(x[d + idx] != y[idx]);
    }
    assert forall|d: int| 1 <= d < DISK_CONTAINER_MARKER@.len() implies #[trigger] clash_at(DISK_CONTAINER_MARKER@, STYLE_DISK_UNIT_FROM@, d) by {
        let x = DISK_CONTAINER_MARKER@;
        let y = STYLE_DISK_UNIT_FROM@;
        let idx = if x[d + 0] != y[0] { 0int } else { 1int };
        assert(x[d + idx] != y[idx]);
    }
}

/// The containers patch leaves alone a normalised text that keeps the
/// current container marker, holds no pre-style secondary-value update, and
/// ends every unit-update block with a newline.
proof fn lemma_normalized_containers_are_fixed(n: Seq<char>)
    requires
        each_followed(n, UNIT_TEXT_LINE@, UNIT_STYLE_LINE@),
        no_repeat(n, UNIT_STYLE_LINE@),
        normalized_styles(n) == n,
        contains(n, DISK_CONTAINER_MARKER@),
        contains(n, SECONDARY_INIT_MARKER@) ==> !contains(n, STYLE_DISK_SECONDARY_FROM@),
        contains(n, SECONDARY_INIT_MARKER@) ==> ends_in_newline(n, STYLE_DISK_UNIT_FROM@),
    ensures
        disk_containers_patch(n) == Some(n),
{
    lemma_unit_lines_clash();
    lemma_unit_migration_texts();
    let f = STYLE_DISK_UNIT_FROM@;
    let g = STYLE_DISK_UNIT_TO@;
    let ms = container_migrations();
    assert(ms.drop_last() =~= seq![ms[0]]);
    assert(seq![ms[0]].drop_last() =~= Seq::<Migration>::empty());
    assert(migrate_all(n, Seq::<Migration>::empty()) == (n, false));
    assert(ms[0].from@ == f && ms[0].to@ == g && ms[0].all);
    assert(ms[0].required_marker == Some(SECONDARY_INIT_MARKER));
    assert(seq![ms[0]].last() == ms[0]);
    assert(ms.last() == ms[1]);
    if contains(n, SECONDARY_INIT_MARKER@) && contains(n, f) {
        let m = replace_all(n, f, g);
        lemma_contains(n, STYLE_DISK_SECONDARY_FROM@);
        lemma_replace_all_keeps_out(n, f, g, STYLE_DISK_SECONDARY_FROM@, 0);
        lemma_contains(m, STYLE_DISK_SECONDARY_FROM@);
        lemma_contains(n, DISK_CONTAINER_MARKER@);
        let p = choose|p: int| matches_at(n, DISK_CONTAINER_MARKER@, p);
        lemma_find_from(n, DISK_CONTAINER_MARKER@, 0);
        lemma_replace_all_keeps(n, f, g, DISK_CONTAINER_MARKER@, 0, p);
        assert(migration_step(n, ms[0]) == Some(m));
        assert(migrate_all(n, seq![ms[0]]) == (m, true));
        assert(migration_step(m, ms[1]) is None);
        assert(migrate_all(n, ms) == (m, true));
        lemma_migration_settles(n, UNIT_TEXT_LINE@, UNIT_STYLE_LINE@, f, g);
    } else {
        assert(migration_step(n, ms[0]) is None);
        assert(migrate_all(n, seq![ms[0]]) == (n, false));
        assert(migration_step(n, ms[1]) is None);
        assert(migrate_all(n, ms) == (n, false));
    }
}

/// The current container carries its marker, and the marker holds no
/// newline and is longer than the unit style line.
proof fn lemma_container_marker_texts()
    ensures
        matches_at(FIXED_DISK_CONTAINER@, DISK_CONTAINER_MARKER@, 642),
        newline_free(DISK_CONTAINER_MARKER@),
        DISK_CONTAINER_MARKER@.len() >= UNIT_STYLE_LINE@.len(),
        DISK_CONTAINER_MARKER@.len() >= UNIT_TEXT_LINE@.len(),
        UNIT_TEXT_LINE@[UNIT_TEXT_LINE@.len() - 1] == '\n',
        UNIT_STYLE_LINE@[UNIT_STYLE_LINE@.len() - 1] == '\n',
{
    reveal_strlit(r#"export const DiskContainerSpace = GObject.registerClass(
  class DiskContainerSpace extends DiskContainer {
    _init() {
      super._init();

      this._elementsSecondaryValue = [];
      this._elementsSecondaryUnit = [];
    }

    add_element(filesystem, label) {
      this._elementsPath.push(filesystem);

      this._elementsName[filesystem] = _createNameLabel(label);

      this._elementsValue[filesystem] = _createValueLabel("--");

      this._elementsUnit[filesystem] = _createUnitLabel("KB");

      this._elementsSecondaryValue[filesystem] = _createValueLabel("", [
        "resource-monitor-secondary-value",
      ]);

      this._elementsSecondaryUnit[filesystem] = _createUnitLabel("%", [
        "resource-monitor-secondary-unit",
      ]);

      const spaceSep = new St.Label({ text: "  " });

      this.add_child(this._elementsName[filesystem]);
      this.add_child(this._elementsValue[filesystem]);
      this.add_child(this._elementsUnit[filesystem]);
      this.add_child(spaceSep);
      this.add_child(this._elementsSecondaryValue[filesystem]);
      this.add_child(this._elementsSecondaryUnit[filesystem]);
    }

    cleanup_elements() {
      super.cleanup_elements();

      this._elementsSecondaryValue = [];
      this._elementsSecondaryUnit = [];
    }

    update_element_value(filesystem, value, unit, style = "") {
      if (this._elementsValue[filesystem]) {
        this._elementsValue[filesystem].text = value;
        this._elementsValue[filesystem].style = style;
        this._elementsUnit[filesystem].text = unit;
        this._elementsUnit[filesystem].style = style;
      }
    }

    update_element_secondary_value(filesystem, value, unit, style = "") {
      if (this._elementsSecondaryValue[filesystem]) {
        this._elementsSecondaryValue[filesystem].text = value;
        this._elementsSecondaryValue[filesystem].style = style;
        this._elementsSecondaryUnit[filesystem].text = unit;
        this._elementsSecondaryUnit[filesystem].style = style;
      }
    }
  }
);"#);
    reveal_strlit("this._elementsSecondaryUnit[filesystem] = _createUnitLabel(\"%\", [");
    reveal_strlit("        this._elementsUnit[filesystem].text = unit;\n");
    reveal_strlit("        this._elementsUnit[filesystem].style = style;\n");
    assert(FIXED_DISK_CONTAINER@.subrange(642, 707) =~= DISK_CONTAINER_MARKER@);
}

/// The containers patch keeps the current container marker in its output:
/// the text it normalises carries the marker (kept, migrated around, or
/// brought in with the current container), and normalisation only inserts
/// and removes whole unit-style lines, which cannot cut into the marker.
proof fn lemma_containers_keep_marker(content: Seq<char>)
    requires
        disk_containers_patch(content) is Some,
    ensures
        contains(disk_containers_patch(content)->0, DISK_CONTAINER_MARKER@),
{
    lemma_container_marker_texts();
    lemma_unit_lines_clash();
    let ms = container_migrations();
    let (migrated, did) = migrate_all(content, ms);
    let base = if did { migrated } else { content };
    let t0 = (known_snippet_with_migration(
        content,
        container_snippets(),
        FIXED_DISK_CONTAINER@,
        DISK_CONTAINER_MARKER@,
        ms,
    )->0).0;
    if !contains(base, DISK_CONTAINER_MARKER@) {
        let snippets = container_snippets();
        let i = first_present(base, snippets)->0;
        lemma_first_present_from(base, snippets, 0);
        lemma_replace_first_has_rep(base, snippets[i], FIXED_DISK_CONTAINER@);
        let at = find(base, snippets[i])->0;
        lemma_matches_within(t0, FIXED_DISK_CONTAINER@, DISK_CONTAINER_MARKER@, at, 642);
        lemma_contains_at(t0, DISK_CONTAINER_MARKER@, at + 642);
    }
    assert(contains(t0, DISK_CONTAINER_MARKER@));
    crate::text::lemma_contains(t0, DISK_CONTAINER_MARKER@);
    let p = choose|p: int| matches_at(t0, DISK_CONTAINER_MARKER@, p);
    lemma_insert_keeps(t0, UNIT_TEXT_LINE@, UNIT_STYLE_LINE@, DISK_CONTAINER_MARKER@, 0, p);
    let y = insert_after_each_from(t0, UNIT_TEXT_LINE@, UNIT_STYLE_LINE@, 0);
    crate::text::lemma_contains(y, DISK_CONTAINER_MARKER@);
    let q = choose|q: int| matches_at(y, DISK_CONTAINER_MARKER@, q);
    lemma_collapse_keeps(y, UNIT_STYLE_LINE@, DISK_CONTAINER_MARKER@, 0, q);
}

/// Re-running the containers patch on its own output changes nothing,
/// unless that output carries the secondary-value initialiser (which arms
/// the in-place migrations) together with a pre-style secondary-value
/// update (migrated one per run) or a unit update not followed by a newline
/// (which gains a style line that cannot be collapsed). A second run
/// rewrites each unit update again and so doubles its unit style line; the
/// style normalisation collapses the double back.
pub proof fn lemma_containers_patch_idempotent(content: Seq<char>)
    requires
        disk_containers_patch(content) is Some,
        contains(disk_containers_patch(content)->0, SECONDARY_INIT_MARKER@) ==> !contains(
            disk_containers_patch(content)->0,
            STYLE_DISK_SECONDARY_FROM@,
        ),
        contains(disk_containers_patch(content)->0, SECONDARY_INIT_MARKER@) ==> ends_in_newline(
            disk_containers_patch(content)->0,
            STYLE_DISK_UNIT_FROM@,
        ),
    ensures
        disk_containers_patch(disk_containers_patch(content)->0) == disk_containers_patch(content),
{
    lemma_unit_lines_clash();
    let t0 = (known_snippet_with_migration(
        content,
        container_snippets(),
        FIXED_DISK_CONTAINER@,
        DISK_CONTAINER_MARKER@,
        container_migrations(),
    )->0).0;
    let n = disk_containers_patch(content)->0;
    assert(n == normalized_styles(t0));
    let y = insert_after_each_from(t0, UNIT_TEXT_LINE@, UNIT_STYLE_LINE@, 0);
    lemma_insert_followed(t0, UNIT_TEXT_LINE@, UNIT_STYLE_LINE@, 0);
    lemma_collapse_settles(y, UNIT_TEXT_LINE@, UNIT_STYLE_LINE@, 0);
    lemma_normalized_styles_idempotent(t0);
    lemma_containers_keep_marker(content);
    lemma_normalized_containers_are_fixed(n);
}

/// An already-patched `refreshers.js` is left alone: when the text carries
/// the disk-space update marker, the row key, the styled activity value and
/// both current helpers, and none of the older forms that the in-place
/// migrations rewrite, the refreshers patch keeps it as it is.
pub proof fn lemma_patched_refreshers_are_fixed(content: Seq<char>)
    requires
        contains(content, REFRESH_UPDATE_MARKER@),
        !contains(content, PRIMARY_STYLE_GENERIC@),
        !contains(content, GRADIENT_MUDDY@),
        !contains(content, UPSTREAM_DISPLAY_BLOCK@ + REFRESH_UPDATE_MARKER@),
        !contains(content, MONITOR_USED@),
        !contains(content, UNIT_TYPE_PERC@),
        !contains(content, UNIT_MEASURE_SETTING@),
        !contains(content, PRIMARY_STYLE_DIRECT@),
        contains(content, ACTIVITY_STYLE_MARKER@),
        contains(content, DISK_ROW_KEY_MARKER@),
        contains(content, FIXED_DISK_REFRESH_RESULT@) || !contains(content, ORIGINAL_DISK_REFRESH_RESULT@),
        contains(content, ACTIVITY_HELPER_MARKER@),
        contains(content, ACTIVITY_HELPER_CURRENT_MARKER@),
        contains(content, COLOR_HELPER_MARKER@),
    ensures
        refreshers_patch(content) == Some(content),
{
    lemma_first_present_from(content, seq![ORIGINAL_DISK_REFRESH_RESULT@], 0);
    assert(seq![ORIGINAL_DISK_REFRESH_RESULT@][0] == ORIGINAL_DISK_REFRESH_RESULT@);
}

// ── Progress lines ───────────────────────────────────────────────────────────

pub const NOTE_HELPER_UPGRADED: &'static str = "Upgraded refreshers.js disk activity helper (LVM/mapper diskstats)";
pub const NOTE_COLOR_HELPER: &'static str = "Patched refreshers.js disk usage color helper";
pub const NOTE_HELPERS_INJECTED: &'static str = "Patched refreshers.js disk activity helper";
pub const NOTE_HELPERS_PREPENDED: &'static str = "Prepended refreshers.js disk activity helper";
pub const NOTE_USAGE_STYLE: &'static str = "Migrated refreshers.js disk usage color style";
pub const NOTE_USAGE_GRADIENT: &'static str = "Migrated refreshers.js disk usage color gradient";
pub const NOTE_STALE_BLOCK: &'static str = "Removed stale refreshers.js disk space display block";
pub const NOTE_FREE_GB: &'static str = "Migrated refreshers.js disk primary display to free GB";
pub const NOTE_ACTIVITY_STYLE: &'static str = "Migrated refreshers.js disk activity color style";

/// `seq![note]` when `b`, else nothing.
pub open spec fn note_if(b: bool, note: Seq<char>) -> Seq<Seq<char>> {
    if b {
        seq![note]
    } else {
        Seq::empty()
    }
}

/// The progress lines of the helper step, in order.
pub open spec fn helper_notes(content: Seq<char>) -> Seq<Seq<char>> {
    let stale = contains(content, ACTIVITY_HELPER_MARKER@) && !contains(content, ACTIVITY_HELPER_CURRENT_MARKER@);
    let replaced = js_function_replaced(content, ACTIVITY_HELPER_MARKER@, DISK_ACTIVITY_HELPER_BODY@);
    let upgraded = if stale && replaced is Some {
        replaced->0
    } else {
        content
    };
    let has_activity = contains(upgraded, ACTIVITY_HELPER_MARKER@);
    let has_color = contains(upgraded, COLOR_HELPER_MARKER@);
    note_if(stale && replaced is Some, NOTE_HELPER_UPGRADED@) + if has_activity && has_color {
        Seq::empty()
    } else if has_activity {
        seq![NOTE_COLOR_HELPER@]
    } else if contains(upgraded, REFRESH_FUNCTION_MARKER@) {
        seq![NOTE_HELPERS_INJECTED@]
    } else {
        seq![NOTE_HELPERS_PREPENDED@]
    }
}

/// The progress lines of [`apply_refreshers_migrations`], in order.
pub open spec fn migration_notes(t: Seq<char>) -> Seq<Seq<char>> {
    let t1 = replace_first(t, PRIMARY_STYLE_GENERIC@, PRIMARY_STYLE_DIRECT@);
    let t2 = replace_first(t1, GRADIENT_MUDDY@, GRADIENT_BRIGHT@);
    let t3 = stale_display_removed(t2);
    let t4 = primary_free_gb(t3);
    let t5 = activity_styled(t4);
    let t6 = known_snippet_optional(
        t5,
        seq![ORIGINAL_DISK_REFRESH_RESULT@],
        FIXED_DISK_REFRESH_RESULT@,
        DISK_ROW_KEY_MARKER@,
    );
    note_if(contains(t, PRIMARY_STYLE_GENERIC@), NOTE_USAGE_STYLE@) + note_if(
        contains(t1, GRADIENT_MUDDY@),
        NOTE_USAGE_GRADIENT@,
    ) + note_if(t3 != t2, NOTE_STALE_BLOCK@) + note_if(t4 != t3, NOTE_FREE_GB@) + note_if(
        t5 != t4,
        NOTE_ACTIVITY_STYLE@,
    ) + helper_notes(t6)
}

/// The progress lines [`patch_refreshers`] reports, in order.
pub open spec fn refreshers_notes(content: Seq<char>) -> Seq<Seq<char>> {
    match known_snippet_or_patterns(
        content,
        refresh_snippets(),
        refresh_patterns(),
        FIXED_REFRESH_UPDATE@,
        REFRESH_UPDATE_MARKER@,
    ) {
        Some((t, _)) => migration_notes(t),
        None => Seq::empty(),
    }
}

/// Pushes `note` when `b`.
fn push_note_if(notes: &mut Vec<&'static str>, b: bool, note: &'static str)
    ensures
        strs_view(final(notes)@) == strs_view(old(notes)@) + note_if(b, note@),
{
    if b {
        notes.push(note);
    }
    assert(strs_view(notes@) =~= strs_view(old(notes)@) + note_if(b, note@));
}

/// The progress lines of the helper step on characters.
fn helper_progress(c: &[char]) -> (r: Vec<&'static str>)
    ensures
        strs_view(r@) == helper_notes(c@),
{
    let mut notes: Vec<&'static str> = Vec::new();
    let stale = contains_str(c, ACTIVITY_HELPER_MARKER) && !contains_str(c, ACTIVITY_HELPER_CURRENT_MARKER);
    let replaced = replace_js_function(c, ACTIVITY_HELPER_MARKER, DISK_ACTIVITY_HELPER_BODY);
    let upgrade = stale && replaced.is_some();
    push_note_if(&mut notes, upgrade, NOTE_HELPER_UPGRADED);
    let upgraded = match replaced {
        Some(v) => if stale {
            v
        } else {
            copy_chars(c)
        },
        None => copy_chars(c),
    };
    let has_activity = contains_str(upgraded.as_slice(), ACTIVITY_HELPER_MARKER);
    let has_color = contains_str(upgraded.as_slice(), COLOR_HELPER_MARKER);
    if has_activity && has_color {
    } else if has_activity {
        notes.push(NOTE_COLOR_HELPER);
    } else if contains_str(upgraded.as_slice(), REFRESH_FUNCTION_MARKER) {
        notes.push(NOTE_HELPERS_INJECTED);
    } else {
        notes.push(NOTE_HELPERS_PREPENDED);
    }
    assert(strs_view(notes@) =~= helper_notes(c@));
    notes
}

/// A copy of `c`.
fn copy_chars(c: &[char]) -> (r: Vec<char>)
    ensures
        r@ == c@,
{
    let mut v: Vec<char> = Vec::new();
    push_all(&mut v, c);
    assert(v@ =~= c@);
    v
}

/// The progress lines [`apply_refreshers_migrations`] reports for `patched`:
/// which migrations ran and how the helpers were put in place.
pub fn migrations_progress(patched: &str) -> (r: Vec<&'static str>)
    ensures
        strs_view(r@) == migration_notes(patched@),
{
    let c = str_chars(patched);
    let mut notes: Vec<&'static str> = Vec::new();
    push_note_if(&mut notes, contains_str(c.as_slice(), PRIMARY_STYLE_GENERIC), NOTE_USAGE_STYLE);
    let t1 = replace_if_present(c.as_slice(), PRIMARY_STYLE_GENERIC, PRIMARY_STYLE_DIRECT);
    push_note_if(&mut notes, contains_str(t1.as_slice(), GRADIENT_MUDDY), NOTE_USAGE_GRADIENT);
    let t2 = replace_if_present(t1.as_slice(), GRADIENT_MUDDY, GRADIENT_BRIGHT);
    let t3 = stale_display_removed_chars(t2.as_slice());
    push_note_if(&mut notes, !chars_eq(t3.as_slice(), t2.as_slice()), NOTE_STALE_BLOCK);
    let t4 = primary_free_gb_chars(t3.as_slice());
    push_note_if(&mut notes, !chars_eq(t4.as_slice(), t3.as_slice()), NOTE_FREE_GB);
    let t5 = activity_styled_chars(t4.as_slice());
    push_note_if(&mut notes, !chars_eq(t5.as_slice(), t4.as_slice()), NOTE_ACTIVITY_STYLE);
    let t5s = chars_string(t5.as_slice());
    let row_snippets: [&str; 1] = [ORIGINAL_DISK_REFRESH_RESULT];
    assert(strs_view(row_snippets@) =~= seq![ORIGINAL_DISK_REFRESH_RESULT@]);
    let t6 = replace_known_snippet_optional(
        t5s.as_str(),
        &row_snippets,
        FIXED_DISK_REFRESH_RESULT,
        DISK_ROW_KEY_MARKER,
        "refreshers.js disk space row key",
    );
    let t6c = str_chars(t6.as_str());
    let ghost first = strs_view(notes@);
    let helper = helper_progress(t6c.as_slice());
    let mut k: usize = 0;
    while k < helper.len()
        invariant
            k <= helper.len(),
            strs_view(notes@) == first + strs_view(helper@.take(k as int)),
        decreases helper.len() - k,
    {
        let ghost before = strs_view(notes@);
        notes.push(helper[k]);
        assert(strs_view(helper@.take(k + 1)) =~= strs_view(helper@.take(k as int)).push(helper@[k as int]@));
        assert(strs_view(notes@) =~= before.push(helper@[k as int]@));
        k += 1;
    }
    assert(helper@.take(k as int) =~= helper@);
    assert(strs_view(notes@) =~= migration_notes(patched@));
    notes
}

/// The progress lines [`patch_refreshers`] reports for `content`; none when
/// no target is found.
pub fn refreshers_progress(content: &str) -> (r: Vec<&'static str>)
    ensures
        strs_view(r@) == refreshers_notes(content@),
{
    let current = concat_str(UPSTREAM_DISPLAY_BLOCK, CURRENT_UPSTREAM_UPDATE);
    let legacy = concat_str(UPSTREAM_DISPLAY_BLOCK, ORIGINAL_REFRESH_UPDATE);
    let current_pattern = regex_escape(current.as_str());
    let legacy_pattern = regex_escape(legacy.as_str());
    let patterns: [&str; 2] = [current_pattern.as_str(), legacy_pattern.as_str()];
    let snippets: [&str; 6] = [
        ORIGINAL_REFRESH_UPDATE,
        BROKEN_PATCHED_REFRESH_UPDATE,
        SPACE_USED_PATCHED_REFRESH_UPDATE,
        ACTIVITY_PERCENT_FREE_GB_REFRESH_UPDATE,
        FREE_GB_PRIMARY_ACTIVITY_REFRESH_UPDATE,
        USED_GB_ACTIVITY_REFRESH_UPDATE,
    ];
    assert(strs_view(patterns@) =~= refresh_patterns());
    assert(strs_view(snippets@) =~= refresh_snippets());
    let result = replace_known_snippet_or_patterns(
        content,
        &snippets,
        &patterns,
        FIXED_REFRESH_UPDATE,
        REFRESH_UPDATE_MARKER,
        "refreshers.js disk space update",
    );
    match result {
        Ok((patched, _status)) => migrations_progress(patched.as_str()),
        Err(_) => {
            let v: Vec<&'static str> = Vec::new();
            assert(strs_view(v@) =~= Seq::<Seq<char>>::empty());
            v
        },
    }
}

} // verus!
