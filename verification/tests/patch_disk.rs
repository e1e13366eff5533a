use rm_monitor::patch_disk::{
    disk_patch_plan, refreshers_progress, MESSAGE_DISK_ALREADY, MESSAGE_DISK_PATCHED,
    apply_refreshers_migrations, ensure_disk_activity_helper, migrate_disk_activity_style,
    migrate_disk_space_primary_to_free_gb, migrate_disk_usage_style,
    migrate_disk_usage_style_gradient, normalize_disk_container_styles, patch_containers,
    patch_extension, patch_refreshers, remove_stale_disk_space_display_block,
    ACTIVITY_HELPER_CURRENT_MARKER, ACTIVITY_HELPER_MARKER, ACTIVITY_LINE, SECONDARY_CALL,
    ACTIVITY_PERCENT_FREE_GB_REFRESH_UPDATE, BROKEN_PATCHED_DISK_CONTAINER,
    BROKEN_PATCHED_REFRESH_UPDATE, COLOR_HELPER_MARKER, CURRENT_UPSTREAM_UPDATE,
    DISK_ACTIVITY_HELPER_BODY, DISK_CONTAINER_MARKER, DISK_USAGE_STYLE_HELPER,
    EXTENSION_DISK_KEY_MARKER, FREE_GB_PRIMARY_ACTIVITY_REFRESH_UPDATE, ORIGINAL_DISK_CONTAINER,
    ORIGINAL_DISK_REFRESH_RESULT, ORIGINAL_EXTENSION_DISK_LIST, ORIGINAL_REFRESH_UPDATE,
    REFRESH_FUNCTION_MARKER, REFRESH_UPDATE_MARKER, SPACE_USED_PATCHED_REFRESH_UPDATE,
    UNIT_STYLE_LINE, UNIT_TEXT_LINE, UPSTREAM_DISPLAY_BLOCK, USED_GB_ACTIVITY_REFRESH_UPDATE,
    ACTIVITY_STYLE_MARKER, DISK_ROW_KEY_MARKER, GRADIENT_MUDDY, MONITOR_USED, PRIMARY_STYLE_DIRECT,
    PRIMARY_STYLE_GENERIC, UNIT_MEASURE_SETTING, UNIT_TYPE_PERC, STYLE_DISK_SECONDARY_FROM,
    STYLE_DISK_UNIT_FROM,
};

// ── containers.js ────────────────────────────────────────────────────────

#[test]
fn containers_upstream_gb_variant_is_rewritten() {
    let patched = patch_containers(ORIGINAL_DISK_CONTAINER).expect("patch");
    assert!(patched.contains("update_element_secondary_value(filesystem, value, unit, style = \"\")"));
    assert!(patched.contains("cleanup_elements()"));
    assert!(patched.contains(DISK_CONTAINER_MARKER));
}

#[test]
fn containers_upstream_kb_variant_is_rewritten() {
    let kb = ORIGINAL_DISK_CONTAINER.replacen(
        r#"_createUnitLabel("GB")"#,
        r#"_createUnitLabel("KB")"#,
        1,
    );
    let patched = patch_containers(&kb).expect("patch");
    assert!(patched.contains(DISK_CONTAINER_MARKER));
}

#[test]
fn containers_patch_is_idempotent() {
    let once = patch_containers(ORIGINAL_DISK_CONTAINER).expect("first");
    let twice = patch_containers(&once).expect("second");
    assert_eq!(once, twice);
}

#[test]
fn containers_output_meets_the_rerun_conditions() {
    for source in [ORIGINAL_DISK_CONTAINER.to_string(), BROKEN_PATCHED_DISK_CONTAINER.to_string()] {
        let once = patch_containers(&source).expect("first");
        assert!(once.contains(DISK_CONTAINER_MARKER));
        assert!(!once.contains(STYLE_DISK_SECONDARY_FROM));
        for (at, _) in once.match_indices(STYLE_DISK_UNIT_FROM) {
            assert_eq!(once[at + STYLE_DISK_UNIT_FROM.len()..].chars().next(), Some('\n'));
        }
        assert_eq!(patch_containers(&once).expect("second"), once);
    }
}

#[test]
fn containers_missing_target_fails_fast() {
    assert!(patch_containers("// unrelated").is_err());
}

#[test]
fn containers_missing_target_names_the_class() {
    let err = patch_containers("// unrelated").unwrap_err();
    assert_eq!(err.message(), "Could not find target code in DiskContainerSpace");
}

#[test]
fn broken_patched_container_migrates_to_fixed_form() {
    let patched = patch_containers(BROKEN_PATCHED_DISK_CONTAINER).expect("patch");
    assert!(patched.contains(DISK_CONTAINER_MARKER));
    assert!(patched.contains("cleanup_elements()"));
    assert!(patched.contains(r#"_createUnitLabel("%""#));
    assert!(!patched.contains(
        "this._elementsSecondaryUnit[filesystem] = _createUnitLabel(\"GB\""
    ));
}

#[test]
fn unit_styles_are_inserted_once_and_deduplicated() {
    let missing = format!("x\n{UNIT_TEXT_LINE}y\n");
    let normalized = normalize_disk_container_styles(&missing);
    assert_eq!(normalized, format!("x\n{UNIT_TEXT_LINE}{UNIT_STYLE_LINE}y\n"));

    let duplicated = format!("x\n{UNIT_TEXT_LINE}{UNIT_STYLE_LINE}{UNIT_STYLE_LINE}y\n");
    assert_eq!(
        normalize_disk_container_styles(&duplicated),
        format!("x\n{UNIT_TEXT_LINE}{UNIT_STYLE_LINE}y\n")
    );
}

#[test]
fn unit_style_runs_collapse_even_without_a_text_line() {
    let tripled = format!("{UNIT_STYLE_LINE}{UNIT_STYLE_LINE}{UNIT_STYLE_LINE}z");
    assert_eq!(normalize_disk_container_styles(&tripled), format!("{UNIT_STYLE_LINE}z"));
    assert_eq!(normalize_disk_container_styles("plain"), "plain");
}

#[test]
fn unit_style_normalisation_settles_in_one_pass() {
    let messy = format!(
        "{UNIT_STYLE_LINE}{UNIT_STYLE_LINE}a\n{UNIT_TEXT_LINE}{UNIT_TEXT_LINE}{UNIT_STYLE_LINE}{UNIT_STYLE_LINE}b\n{UNIT_TEXT_LINE}"
    );
    let once = normalize_disk_container_styles(&messy);
    assert_eq!(
        once,
        format!(
            "{UNIT_STYLE_LINE}a\n{UNIT_TEXT_LINE}{UNIT_STYLE_LINE}{UNIT_TEXT_LINE}{UNIT_STYLE_LINE}b\n{UNIT_TEXT_LINE}{UNIT_STYLE_LINE}"
        )
    );
    assert_eq!(normalize_disk_container_styles(&once), once);
}

// ── refreshers.js ────────────────────────────────────────────────────────

fn upstream_refreshers() -> String {
    format!(
        "{REFRESH_FUNCTION_MARKER}\n{UPSTREAM_DISPLAY_BLOCK}{CURRENT_UPSTREAM_UPDATE}\n}}\n\n\
         {ORIGINAL_DISK_REFRESH_RESULT}\n"
    )
}

#[test]
fn refreshers_current_upstream_form_is_patched() {
    let patched = patch_refreshers(&upstream_refreshers()).expect("patch");
    assert!(patched.contains(REFRESH_UPDATE_MARKER));
    assert!(patched.contains("const activityStyle = getDiskUsagePercentStyle(activityPercent);"));
    assert!(patched.contains(ACTIVITY_HELPER_MARKER));
    assert!(patched.contains(COLOR_HELPER_MARKER));
    assert!(patched.contains("devicePath: device.device,"));
    assert!(patched
        .contains(r#"`${indicator._getValueFixed(diskSpaceUsageDisplay.value, "diskSpace")}`"#));
    assert!(!patched.contains("monitor: indicator._diskSpaceMonitor,"));
}

#[test]
fn refreshers_legacy_upstream_form_is_patched() {
    let legacy = format!(
        "{REFRESH_FUNCTION_MARKER}\n{UPSTREAM_DISPLAY_BLOCK}{ORIGINAL_REFRESH_UPDATE}\n}}\n"
    );
    let patched = patch_refreshers(&legacy).expect("patch");
    assert!(patched.contains(REFRESH_UPDATE_MARKER));
    assert!(!patched.contains("monitor: indicator._diskSpaceMonitor,"));
}

#[test]
fn refreshers_patch_is_idempotent() {
    let once = patch_refreshers(&upstream_refreshers()).expect("first");
    let twice = patch_refreshers(&once).expect("second");
    assert_eq!(once, twice);
}

#[test]
fn refreshers_output_is_in_the_settled_form() {
    let once = patch_refreshers(&upstream_refreshers()).expect("first");
    for present in [
        REFRESH_UPDATE_MARKER,
        ACTIVITY_STYLE_MARKER,
        DISK_ROW_KEY_MARKER,
        ACTIVITY_HELPER_MARKER,
        ACTIVITY_HELPER_CURRENT_MARKER,
        COLOR_HELPER_MARKER,
    ] {
        assert!(once.contains(present), "missing {present}");
    }
    let stale_display = format!("{UPSTREAM_DISPLAY_BLOCK}{REFRESH_UPDATE_MARKER}");
    for absent in [
        PRIMARY_STYLE_GENERIC,
        GRADIENT_MUDDY,
        stale_display.as_str(),
        MONITOR_USED,
        UNIT_TYPE_PERC,
        UNIT_MEASURE_SETTING,
        PRIMARY_STYLE_DIRECT,
    ] {
        assert!(!once.contains(absent), "left {absent}");
    }
}

#[test]
fn refreshers_older_patched_forms_converge() {
    for older in [
        BROKEN_PATCHED_REFRESH_UPDATE,
        SPACE_USED_PATCHED_REFRESH_UPDATE,
        ACTIVITY_PERCENT_FREE_GB_REFRESH_UPDATE,
        FREE_GB_PRIMARY_ACTIVITY_REFRESH_UPDATE,
        USED_GB_ACTIVITY_REFRESH_UPDATE,
    ] {
        let source = format!("{REFRESH_FUNCTION_MARKER}\n{older}\n}}\n");
        let patched = patch_refreshers(&source).expect("patch older form");
        assert!(patched.contains(REFRESH_UPDATE_MARKER), "older form was not migrated");
        assert!(patched.contains(ACTIVITY_HELPER_MARKER));
    }
}

#[test]
fn refreshers_missing_target_fails_fast() {
    assert!(patch_refreshers("// unrelated").is_err());
}

#[test]
fn muddy_gradient_is_brightened() {
    let muddy = "function getDiskUsagePercentStyle(value) {\n  const ratio = Math.max(0, Math.min(1, value / 100));\n  const red = Math.round(255 * ratio);\n  const green = Math.round(255 * (1 - ratio));\n}";
    let migrated = migrate_disk_usage_style_gradient(muddy);
    assert!(migrated.contains("ratio <= 0.5 ? Math.round(510 * ratio) : 255"));
    assert_eq!(migrate_disk_usage_style_gradient(&migrated), migrated);
}

#[test]
fn colour_helper_alone_is_injected_next_to_the_activity_helper() {
    let source = format!("{DISK_ACTIVITY_HELPER_BODY}\n");
    let patched = ensure_disk_activity_helper(&source);
    assert!(patched.contains(COLOR_HELPER_MARKER));
    assert!(patched.find(COLOR_HELPER_MARKER) < patched.find(ACTIVITY_HELPER_MARKER));
}

#[test]
fn stale_activity_helper_is_upgraded_with_lvm_mapper_resolution() {
    let legacy = DISK_ACTIVITY_HELPER_BODY.replacen(
        r#"    const diskName = filesystem.replace(/^\/dev\//, "");
    const names = [diskName];
    // LVM/mapper paths show as /dev/mapper/foo while diskstats uses dm-N.
    try {
      const linkTarget = GLib.file_read_link(filesystem);
      if (linkTarget) {
        const base = String(linkTarget).replace(/^.*\//, "");
        if (base && !names.includes(base)) {
          names.push(base);
        }
      }
    } catch (_linkError) {
      // Not a symlink — keep the basename match only.
    }

    const diskStatsLine = new TextDecoder()
      .decode(diskStatsContents)
      .split("\n")
      .map((line) => line.trim().split(/\s+/))
      .find((fields) => fields.length >= 13 && names.includes(fields[2]));"#,
        r#"    const diskName = filesystem.replace(/^\/dev\//, "");
    const diskStatsLine = new TextDecoder()
      .decode(diskStatsContents)
      .split("\n")
      .map((line) => line.trim().split(/\s+/))
      .find((fields) => fields.length >= 13 && fields[2] === diskName);"#,
        1,
    );
    assert!(!legacy.contains(ACTIVITY_HELPER_CURRENT_MARKER));
    let source = format!("{DISK_USAGE_STYLE_HELPER}\n\n{legacy}\n");
    let patched = ensure_disk_activity_helper(&source);
    assert!(patched.contains(ACTIVITY_HELPER_CURRENT_MARKER));
    assert!(patched.contains("names.includes(fields[2])"));
    let twice = ensure_disk_activity_helper(&patched);
    assert_eq!(patched, twice);
}

#[test]
fn helpers_are_prepended_when_no_anchor_exists() {
    let patched = ensure_disk_activity_helper("// nothing here\n");
    assert!(patched.starts_with(COLOR_HELPER_MARKER));
    assert!(patched.ends_with("// nothing here\n"));
}

#[test]
fn helpers_are_injected_before_the_refresh_function() {
    let source = format!("head\n{REFRESH_FUNCTION_MARKER}\n}}\n");
    let patched = ensure_disk_activity_helper(&source);
    assert_eq!(
        patched,
        format!(
            "head\n{DISK_USAGE_STYLE_HELPER}\n\n{DISK_ACTIVITY_HELPER_BODY}\n\n{REFRESH_FUNCTION_MARKER}\n}}\n"
        )
    );
}

#[test]
fn unbalanced_stale_helper_is_left_in_place() {
    let source = format!("{COLOR_HELPER_MARKER} {{}}\n{ACTIVITY_HELPER_MARKER} {{ never closed");
    assert_eq!(ensure_disk_activity_helper(&source), source);
}

#[test]
fn primary_style_moves_to_the_dedicated_helper() {
    let generic = "          const primaryStyle = indicator._getUsageColor(diskSpaceUsageDisplay.value, indicator._diskSpaceColors);";
    assert_eq!(
        migrate_disk_usage_style(generic),
        "          const primaryStyle = getDiskUsagePercentStyle(diskSpaceUsageDisplay.value);"
    );
    assert_eq!(migrate_disk_usage_style("unrelated"), "unrelated");
}

#[test]
fn primary_display_moves_to_free_gigabytes() {
    let used = "            monitor: \"used\",\n            unitType: \"perc\",\n            unitMeasure: indicator._diskSpaceUnitMeasure,\n          const primaryStyle = getDiskUsagePercentStyle(diskSpaceUsageDisplay.value);";
    assert_eq!(
        migrate_disk_space_primary_to_free_gb(used),
        "            monitor: \"free\",\n            unitType: \"numeric\",\n            unitMeasure: \"g\",\n          const primaryStyle = getDiskUsagePercentStyle(entry.usedPercent);"
    );
}

#[test]
fn activity_label_gains_its_style() {
    let source = format!("{ACTIVITY_LINE}\n\n{SECONDARY_CALL}\n");
    let migrated = migrate_disk_activity_style(&source);
    assert!(migrated.contains("const activityStyle = getDiskUsagePercentStyle(activityPercent);"));
    assert!(migrated.contains("\"%\",\n            activityStyle\n"));
    assert_eq!(migrate_disk_activity_style(&migrated), migrated);
}

#[test]
fn stale_display_block_before_the_current_update_is_removed() {
    let source = format!("a\n{UPSTREAM_DISPLAY_BLOCK}{REFRESH_UPDATE_MARKER} rest");
    assert_eq!(
        remove_stale_disk_space_display_block(&source),
        format!("a\n{REFRESH_UPDATE_MARKER} rest")
    );
    let lone = format!("a\n{UPSTREAM_DISPLAY_BLOCK}other");
    assert_eq!(remove_stale_disk_space_display_block(&lone), lone);
}

#[test]
fn row_key_is_rewritten_by_the_migrations() {
    let migrated = apply_refreshers_migrations(ORIGINAL_DISK_REFRESH_RESULT);
    assert!(migrated.contains("filesystem: device.mountPoint || device.device,"));
    assert!(migrated.contains(ACTIVITY_HELPER_MARKER));
}

// ── extension.js ─────────────────────────────────────────────────────────

#[test]
fn extension_disk_rows_are_keyed_by_mount_point() {
    let patched = patch_extension(ORIGINAL_EXTENSION_DISK_LIST).expect("patch");
    assert!(patched.contains(EXTENSION_DISK_KEY_MARKER));
    let twice = patch_extension(&patched).expect("second");
    assert_eq!(patched, twice);
}

#[test]
fn extension_missing_target_fails_fast() {
    assert!(patch_extension("// unrelated").is_err());
}

// ── the three-file plan ──────────────────────────────────────────────────

#[test]
fn disk_plan_writes_only_the_changed_files() {
    let refreshers = upstream_refreshers();
    let plan = disk_patch_plan(ORIGINAL_DISK_CONTAINER, &refreshers, Some(ORIGINAL_EXTENSION_DISK_LIST));
    assert_eq!(plan.progress, refreshers_progress(&refreshers));
    let writes = plan.writes.expect("plan");
    assert_eq!(writes.containers, Some(patch_containers(ORIGINAL_DISK_CONTAINER).unwrap()));
    assert_eq!(writes.refreshers, Some(patch_refreshers(&refreshers).unwrap()));
    assert_eq!(writes.extension, Some(patch_extension(ORIGINAL_EXTENSION_DISK_LIST).unwrap()));
    assert!(writes.any_changed());
    assert_eq!(writes.message(), MESSAGE_DISK_PATCHED);

    let containers = writes.containers.unwrap();
    let refreshers = writes.refreshers.unwrap();
    let again = disk_patch_plan(&containers, &refreshers, None).writes.expect("again");
    assert_eq!(again.containers, None);
    assert_eq!(again.refreshers, None);
    assert_eq!(again.extension, None);
    assert!(!again.any_changed());
    assert_eq!(again.message(), MESSAGE_DISK_ALREADY);
}

#[test]
fn disk_plan_fails_on_the_first_missing_target_before_any_write() {
    let refreshers = upstream_refreshers();
    let plan = disk_patch_plan("// unrelated", &refreshers, None);
    assert!(plan.progress.is_empty());
    assert_eq!(plan.writes.unwrap_err().0, "DiskContainerSpace");

    let plan = disk_patch_plan(ORIGINAL_DISK_CONTAINER, "// unrelated", None);
    assert_eq!(plan.writes.unwrap_err().0, "refreshers.js disk space update");

    let plan = disk_patch_plan(ORIGINAL_DISK_CONTAINER, &refreshers, Some("// unrelated"));
    assert_eq!(plan.writes.unwrap_err().0, "extension.js disk space row key");
}

#[test]
fn containers_rerun_migrates_a_second_pre_style_secondary_update() {
    // The secondary-value migration is one-shot: with two pre-style updates
    // next to the upstream class, each run upgrades one of them.
    let content = format!(
        "{ORIGINAL_DISK_CONTAINER}\n{STYLE_DISK_SECONDARY_FROM}\n{STYLE_DISK_SECONDARY_FROM}\n"
    );
    let once = patch_containers(&content).expect("first");
    assert!(once.contains(STYLE_DISK_SECONDARY_FROM));
    let twice = patch_containers(&once).expect("second");
    assert_ne!(once, twice);
}

#[test]
fn containers_rerun_styles_a_unit_update_that_ends_the_file() {
    // A unit update with no newline after it is rewritten on every run, and
    // the style line it gains cannot be collapsed with the next one.
    let content = format!("{ORIGINAL_DISK_CONTAINER}\n{STYLE_DISK_UNIT_FROM}");
    let once = patch_containers(&content).expect("first");
    assert!(once.ends_with(STYLE_DISK_UNIT_FROM));
    let twice = patch_containers(&once).expect("second");
    assert_ne!(once, twice);
}
