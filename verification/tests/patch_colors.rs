use rm_monitor::patch_colors::{
    migrate_green_yellow_red_gradient, patch_extension_js, support_block, CLASS_MARKER,
    HELPER_INSERTION_POINT, IDENTITY_DETECTION, MARKER_ONLY_DETECTION, NEW_RETURN, OLD_RETURN,
    ORIGINAL_METHOD,
};

fn upstream() -> String {
    format!(
        "import GObject from \"gi://GObject\";\n\n\
         {CLASS_MARKER} ResourceMonitorExtension extends Extension {{\n\
         {ORIGINAL_METHOD}\n}}\n"
    )
}

#[test]
fn support_block_carries_the_shared_range_constants() {
    let block = support_block();
    assert!(block.contains("const ETHERNET_MAX_MBPS = 2000;"));
    assert!(block.contains("const RAM_MAX_GB = 64;"));
    assert!(block.contains("const DISK_USAGE_MAX_PERCENT = 100;"));
    assert!(block.contains("const GPU_MEMORY_MAX_GB = 24;"));
    assert!(block.contains("function getGreenYellowRedGradientColor("));
    assert!(block.ends_with("};"));
}

#[test]
fn patches_upstream_extension_source() {
    let patched = patch_extension_js(&upstream());
    assert!(patched.contains("_gradientGetUsageColor"));
    assert!(patched.contains("return this._gradientGetUsageColor(value, colors);"));
    assert!(patched.contains("colors === this._diskSpaceColors"));
    assert!(patched.contains("const GRADIENT_CONFIGS = {"));
    // The support block must precede the class declaration.
    let block_at = patched.find("Gradient color support").expect("support block");
    let class_at = patched.find(CLASS_MARKER).expect("class marker");
    assert!(block_at < class_at);
}

#[test]
fn re_running_the_patch_is_a_no_op() {
    let once = patch_extension_js(&upstream());
    let twice = patch_extension_js(&once);
    assert_eq!(once, twice);
}

#[test]
fn missing_anchors_leave_the_content_untouched() {
    assert_eq!(patch_extension_js("// unrelated"), "// unrelated");
    let no_class = ORIGINAL_METHOD.to_string();
    assert_eq!(patch_extension_js(&no_class), no_class);
}

#[test]
fn migrates_marker_only_detection_to_identity_checks() {
    let legacy = format!(
        "_gradientGetUsageColor(value, colors) {{\n{MARKER_ONLY_DETECTION}\n      }}\n{NEW_RETURN}\n\
         function getGreenYellowRedGradientColor(a) {{}}\n"
    );
    let migrated = patch_extension_js(&legacy);
    assert!(migrated.contains("colors === this._diskSpaceColors"));
    assert!(migrated.contains("colors === this._gpuMemoryColors || colorStr.includes(\"__gpuMem\")"));
}

#[test]
fn migrates_the_two_stop_gradient_to_the_midpoint_gradient() {
    let legacy = format!(
        "_gradientGetUsageColor(value, colors) {{\n{IDENTITY_DETECTION}\n      }}\n\
         function getGradientColor(v) {{\n{HELPER_INSERTION_POINT}\n{OLD_RETURN}\n"
    );
    let migrated = patch_extension_js(&legacy);
    assert!(migrated.contains("function getGreenYellowRedGradientColor("));
    assert!(migrated.contains(NEW_RETURN));
    assert!(!migrated.contains(OLD_RETURN));
}

#[test]
fn midpoint_migration_leaves_current_sources_alone() {
    let current = format!("function getGreenYellowRedGradientColor(a) {{}}\n{NEW_RETURN}\n");
    assert_eq!(migrate_green_yellow_red_gradient(&current), current);
}
