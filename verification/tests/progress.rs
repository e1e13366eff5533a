use rm_monitor::patch_colors::{
    self, CLASS_MARKER, NOTE_ALREADY, NOTE_NO_CLASS, NOTE_NO_METHOD, NOTE_PATCHED, ORIGINAL_METHOD,
};
use rm_monitor::patch_disk::{
    refreshers_progress, CURRENT_UPSTREAM_UPDATE, NOTE_HELPERS_INJECTED, ORIGINAL_DISK_REFRESH_RESULT,
    REFRESH_FUNCTION_MARKER, UPSTREAM_DISPLAY_BLOCK,
};
use rm_monitor::patch_eth_icon::{self, NOTE_GUARDED, NOTE_ICON_REMOVED, OLD_FN, OLD_SNIPPET};
use rm_monitor::patch_stable_width::{
    self, DISK_UPSTREAM_ADD, DISK_UPSTREAM_INIT, GPU_UPSTREAM_INIT, GPU_UPSTREAM_SET,
    NOTE_DISK_ALREADY_COMPACT, NOTE_DISK_RESERVED, NOTE_DISK_SKIPPED, NOTE_GPU_ALREADY_COMPACT,
    NOTE_GPU_SPLIT,
};

fn colors_upstream() -> String {
    format!(
        "import GObject from \"gi://GObject\";\n\n\
         {CLASS_MARKER} ResourceMonitorExtension extends Extension {{\n\
         {ORIGINAL_METHOD}\n}}\n"
    )
}

#[test]
fn colors_progress_names_the_branch_taken() {
    assert_eq!(patch_colors::patch_progress(&colors_upstream()), vec![NOTE_PATCHED]);
    assert_eq!(patch_colors::patch_progress("// unrelated"), vec![NOTE_NO_METHOD]);
    assert_eq!(patch_colors::patch_progress(ORIGINAL_METHOD), vec![NOTE_NO_CLASS]);
    let once = patch_colors::patch_extension_js(&colors_upstream());
    assert_eq!(patch_colors::patch_progress(&once), vec![NOTE_ALREADY]);
}

#[test]
fn eth_icon_progress_reports_each_applied_edit() {
    let upstream = format!("{OLD_FN}\n\n{OLD_SNIPPET}\n");
    assert_eq!(patch_eth_icon::patch_progress(&upstream), vec![NOTE_GUARDED, NOTE_ICON_REMOVED]);
    let (patched, _) = patch_eth_icon::patch_main_gui(&upstream).expect("patch");
    assert!(patch_eth_icon::patch_progress(&patched).is_empty());
    assert!(patch_eth_icon::patch_progress("// unrelated").is_empty());
}

#[test]
fn stable_width_progress_follows_the_mode() {
    let upstream = format!(
        "{DISK_UPSTREAM_INIT}\n\n{DISK_UPSTREAM_ADD}\n\n{GPU_UPSTREAM_INIT}\n\n{GPU_UPSTREAM_SET}\n"
    );
    assert_eq!(
        patch_stable_width::patch_progress(&upstream, false),
        vec![NOTE_DISK_RESERVED, NOTE_GPU_SPLIT]
    );
    assert_eq!(
        patch_stable_width::patch_progress(&upstream, true),
        vec![NOTE_DISK_ALREADY_COMPACT, NOTE_GPU_ALREADY_COMPACT]
    );
    let gpu_only = format!("{GPU_UPSTREAM_INIT}\n\n{GPU_UPSTREAM_SET}\n");
    assert_eq!(
        patch_stable_width::patch_progress(&gpu_only, false),
        vec![NOTE_DISK_SKIPPED, NOTE_GPU_SPLIT]
    );
}

#[test]
fn refreshers_progress_reports_the_helper_injection() {
    let upstream = format!(
        "{REFRESH_FUNCTION_MARKER}\n{UPSTREAM_DISPLAY_BLOCK}{CURRENT_UPSTREAM_UPDATE}\n}}\n\n\
         {ORIGINAL_DISK_REFRESH_RESULT}\n"
    );
    let notes = refreshers_progress(&upstream);
    assert_eq!(notes.last(), Some(&NOTE_HELPERS_INJECTED));
    assert!(refreshers_progress("// unrelated").is_empty());
    let once = rm_monitor::patch_disk::patch_refreshers(&upstream).expect("patch");
    assert!(refreshers_progress(&once).is_empty());
}
