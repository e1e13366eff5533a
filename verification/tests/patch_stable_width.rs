use rm_monitor::patch_stable_width::{
    parse_mode, patch_containers, StableWidthError, DISK_MARKER, DISK_PATCHED_INIT, DISK_UPSTREAM_ADD, DISK_UPSTREAM_INIT,
    GPU_MARKER, GPU_UPSTREAM_INIT, GPU_UPSTREAM_SET,
};

fn upstream() -> String {
    format!("{DISK_UPSTREAM_INIT}\n\n{DISK_UPSTREAM_ADD}\n\n{GPU_UPSTREAM_INIT}\n\n{GPU_UPSTREAM_SET}\n")
}

#[test]
fn stable_mode_reserves_both_widths() {
    let (patched, changed) = patch_containers(&upstream(), false).expect("patch");
    assert!(changed);
    assert!(patched.contains(DISK_MARKER));
    assert!(patched.contains("this._diskActivityWidth = 24;"));
    assert!(patched.contains(GPU_MARKER));
    assert!(patched.contains("this._gpuMemoryWidth = 16;"));
}

#[test]
fn stable_mode_is_idempotent() {
    let (once, _) = patch_containers(&upstream(), false).expect("first");
    let (twice, changed) = patch_containers(&once, false).expect("second");
    assert!(!changed);
    assert_eq!(once, twice);
}

#[test]
fn compact_mode_round_trips_back_to_upstream() {
    let source = upstream();
    let (stable, _) = patch_containers(&source, false).expect("stable");
    let (compact, changed) = patch_containers(&stable, true).expect("compact");
    assert!(changed);
    assert_eq!(compact, source);
}

#[test]
fn compact_mode_on_upstream_changes_nothing() {
    let source = upstream();
    let (compact, changed) = patch_containers(&source, true).expect("compact");
    assert!(!changed);
    assert_eq!(compact, source);
}

#[test]
fn stable_mode_skips_disk_when_per_disk_patch_absent() {
    let source = format!("{GPU_UPSTREAM_INIT}\n\n{GPU_UPSTREAM_SET}\n");
    let (patched, changed) = patch_containers(&source, false).expect("gpu-only");
    assert!(changed);
    assert!(!patched.contains(DISK_MARKER));
    assert!(patched.contains(GPU_MARKER));
    assert!(patched.contains("this._gpuMemoryWidth = 16;"));
}

#[test]
fn disk_add_without_init_fails_fast() {
    // Secondary labels present but DiskContainerSpace._init missing is unsupported.
    let source =
        format!("{DISK_UPSTREAM_ADD}\n\n{GPU_UPSTREAM_INIT}\n\n{GPU_UPSTREAM_SET}\n");
    assert!(matches!(
        patch_containers(&source, false),
        Err(StableWidthError::MissingDiskInit)
    ));
}

#[test]
fn missing_gpu_target_fails_fast() {
    let source = format!("{DISK_UPSTREAM_INIT}\n\n{DISK_UPSTREAM_ADD}\n");
    assert!(matches!(
        patch_containers(&source, false),
        Err(StableWidthError::MissingGpuInit)
    ));
}

#[test]
fn modes_parse_to_the_compact_flag() {
    assert_eq!(parse_mode("stable"), Some(false));
    assert_eq!(parse_mode("compact"), Some(true));
    assert_eq!(parse_mode("wide"), None);
}

#[test]
fn compact_mode_round_trips_without_the_disk_labels() {
    let source = format!("{GPU_UPSTREAM_INIT}\n\n{GPU_UPSTREAM_SET}\n");
    let (stable, changed) = patch_containers(&source, false).expect("stable");
    assert!(changed);
    let (compact, changed) = patch_containers(&stable, true).expect("compact");
    assert!(changed);
    assert_eq!(compact, source);
}

#[test]
fn compact_mode_reverts_an_earlier_reserved_initialiser_first() {
    // A reserved disk initialiser standing before the upstream one is the
    // first that compact mode finds, so the round trip does not come back.
    let source = format!("{DISK_PATCHED_INIT}\n\n{}", upstream());
    let (stable, _) = patch_containers(&source, false).expect("stable");
    let (compact, _) = patch_containers(&stable, true).expect("compact");
    assert_ne!(compact, source);
}
