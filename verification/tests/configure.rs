use rm_monitor::configure::{
    candidate_homes, plan_configuration, resolve_extension_id, ConfigureError, DiskDetection, DEFAULT_EXTENSION_ID,
};

#[test]
fn mutually_exclusive_disk_modes_are_refused() {
    let err = plan_configuration(false, true, false, true).unwrap_err();
    assert_eq!(err, ConfigureError::MutuallyExclusiveDiskModes);
    assert_eq!(
        err.message(),
        "--disk-space-gb and --disk-space-perc-home-only are mutually exclusive."
    );
}

#[test]
fn no_options_is_refused() {
    let err = plan_configuration(false, false, false, false).unwrap_err();
    assert_eq!(err, ConfigureError::NoOptions);
    assert_eq!(
        err.message(),
        "No options specified. Use --gpu-memory-perc and/or --disk-space-gb."
    );
}

#[test]
fn gpu_only_needs_no_disks() {
    let plan = plan_configuration(true, false, false, false).expect("plan");
    assert!(plan.detect_gpus);
    assert_eq!(plan.disks, DiskDetection::Skip);
    assert!(plan.mode.gpu_memory_perc);
    assert!(!plan.mode.disk_space_gb);
}

#[test]
fn legacy_alias_configures_disk_space_in_gigabytes() {
    let plan = plan_configuration(false, false, true, false).expect("plan");
    assert!(!plan.detect_gpus);
    assert_eq!(plan.disks, DiskDetection::All);
    assert!(plan.mode.disk_space_gb);
    assert!(plan.mode.disk_space_perc);
}

#[test]
fn home_only_detects_the_home_device() {
    let plan = plan_configuration(false, false, false, true).expect("plan");
    assert_eq!(plan.disks, DiskDetection::HomeOnly);
    assert!(!plan.mode.disk_space_gb);
    assert!(plan.mode.disk_space_perc_home_only);
}

#[test]
fn extension_id_falls_back_to_the_default() {
    assert_eq!(resolve_extension_id(None), DEFAULT_EXTENSION_ID);
    assert_eq!(resolve_extension_id(Some("")), DEFAULT_EXTENSION_ID);
    assert_eq!(resolve_extension_id(Some("Ext@id")), "Ext@id");
}

#[test]
fn candidate_homes_lists_home_then_user_homes_once() {
    assert_eq!(
        candidate_homes(Some("/root"), Some("alice"), Some("alice")),
        vec!["/root".to_string(), "/home/alice".to_string()]
    );
    assert_eq!(
        candidate_homes(Some("/home/bob"), Some("bob"), Some("carol")),
        vec!["/home/bob".to_string(), "/home/carol".to_string()]
    );
}

#[test]
fn candidate_homes_skips_root_empty_and_missing_values() {
    assert_eq!(
        candidate_homes(Some(""), Some("root"), Some("")),
        Vec::<String>::new()
    );
    assert_eq!(
        candidate_homes(None, None, Some("dave")),
        vec!["/home/dave".to_string()]
    );
    assert_eq!(
        candidate_homes(Some("/home/erin/"), None, Some("erin")),
        vec!["/home/erin/".to_string()]
    );
}
