use rm_monitor::disks::{
    append_home_directory_entry, build_disk_device_entry, filter_disk_devices_to_mount_point,
    has_home_mount, parse_df_output,
};

const DF_OUTPUT: &str = "Filesystem     1024-blocks      Used Available Capacity Mounted on\n\
tmpfs              3276800     22000   3254800       1% /run\n\
/dev/nvme0n1p2   982820000 411000000 521000000      45% /\n\
/dev/nvme0n1p1      523248      6300    516948       2% /boot/efi\n";

fn jsons(devices: &[rm_monitor::settings::Device]) -> Vec<String> {
    devices.iter().map(|d| d.to_json()).collect()
}

#[test]
fn parse_keeps_only_block_devices() {
    let entries = parse_df_output(DF_OUTPUT);
    assert_eq!(entries.len(), 2);
    assert_eq!(entries[0].get_str("device"), Some("/dev/nvme0n1p2"));
    assert_eq!(entries[0].get_str("mountPoint"), Some("/"));
    assert_eq!(entries[1].get_str("mountPoint"), Some("/boot/efi"));
}

#[test]
fn parse_preserves_mount_points_with_spaces() {
    let output = "\
Filesystem     1024-blocks Used Available Capacity Mounted on
/dev/sda2           100000  50   99950      1% /mnt/my data
";
    let entries = parse_df_output(output);
    assert_eq!(entries.len(), 1);
    assert!(entries[0].to_json().contains(r#""mountPoint": "/mnt/my data""#));
}

#[test]
fn entry_shape_matches_the_schema_version_two_layout() {
    let entry = build_disk_device_entry("/dev/sda2", "/home");
    assert_eq!(
        entry.to_json(),
        r#"{"version": 2, "type": "disk", "device": "/dev/sda2", "stableId": "", "mountPoint": "/home", "stats": false, "space": true, "displayName": "/home"}"#
    );
}

#[test]
fn existing_home_mount_is_left_untouched() {
    let entries = vec![
        build_disk_device_entry("/dev/sda1", "/"),
        build_disk_device_entry("/dev/sda2", "/home"),
    ];
    let result = append_home_directory_entry(entries.clone(), None);
    assert_eq!(jsons(&result), jsons(&entries));
}

#[test]
fn filtering_by_mount_point_is_optional() {
    let entries = vec![
        build_disk_device_entry("/dev/sda1", "/"),
        build_disk_device_entry("/dev/sda2", "/home"),
    ];
    assert_eq!(filter_disk_devices_to_mount_point(entries.clone(), None).len(), 2);
    let home = filter_disk_devices_to_mount_point(entries, Some("/home"));
    assert_eq!(home.len(), 1);
    assert_eq!(home[0].get_str("device"), Some("/dev/sda2"));
}

#[test]
fn home_entry_is_added_from_the_home_df_row() {
    let entries = vec![build_disk_device_entry("/dev/sda1", "/")];
    assert!(!has_home_mount(&entries));
    let home_df = "Filesystem 1024-blocks Used Available Capacity Mounted on\n\
/dev/sda1 100 50 50 50% /\n";
    let result = append_home_directory_entry(entries, Some(home_df));
    assert_eq!(result.len(), 2);
    assert_eq!(result[1].get_str("mountPoint"), Some("/home"));
    assert_eq!(result[1].get_str("device"), Some("/dev/sda1"));
    assert!(has_home_mount(&result));
}

#[test]
fn no_home_df_output_adds_nothing() {
    let entries = vec![build_disk_device_entry("/dev/sda1", "/")];
    assert_eq!(append_home_directory_entry(entries, None).len(), 1);
    assert!(parse_df_output("").is_empty());
}
