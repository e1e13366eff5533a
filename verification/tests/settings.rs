use rm_monitor::disks::build_disk_device_entry;
use rm_monitor::settings::{
    build_gsettings_args, format_gsettings_list, python_repr, Device, DisplayMode, JsonScalar,
};

fn gpu_device() -> Device {
    Device::new()
        .with("version", JsonScalar::Int(2))
        .with("type", JsonScalar::from_str("gpu"))
        .with("device", JsonScalar::from_str("GPU-abc123"))
        .with("name", JsonScalar::from_str("NVIDIA GeForce RTX 4090"))
        .with("usage", JsonScalar::Bool(true))
        .with("memory", JsonScalar::Bool(true))
        .with("displayName", JsonScalar::from_str(""))
}

#[test]
fn json_uses_python_separators_and_insertion_order() {
    assert_eq!(
        gpu_device().to_json(),
        r#"{"version": 2, "type": "gpu", "device": "GPU-abc123", "name": "NVIDIA GeForce RTX 4090", "usage": true, "memory": true, "displayName": ""}"#
    );
}

#[test]
fn python_repr_matches_cpython_quoting() {
    assert_eq!(python_repr("plain"), "'plain'");
    assert_eq!(python_repr(r#"{"a": 1}"#), r#"'{"a": 1}'"#);
    assert_eq!(python_repr("it's"), "\"it's\"");
    assert_eq!(python_repr("both\" and '"), r#"'both" and \''"#);
    assert_eq!(python_repr("back\\slash"), r"'back\\slash'");
}

#[test]
fn python_repr_escapes_control_characters() {
    assert_eq!(python_repr("a\nb\tc"), r"'a\nb\tc'");
}

#[test]
fn empty_device_list_formats_as_empty_array() {
    assert_eq!(format_gsettings_list(&[]), "[]");
}

#[test]
fn device_list_wraps_each_json_string_in_repr() {
    let formatted = format_gsettings_list(&[gpu_device()]);
    assert!(formatted.starts_with("['{\"version\": 2"));
    assert!(formatted.ends_with("\"displayName\": \"\"}']"));
}

fn disk_device(mount_point: &str) -> Device {
    build_disk_device_entry("/dev/sda2", mount_point)
}

#[test]
fn gpu_numeric_mode_is_the_default_command() {
    let commands = build_gsettings_args("schema", "/ext", DisplayMode::default(), None, None);
    assert_eq!(commands.len(), 1);
    assert_eq!(commands[0][5], "gpumemoryunit");
    assert_eq!(commands[0][6], "'numeric'");
}

#[test]
fn gpu_percentage_mode_switches_the_unit() {
    let mode = DisplayMode {
        gpu_memory_perc: true,
        ..DisplayMode::default()
    };
    let commands = build_gsettings_args("schema", "/ext", mode, None, None);
    assert_eq!(commands[0][6], "'perc'");
}

#[test]
fn disk_space_gb_mode_emits_the_free_gigabyte_keys() {
    let mode = DisplayMode {
        disk_space_gb: true,
        ..DisplayMode::default()
    };
    let commands = build_gsettings_args("schema", "/ext", mode, None, None);
    let keys: Vec<&str> = commands.iter().map(|c| c[5].as_str()).collect();
    assert_eq!(
        keys,
        vec![
            "gpumemoryunit",
            "diskstatsstatus",
            "diskspaceunit",
            "diskspaceunitmeasure",
            "diskspacemonitor",
        ]
    );
    assert_eq!(commands[4][6], "'free'");
}

#[test]
fn legacy_disk_space_perc_alias_still_configures_disk_space() {
    let mode = DisplayMode {
        disk_space_perc: true,
        ..DisplayMode::default()
    };
    let commands = build_gsettings_args("schema", "/ext", mode, None, None);
    assert!(commands.iter().any(|c| c[5] == "diskspaceunitmeasure"));
}

#[test]
fn home_only_mode_uses_used_percentage_and_filters_devices() {
    let mode = DisplayMode {
        disk_space_perc_home_only: true,
        ..DisplayMode::default()
    };
    let devices = vec![disk_device("/"), disk_device("/home")];
    let commands = build_gsettings_args("schema", "/ext", mode, None, Some(&devices));
    let keys: Vec<&str> = commands.iter().map(|c| c[5].as_str()).collect();
    assert_eq!(
        keys,
        vec![
            "gpumemoryunit",
            "diskstatsstatus",
            "diskspaceunit",
            "diskspacemonitor",
            "diskdeviceslist",
        ]
    );
    let device_list = &commands[4][6];
    assert!(device_list.contains("/home"));
    assert_eq!(device_list.matches("\\\"mountPoint").count(), 0);
    assert_eq!(device_list.matches("mountPoint").count(), 1);
}

#[test]
fn empty_device_lists_are_not_written() {
    let mode = DisplayMode {
        gpu_memory_perc: true,
        ..DisplayMode::default()
    };
    let commands = build_gsettings_args("schema", "/ext", mode, Some(&[]), Some(&[]));
    assert_eq!(commands.len(), 1);
}

#[test]
fn commands_carry_the_schema_dir_and_schema() {
    let commands = build_gsettings_args("schema", "/ext", DisplayMode::default(), None, None);
    assert_eq!(
        commands[0],
        vec!["gsettings", "--schemadir", "/ext", "set", "schema", "gpumemoryunit", "'numeric'"]
    );
}

#[test]
fn setting_a_field_keeps_its_position() {
    let mut device = gpu_device();
    device.set_str("type", "disk");
    assert_eq!(device.get_str("type"), Some("disk"));
    assert!(device.to_json().starts_with(r#"{"version": 2, "type": "disk", "device""#));
    assert_eq!(device.get_str("version"), None);
    assert_eq!(device.get_str("missing"), None);
}

#[test]
fn json_strings_use_serde_json_escapes() {
    let device = Device::new().with("name", JsonScalar::from_str("a\"b\\c\nd\u{1}\u{7f}é"));
    assert_eq!(device.to_json(), "{\"name\": \"a\\\"b\\\\c\\nd\\u0001\u{7f}é\"}");
}
