use rm_monitor::report_cuda::parse_gpu_output;
use rm_monitor::settings::format_gsettings_list;

#[test]
fn parses_a_single_gpu_line() {
    let devices = parse_gpu_output("GPU 0: NVIDIA GeForce RTX 4090 (UUID: GPU-abc123)");
    assert_eq!(devices.len(), 1);
    assert_eq!(devices[0].get_str("device"), Some("GPU-abc123"));
    assert_eq!(devices[0].get_str("name"), Some("NVIDIA GeForce RTX 4090"));
    assert_eq!(devices[0].get_str("type"), Some("gpu"));
}

#[test]
fn parses_multiple_gpus_and_skips_noise() {
    let output = "GPU 0: NVIDIA A100 (UUID: GPU-1)\n\
warning: something happened\n\
GPU 1: NVIDIA A100 (UUID: GPU-2)\n";
    let devices = parse_gpu_output(output);
    assert_eq!(devices.len(), 2);
    assert_eq!(devices[1].get_str("device"), Some("GPU-2"));
}

#[test]
fn empty_output_yields_the_empty_gsettings_array() {
    assert!(parse_gpu_output("").is_empty());
    assert_eq!(format_gsettings_list(&parse_gpu_output("")), "[]");
}

#[test]
fn stdout_contract_is_a_repr_wrapped_json_array() {
    let devices = parse_gpu_output("GPU 0: NVIDIA A100 (UUID: GPU-1)");
    assert_eq!(
        format_gsettings_list(&devices),
        r#"['{"version": 2, "type": "gpu", "device": "GPU-1", "name": "NVIDIA A100", "usage": true, "memory": true, "displayName": ""}']"#
    );
}
