use rm_monitor::gradient_colors::{
    select_gradient_kind, GradientKind, DISK_USAGE_MAX_PERCENT, ETHERNET_MAX_MBPS,
    GPU_MEMORY_MAX_GB, RAM_MAX_GB,
};

#[test]
fn config_ranges_match_the_javascript_source() {
    assert_eq!(ETHERNET_MAX_MBPS, 2000);
    assert_eq!(RAM_MAX_GB, 64);
    assert_eq!(DISK_USAGE_MAX_PERCENT, 100);
    assert_eq!(GPU_MEMORY_MAX_GB, 24);
    assert_eq!(GradientKind::Ram.max_value(), 64);
    assert_eq!(GradientKind::Eth.max_value(), 2000);
    assert_eq!(GradientKind::GpuMemory.max_value(), 24);
}

#[test]
fn marker_selection_follows_javascript_priority() {
    assert_eq!(select_gradient_kind("__eth"), GradientKind::Eth);
    assert_eq!(select_gradient_kind("__wlan"), GradientKind::Wlan);
    assert_eq!(select_gradient_kind("__gpuMem"), GradientKind::GpuMemory);
    assert_eq!(select_gradient_kind("__diskSpace"), GradientKind::DiskSpace);
    assert_eq!(select_gradient_kind("__gpu"), GradientKind::Gpu);
    assert_eq!(select_gradient_kind("__ram"), GradientKind::Ram);
    assert_eq!(select_gradient_kind("__cpu"), GradientKind::Cpu);
    assert_eq!(select_gradient_kind("#ffffff"), GradientKind::Cpu);
    // "__gpuMem" must win over the shorter "__gpu" prefix.
    assert_eq!(select_gradient_kind("__gpuMem __gpu"), GradientKind::GpuMemory);
}

#[test]
fn percentage_gradients_span_zero_to_one_hundred() {
    assert_eq!(GradientKind::Cpu.max_value(), 100);
    assert_eq!(GradientKind::Gpu.max_value(), 100);
    assert_eq!(GradientKind::DiskSpace.max_value(), 100);
    assert_eq!(GradientKind::Wlan.max_value(), 2000);
}
