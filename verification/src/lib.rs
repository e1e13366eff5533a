//! Verified core of the Resource Monitor installer helpers: GSettings value
//! handling, device descriptions, and the idempotent text patches applied to
//! the extension's JavaScript sources.

pub mod std_specs;
pub mod regex_calls;
pub mod text;
pub mod patch_text;
pub mod gsettings_strv;
pub mod settings;
pub mod disks;
pub mod report_cuda;
pub mod patch_vram;
pub mod patch_stable_width;
pub mod patch_eth_icon;
pub mod gradient_colors;
pub mod patch_colors;
pub mod patch_disk;
pub mod style_runs;
pub mod patch_process_popup;
pub mod patch_refresh;
pub mod patch_metadata;
pub mod configure;
