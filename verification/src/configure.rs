//! Decisions behind configuring the Resource Monitor display settings.
//!
//! The requested options are validated and turned into a display mode plus
//! the device detections the mode needs; resolving the schema directory,
//! detecting devices and running each `gsettings set` is left to the caller.

use vstd::prelude::*;
use crate::settings::DisplayMode;
use crate::text::{chars_string, push_str, str_chars};

verus! {

/// Resource Monitor GSettings schema ID.
pub const SCHEMA: &'static str = "org.gnome.shell.extensions.resource-monitor";

/// Default extension UUID when `RESOURCE_MONITOR_EXTENSION_ID` is unset.
pub const DEFAULT_EXTENSION_ID: &'static str = "Resource_Monitor@Ory0n";

/// A rejected combination of options.
#[derive(Debug, Clone, Copy, PartialEq, Eq)]
pub enum ConfigureError {
    /// `--disk-space-gb` together with `--disk-space-perc-home-only`.
    MutuallyExclusiveDiskModes,
    /// Neither a GPU nor a disk option was given.
    NoOptions,
}

impl ConfigureError {
    /// The error's message.
    pub fn message(&self) -> (r: &'static str)
        ensures
            r@ == match self {
                ConfigureError::MutuallyExclusiveDiskModes => "--disk-space-gb and --disk-space-perc-home-only are mutually exclusive."@,
                ConfigureError::NoOptions => "No options specified. Use --gpu-memory-perc and/or --disk-space-gb."@,
            },
    {
        match self {
            ConfigureError::MutuallyExclusiveDiskModes => "--disk-space-gb and --disk-space-perc-home-only are mutually exclusive.",
            ConfigureError::NoOptions => "No options specified. Use --gpu-memory-perc and/or --disk-space-gb.",
        }
    }
}

/// Which disk devices the mode needs.
#[derive(Debug, Clone, Copy, PartialEq, Eq)]
pub enum DiskDetection {
    /// Disk space is not configured.
    Skip,
    /// Every mounted block device.
    All,
    /// Only the device mounted at `/home`.
    HomeOnly,
}

/// What a configuration run applies and what it must detect first.
#[derive(Debug, Clone, Copy)]
pub struct ConfigurePlan {
    /// The display mode the `gsettings` commands are built for.
    pub mode: DisplayMode,
    /// The disk detection the mode needs.
    pub disks: DiskDetection,
    /// Whether the GPU devices must be detected.
    pub detect_gpus: bool,
}

/// Result of [`plan_configuration`].
pub open spec fn configuration_plan(
    gpu_memory_perc: bool,
    disk_space_gb: bool,
    disk_space_perc: bool,
    disk_space_perc_home_only: bool,
) -> Result<ConfigurePlan, ConfigureError> {
    let configure_disk_space = disk_space_gb || disk_space_perc || disk_space_perc_home_only;
    if disk_space_gb && disk_space_perc_home_only {
        Err(ConfigureError::MutuallyExclusiveDiskModes)
    } else if !gpu_memory_perc && !configure_disk_space {
        Err(ConfigureError::NoOptions)
    } else {
        Ok(
            ConfigurePlan {
                mode: DisplayMode {
                    gpu_memory_perc,
                    disk_space_gb: configure_disk_space && !disk_space_perc_home_only,
                    disk_space_perc,
                    disk_space_perc_home_only,
                },
                disks: if disk_space_perc_home_only {
                    DiskDetection::HomeOnly
                } else if configure_disk_space {
                    DiskDetection::All
                } else {
                    DiskDetection::Skip
                },
                detect_gpus: gpu_memory_perc,
            },
        )
    }
}

/// Validate the requested options and plan the run: the display mode, the
/// disk detection it needs, and whether GPUs must be detected.
///
/// `disk_space_perc` is the legacy alias for `disk_space_gb`.
pub fn plan_configuration(
    gpu_memory_perc: bool,
    disk_space_gb: bool,
    disk_space_perc: bool,
    disk_space_perc_home_only: bool,
) -> (r: Result<ConfigurePlan, ConfigureError>)
    ensures
        r == configuration_plan(gpu_memory_perc, disk_space_gb, disk_space_perc, disk_space_perc_home_only),
{
    if disk_space_gb && disk_space_perc_home_only {
        return Err(ConfigureError::MutuallyExclusiveDiskModes);
    }
    let configure_disk_space = disk_space_gb || disk_space_perc || disk_space_perc_home_only;
    if !gpu_memory_perc && !configure_disk_space {
        return Err(ConfigureError::NoOptions);
    }
    let disks = if disk_space_perc_home_only {
        DiskDetection::HomeOnly
    } else if configure_disk_space {
        DiskDetection::All
    } else {
        DiskDetection::Skip
    };
    Ok(
        ConfigurePlan {
            mode: DisplayMode {
                gpu_memory_perc,
                disk_space_gb: configure_disk_space && !disk_space_perc_home_only,
                disk_space_perc,
                disk_space_perc_home_only,
            },
            disks,
            detect_gpus: gpu_memory_perc,
        },
    )
}

/// The extension UUID to look for: the `RESOURCE_MONITOR_EXTENSION_ID` value
/// when it is set and non-empty, else [`DEFAULT_EXTENSION_ID`].
pub fn resolve_extension_id(env_value: Option<&str>) -> (r: String)
    ensures
        r@ == match env_value {
            Some(v) => if v@.len() > 0 {
                v@
            } else {
                DEFAULT_EXTENSION_ID@
            },
            None => DEFAULT_EXTENSION_ID@,
        },
{
    match env_value {
        Some(v) => {
            if v.unicode_len() > 0 {
                v.to_owned()
            } else {
                DEFAULT_EXTENSION_ID.to_owned()
            }
        },
        None => DEFAULT_EXTENSION_ID.to_owned(),
    }
}

// ── Candidate home directories ───────────────────────────────────────────────

/// Whether `std::path::Path` compares the two paths equal (component-wise).
pub uninterp spec fn same_path(a: Seq<char>, b: Seq<char>) -> bool;

/// Compares two paths as `std::path::Path` does (`Path::new(a) == Path::new(b)`:
/// component-wise). The result is the named [`same_path`] of the two texts.
#[verifier::external_body]
fn paths_equal(a: &str, b: &str) -> (r: bool)
    ensures
        r == same_path(a@, b@),
{
    std::path::Path::new(a) == std::path::Path::new(b)
}

/// `homes` with `path` added at the end, unless it is empty or a path equal
/// to it is already there.
pub open spec fn push_unique_path(homes: Seq<Seq<char>>, path: Seq<char>) -> Seq<Seq<char>> {
    if path.len() == 0 || exists|i: int| 0 <= i < homes.len() && same_path(homes[i], path) {
        homes
    } else {
        homes.push(path)
    }
}

/// The home of a user name, unless the name is missing, empty or `root`.
pub open spec fn user_home(user: Option<Seq<char>>) -> Option<Seq<char>> {
    match user {
        Some(u) => if u.len() == 0 || u == "root"@ {
            None
        } else {
            Some("/home/"@ + u)
        },
        None => None,
    }
}

/// `homes` with an optional path added as [`push_unique_path`] adds it.
pub open spec fn push_unique_opt(homes: Seq<Seq<char>>, path: Option<Seq<char>>) -> Seq<Seq<char>> {
    match path {
        Some(p) => push_unique_path(homes, p),
        None => homes,
    }
}

/// The candidate homes: `HOME` first, then the homes of `SUDO_USER` and
/// `USER`, each path once.
pub open spec fn candidate_homes_spec(home: Option<Seq<char>>, sudo_user: Option<Seq<char>>, user: Option<Seq<char>>) -> Seq<Seq<char>> {
    push_unique_opt(push_unique_opt(push_unique_opt(Seq::empty(), home), user_home(sudo_user)), user_home(user))
}

/// The view of an optional text.
pub open spec fn opt_view(v: Option<&str>) -> Option<Seq<char>> {
    match v {
        Some(s) => Some(s@),
        None => None,
    }
}

/// Views of a list of texts.
pub open spec fn strings_view(v: Seq<String>) -> Seq<Seq<char>> {
    v.map_values(|s: String| s@)
}

/// Adds `path` unless it is empty or already listed.
fn push_unique(homes: &mut Vec<String>, path: String)
    ensures
        strings_view(final(homes)@) == push_unique_path(strings_view(old(homes)@), path@),
{
    let ghost hv = strings_view(homes@);
    if path.unicode_len() == 0 {
        return;
    }
    let mut i: usize = 0;
    while i < homes.len()
        invariant
            i <= homes.len(),
            hv == strings_view(homes@),
            forall|j: int| 0 <= j < i ==> !same_path(hv[j], path@),
        decreases homes.len() - i,
    {
        assert(hv[i as int] == homes@[i as int]@);
        if paths_equal(homes[i].as_str(), path.as_str()) {
            return;
        }
        i += 1;
    }
    homes.push(path);
    assert(strings_view(homes@) =~= hv.push(path@));
}

/// The home of a user name, unless the name is missing, empty or `root`.
fn home_of(user: Option<&str>) -> (r: Option<String>)
    ensures
        match r {
            Some(h) => user_home(opt_view(user)) == Some(h@),
            None => user_home(opt_view(user)) is None,
        },
{
    match user {
        Some(u) => {
            proof {
                reveal_strlit("root");
            }
            let uc = str_chars(u);
            let rc = str_chars("root");
            if uc.len() == 0 || crate::text::chars_eq(uc.as_slice(), rc.as_slice()) {
                None
            } else {
                let mut out: Vec<char> = Vec::new();
                push_str(&mut out, "/home/");
                push_str(&mut out, u);
                Some(chars_string(out.as_slice()))
            }
        },
        None => None,
    }
}

/// Candidate home directories for finding the installed extension: `HOME`
/// first, then `/home/$SUDO_USER` and `/home/$USER` (skipping empty and
/// `root` user names), each path once.
pub fn candidate_homes(home: Option<&str>, sudo_user: Option<&str>, user: Option<&str>) -> (r: Vec<String>)
    ensures
        strings_view(r@) == candidate_homes_spec(opt_view(home), opt_view(sudo_user), opt_view(user)),
{
    let mut homes: Vec<String> = Vec::new();
    assert(strings_view(homes@) =~= Seq::<Seq<char>>::empty());
    if let Some(h) = home {
        push_unique(&mut homes, h.to_owned());
    }
    if let Some(p) = home_of(sudo_user) {
        push_unique(&mut homes, p);
    }
    if let Some(p) = home_of(user) {
        push_unique(&mut homes, p);
    }
    homes
}

} // verus!
