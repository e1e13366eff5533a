//! Gradient ranges shared by the colour patches, and the choice of gradient
//! for a metric.
//!
//! Each metric maps a value within `[0, max]` onto a green -> yellow -> red
//! gradient; the range constants here are interpolated into the JavaScript
//! the colour patch injects. The colour arithmetic itself is floating point
//! and lives outside the verified library.

use vstd::prelude::*;
use crate::text::{
    contains, contains_str, lemma_contains, lemma_contains_at, lemma_contains_parts, lemma_contains_trans, lemma_matches_left,
    lemma_matches_right, matches_at, str_chars,
};

verus! {

/// Maximum Ethernet/WLAN throughput for the colour gradient, in displayed Mbps.
pub const ETHERNET_MAX_MBPS: i64 = 2000;

/// Maximum RAM for the colour gradient, in GB.
pub const RAM_MAX_GB: i64 = 64;

/// Maximum disk usage percentage for the colour gradient.
pub const DISK_USAGE_MAX_PERCENT: i64 = 100;

/// Maximum GPU memory (VRAM) for the colour gradient, in GB.
pub const GPU_MEMORY_MAX_GB: i64 = 24;

/// The indicator type a gradient belongs to.
#[derive(Debug, Clone, Copy, PartialEq, Eq)]
pub enum GradientKind {
    Cpu,
    Ram,
    DiskSpace,
    Eth,
    Wlan,
    Gpu,
    GpuMemory,
}

impl GradientKind {
    /// Upper end of the gradient's range (its lower end is 0).
    pub open spec fn max_spec(self) -> int {
        match self {
            GradientKind::Cpu => 100,
            GradientKind::Ram => RAM_MAX_GB as int,
            GradientKind::DiskSpace => DISK_USAGE_MAX_PERCENT as int,
            GradientKind::Eth => ETHERNET_MAX_MBPS as int,
            GradientKind::Wlan => ETHERNET_MAX_MBPS as int,
            GradientKind::Gpu => 100,
            GradientKind::GpuMemory => GPU_MEMORY_MAX_GB as int,
        }
    }

    /// Upper end of the gradient's range (its lower end is 0).
    pub fn max_value(self) -> (r: i64)
        ensures
            r == self.max_spec(),
    {
        match self {
            GradientKind::Cpu => 100,
            GradientKind::Ram => RAM_MAX_GB,
            GradientKind::DiskSpace => DISK_USAGE_MAX_PERCENT,
            GradientKind::Eth => ETHERNET_MAX_MBPS,
            GradientKind::Wlan => ETHERNET_MAX_MBPS,
            GradientKind::Gpu => 100,
            GradientKind::GpuMemory => GPU_MEMORY_MAX_GB,
        }
    }
}

/// The gradient chosen for a joined colours string by its type markers, in
/// the injected JavaScript's priority order (`__gpuMem` before `__gpu`).
pub open spec fn gradient_for(color_str: Seq<char>) -> GradientKind {
    if contains(color_str, "__eth"@) {
        GradientKind::Eth
    } else if contains(color_str, "__wlan"@) {
        GradientKind::Wlan
    } else if contains(color_str, "__gpuMem"@) {
        GradientKind::GpuMemory
    } else if contains(color_str, "__diskSpace"@) {
        GradientKind::DiskSpace
    } else if contains(color_str, "__gpu"@) {
        GradientKind::Gpu
    } else if contains(color_str, "__ram"@) {
        GradientKind::Ram
    } else {
        GradientKind::Cpu
    }
}

/// Select the gradient for colours joined with spaces, e.g. `"#00ff00 __cpu"`.
///
/// The injected JavaScript first compares the colours by object identity;
/// that check has no counterpart here, so this is the marker fallback chain,
/// in the same priority order.
pub fn select_gradient_kind(color_str: &str) -> (r: GradientKind)
    ensures
        r == gradient_for(color_str@),
{
    let c = str_chars(color_str);
    if contains_str(c.as_slice(), "__eth") {
        GradientKind::Eth
    } else if contains_str(c.as_slice(), "__wlan") {
        GradientKind::Wlan
    } else if contains_str(c.as_slice(), "__gpuMem") {
        GradientKind::GpuMemory
    } else if contains_str(c.as_slice(), "__diskSpace") {
        GradientKind::DiskSpace
    } else if contains_str(c.as_slice(), "__gpu") {
        GradientKind::Gpu
    } else if contains_str(c.as_slice(), "__ram") {
        GradientKind::Ram
    } else {
        GradientKind::Cpu
    }
}

// ── Laws ─────────────────────────────────────────────────────────────────────

/// `__gpuMem` holds `__gpu`, so a text without `__gpu` has no `__gpuMem`.
proof fn lemma_gpu_memory_marker_holds_gpu_marker(s: Seq<char>)
    ensures
        contains(s, "__gpuMem"@) ==> contains(s, "__gpu"@),
{
    reveal_strlit("__gpuMem");
    reveal_strlit("__gpu");
    assert("__gpuMem"@.subrange(0, 5) =~= "__gpu"@);
    lemma_contains_at("__gpuMem"@, "__gpu"@, 0);
    if contains(s, "__gpuMem"@) {
        lemma_contains_trans(s, "__gpuMem"@, "__gpu"@);
    }
}

/// The gradient follows the type markers wherever they stand in the joined
/// colours: `__eth` picks the Ethernet range, then `__wlan` the WLAN range,
/// `__gpuMem` the VRAM range, `__diskSpace` the disk range, `__gpu` the GPU
/// range, and `__ram` the RAM range (0..64 GB) when none of the others is
/// present; with no marker at all the CPU range is used.
pub proof fn lemma_gradient_follows_markers(s: Seq<char>)
    ensures
        contains(s, "__eth"@) ==> gradient_for(s) == GradientKind::Eth,
        !contains(s, "__eth"@) && contains(s, "__wlan"@) ==> gradient_for(s) == GradientKind::Wlan,
        !contains(s, "__eth"@) && !contains(s, "__wlan"@) && contains(s, "__gpuMem"@) ==> gradient_for(s)
            == GradientKind::GpuMemory,
        !contains(s, "__eth"@) && !contains(s, "__wlan"@) && !contains(s, "__gpuMem"@) && contains(s, "__diskSpace"@)
            ==> gradient_for(s) == GradientKind::DiskSpace,
        !contains(s, "__eth"@) && !contains(s, "__wlan"@) && !contains(s, "__gpuMem"@) && !contains(s, "__diskSpace"@)
            && contains(s, "__gpu"@) ==> gradient_for(s) == GradientKind::Gpu,
        contains(s, "__ram"@) && !contains(s, "__eth"@) && !contains(s, "__wlan"@) && !contains(s, "__gpu"@) && !contains(
            s,
            "__diskSpace"@,
        ) ==> gradient_for(s) == GradientKind::Ram && gradient_for(s).max_spec() == 64,
        !contains(s, "__ram"@) && !contains(s, "__eth"@) && !contains(s, "__wlan"@) && !contains(s, "__gpu"@) && !contains(
            s,
            "__diskSpace"@,
        ) ==> gradient_for(s) == GradientKind::Cpu && gradient_for(s).max_spec() == 100,
{
    lemma_gpu_memory_marker_holds_gpu_marker(s);
}

/// A marker of `tail`'s kind cannot start before the space that opens
/// `tail` and run into it.
proof fn lemma_marker_not_across(s: Seq<char>, tail: Seq<char>, mk: Seq<char>)
    requires
        tail.len() > 0,
        tail[0] == ' ',
        forall|j: int| 0 <= j < mk.len() ==> #[trigger] mk[j] != ' ',
        !contains(s, mk),
        !contains(tail, mk),
    ensures
        !contains(s + tail, mk),
{
    let x = s + tail;
    assert forall|p: int| 0 <= p implies !#[trigger] matches_at(x, mk, p) by {
        if matches_at(x, mk, p) {
            if p + mk.len() <= s.len() {
                lemma_matches_left(s, tail, mk, p);
                lemma_contains_at(s, mk, p);
            } else if p >= s.len() {
                lemma_matches_right(s, tail, mk, p - s.len());
                lemma_contains_at(tail, mk, p - s.len());
            } else {
                assert(x.subrange(p, p + mk.len())[s.len() - p] == x[s.len() as int]);
            }
        }
    }
    lemma_contains(x, mk);
}

/// Appending the RAM marker to any colours free of type markers selects the
/// RAM gradient: the marker need not stand first.
pub proof fn lemma_appended_ram_marker_selects_ram(s: Seq<char>)
    requires
        !contains(s, "__eth"@),
        !contains(s, "__wlan"@),
        !contains(s, "__gpu"@),
        !contains(s, "__diskSpace"@),
    ensures
        gradient_for(s + " __ram"@) == GradientKind::Ram,
{
    reveal_strlit(" __ram");
    reveal_strlit("__ram");
    reveal_strlit("__eth");
    reveal_strlit("__wlan");
    reveal_strlit("__gpu");
    reveal_strlit("__diskSpace");
    let tail = " __ram"@;
    assert(tail.subrange(1, 6) =~= "__ram"@);
    lemma_contains_at(tail, "__ram"@, 1);
    lemma_contains_parts(s, tail);
    lemma_contains_trans(s + tail, tail, "__ram"@);
    assert forall|p: int| 0 <= p implies !#[trigger] matches_at(tail, "__eth"@, p) by {
        if matches_at(tail, "__eth"@, p) {
            assert(tail.subrange(p, p + 5)[2] == "__eth"@[2]);
        }
    }
    lemma_contains(tail, "__eth"@);
    assert forall|p: int| 0 <= p implies !#[trigger] matches_at(tail, "__gpu"@, p) by {
        if matches_at(tail, "__gpu"@, p) {
            assert(tail.subrange(p, p + 5)[2] == "__gpu"@[2]);
        }
    }
    lemma_contains(tail, "__gpu"@);
    assert forall|p: int| 0 <= p implies !#[trigger] matches_at(tail, "__wlan"@, p) by {
        if matches_at(tail, "__wlan"@, p) {
            assert(tail.subrange(p, p + 6)[0] == "__wlan"@[0]);
        }
    }
    lemma_contains(tail, "__wlan"@);
    assert forall|p: int| 0 <= p implies !#[trigger] matches_at(tail, "__diskSpace"@, p) by {
        assert("__diskSpace"@.len() > tail.len());
    }
    lemma_contains(tail, "__diskSpace"@);
    lemma_marker_not_across(s, tail, "__eth"@);
    lemma_marker_not_across(s, tail, "__wlan"@);
    lemma_marker_not_across(s, tail, "__gpu"@);
    lemma_marker_not_across(s, tail, "__diskSpace"@);
    lemma_gradient_follows_markers(s + tail);
}

} // verus!
