//! GPU device entries from `nvidia-smi -L` output.

use vstd::prelude::*;
use crate::regex_calls::{regex_captures_two, regex_two_groups};
use crate::settings::{devices_view, lemma_insert_fresh, Device, JsonScalar, ScalarView};
use crate::text::{chars_string, lines, push_range, split_lines, str_chars, trim, trim_bounds};

verus! {

/// Pattern of one `nvidia-smi -L` line: `GPU <N>: <Name> (UUID: <uuid>)`.
pub const GPU_LINE_PATTERN: &'static str = r"GPU\s+\d+:\s+(.*?)\s+\(UUID:\s+([^)]+)\)";

/// The fields of a v2 GPU entry.
pub open spec fn gpu_entry(name: Seq<char>, uuid: Seq<char>) -> Seq<(Seq<char>, ScalarView)> {
    seq![
        ("version"@, ScalarView::Int(2)),
        ("type"@, ScalarView::Str("gpu"@)),
        ("device"@, ScalarView::Str(uuid)),
        ("name"@, ScalarView::Str(name)),
        ("usage"@, ScalarView::Bool(true)),
        ("memory"@, ScalarView::Bool(true)),
        ("displayName"@, ScalarView::Str(""@)),
    ]
}

/// The GPU entries of a sequence of lines, in order; a line the pattern does
/// not match is skipped.
pub open spec fn gpu_rows(ls: Seq<Seq<char>>) -> Seq<Seq<(Seq<char>, ScalarView)>>
    decreases ls.len(),
{
    if ls.len() == 0 {
        Seq::empty()
    } else {
        let r = gpu_rows(ls.drop_last());
        match regex_two_groups(GPU_LINE_PATTERN@, trim(ls.last())) {
            Some((name, uuid)) => r.push(gpu_entry(name, uuid)),
            None => r,
        }
    }
}

/// A v2 GPU entry for the device with `uuid` called `name`.
fn gpu_device(name: &str, uuid: &str) -> (r: Device)
    ensures
        r.view() == gpu_entry(name@, uuid@),
{
    proof {
        reveal_strlit("version");
        reveal_strlit("type");
        reveal_strlit("device");
        reveal_strlit("name");
        reveal_strlit("usage");
        reveal_strlit("memory");
        reveal_strlit("displayName");
        assert("version"@.len() == 7 && "type"@.len() == 4 && "device"@.len() == 6);
        assert("name"@.len() == 4 && "usage"@.len() == 5 && "memory"@.len() == 6);
        assert("displayName"@.len() == 11);
        assert("type"@[0] != "name"@[0]);
        assert("device"@[0] != "memory"@[0]);
    }
    let ghost e = gpu_entry(name@, uuid@);
    let d0 = Device::new();
    assert(d0.view() =~= e.take(0));
    let d1 = d0.with("version", JsonScalar::Int(2));
    proof {
        lemma_insert_fresh(d0.view(), "version"@, ScalarView::Int(2));
        assert(d1.view() =~= e.take(1));
    }
    let d2 = d1.with("type", JsonScalar::from_str("gpu"));
    proof {
        assert(forall|i: int| 0 <= i < 1 ==> e.take(1)[i].0 != "type"@);
        lemma_insert_fresh(d1.view(), "type"@, ScalarView::Str("gpu"@));
        assert(d2.view() =~= e.take(2));
    }
    let d3 = d2.with("device", JsonScalar::from_str(uuid));
    proof {
        assert(forall|i: int| 0 <= i < 2 ==> e.take(2)[i].0 != "device"@);
        lemma_insert_fresh(d2.view(), "device"@, ScalarView::Str(uuid@));
        assert(d3.view() =~= e.take(3));
    }
    let d4 = d3.with("name", JsonScalar::from_str(name));
    proof {
        assert(forall|i: int| 0 <= i < 3 ==> e.take(3)[i].0 != "name"@);
        lemma_insert_fresh(d3.view(), "name"@, ScalarView::Str(name@));
        assert(d4.view() =~= e.take(4));
    }
    let d5 = d4.with("usage", JsonScalar::Bool(true));
    proof {
        assert(forall|i: int| 0 <= i < 4 ==> e.take(4)[i].0 != "usage"@);
        lemma_insert_fresh(d4.view(), "usage"@, ScalarView::Bool(true));
        assert(d5.view() =~= e.take(5));
    }
    let d6 = d5.with("memory", JsonScalar::Bool(true));
    proof {
        assert(forall|i: int| 0 <= i < 5 ==> e.take(5)[i].0 != "memory"@);
        lemma_insert_fresh(d5.view(), "memory"@, ScalarView::Bool(true));
        assert(d6.view() =~= e.take(6));
    }
    let d7 = d6.with("displayName", JsonScalar::from_str(""));
    proof {
        assert(forall|i: int| 0 <= i < 6 ==> e.take(6)[i].0 != "displayName"@);
        lemma_insert_fresh(d6.view(), "displayName"@, ScalarView::Str(""@));
        assert(d7.view() =~= e.take(7));
    }
    assert(d7.view() =~= e);
    d7
}

/// Parse `nvidia-smi -L` output into Resource Monitor GPU device entries.
///
/// Each line (trimmed) is matched against [`GPU_LINE_PATTERN`]; lines that
/// do not match are skipped.
pub fn parse_gpu_output(output: &str) -> (r: Vec<Device>)
    ensures
        devices_view(r@) == gpu_rows(lines(output@)),
{
    let c = str_chars(output);
    let ls = split_lines(c.as_slice());
    let ghost lv = ls@.map_values(|l: Vec<char>| l@);
    let mut out: Vec<Device> = Vec::new();
    let mut k: usize = 0;
    while k < ls.len()
        invariant
            k <= ls.len(),
            lv == ls@.map_values(|l: Vec<char>| l@),
            devices_view(out@) == gpu_rows(lv.take(k as int)),
        decreases ls.len() - k,
    {
        assert(lv.take(k + 1).drop_last() =~= lv.take(k as int));
        assert(lv[k as int] == ls@[k as int]@);
        let (lo, hi) = trim_bounds(ls[k].as_slice());
        let mut t: Vec<char> = Vec::new();
        push_range(&mut t, ls[k].as_slice(), lo, hi);
        let line = chars_string(t.as_slice());
        let ghost prev = devices_view(out@);
        match regex_captures_two(GPU_LINE_PATTERN, line.as_str()) {
            Some((name, uuid)) => {
                let d = gpu_device(name.as_str(), uuid.as_str());
                out.push(d);
                assert(devices_view(out@) =~= prev.push(d.view()));
            },
            None => {},
        }
        k += 1;
    }
    assert(lv.take(k as int) =~= lv);
    out
}

} // verus!
