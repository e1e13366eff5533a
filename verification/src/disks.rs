//! Disk device entries for Resource Monitor, built from POSIX `df -P` output.
//!
//! Every mounted block device becomes a v2 disk entry, and a `/home` row is
//! always available (even when `/home` lives on the root filesystem).

use vstd::prelude::*;
use crate::settings::{
    devices_view, insert_field, lemma_insert_fresh, str_field, Device, JsonScalar, ScalarView,
};
use crate::text::{
    join_chars, lines, split_lines, split_words, starts_with, starts_with_exec, str_chars,
    str_eq_chars, chars_string, seq_join, trim, trim_bounds, push_range, words,
};

verus! {

/// The fields of a v2 disk entry for `filesystem` mounted at `mount_point`.
pub open spec fn disk_entry(filesystem: Seq<char>, mount_point: Seq<char>) -> Seq<(Seq<char>, ScalarView)> {
    seq![
        ("version"@, ScalarView::Int(2)),
        ("type"@, ScalarView::Str("disk"@)),
        ("device"@, ScalarView::Str(filesystem)),
        ("stableId"@, ScalarView::Str(""@)),
        ("mountPoint"@, ScalarView::Str(mount_point)),
        ("stats"@, ScalarView::Bool(false)),
        ("space"@, ScalarView::Bool(true)),
        ("displayName"@, ScalarView::Str(mount_point)),
    ]
}

/// The disk entry described by one `df -P` row, if it names a block device.
pub open spec fn df_row(line: Seq<char>) -> Option<Seq<(Seq<char>, ScalarView)>> {
    let parts = words(line);
    if parts.len() < 6 || !starts_with(parts[0], "/dev/"@) {
        None
    } else {
        Some(disk_entry(parts[0], seq_join(parts.skip(5), " "@)))
    }
}

/// The disk entries of a sequence of `df -P` rows, in order.
pub open spec fn df_rows(rows: Seq<Seq<char>>) -> Seq<Seq<(Seq<char>, ScalarView)>>
    decreases rows.len(),
{
    if rows.len() == 0 {
        Seq::empty()
    } else {
        let r = df_rows(rows.drop_last());
        match df_row(rows.last()) {
            Some(e) => r.push(e),
            None => r,
        }
    }
}

/// Result of [`parse_df_output`]: every row after the header that names a
/// block device.
pub open spec fn df_entries(output: Seq<char>) -> Seq<Seq<(Seq<char>, ScalarView)>> {
    let ls = lines(trim(output));
    if ls.len() < 2 {
        Seq::empty()
    } else {
        df_rows(ls.skip(1))
    }
}

/// The mount point recorded in a device entry.
pub open spec fn mount_point_of(d: Seq<(Seq<char>, ScalarView)>) -> Option<Seq<char>> {
    str_field(d, "mountPoint"@)
}

/// Build a Resource Monitor v2 disk device entry: `space` enabled, `stats`
/// disabled, keyed and labelled by the mount point.
pub fn build_disk_device_entry(filesystem: &str, mount_point: &str) -> (r: Device)
    ensures
        r.view() == disk_entry(filesystem@, mount_point@),
{
    proof {
        reveal_strlit("version");
        reveal_strlit("type");
        reveal_strlit("device");
        reveal_strlit("stableId");
        reveal_strlit("mountPoint");
        reveal_strlit("stats");
        reveal_strlit("space");
        reveal_strlit("displayName");
        assert("stats"@[1] != "space"@[1]);
        assert("version"@.len() == 7 && "type"@.len() == 4 && "device"@.len() == 6);
        assert("stableId"@.len() == 8 && "mountPoint"@.len() == 10 && "displayName"@.len() == 11);
        assert("stats"@.len() == 5 && "space"@.len() == 5);
    }
    let ghost e = disk_entry(filesystem@, mount_point@);
    let d0 = Device::new();
    assert(d0.view() =~= e.take(0));
    let d1 = d0.with("version", JsonScalar::Int(2));
    proof {
        assert(forall|i: int| 0 <= i < 0 ==> e.take(0)[i].0 != "version"@);
        lemma_insert_fresh(d0.view(), "version"@, ScalarView::Int(2));
        assert(d1.view() =~= e.take(1));
    }
    let d2 = d1.with("type", JsonScalar::from_str("disk"));
    proof {
        assert(forall|i: int| 0 <= i < 1 ==> e.take(1)[i].0 != "type"@);
        lemma_insert_fresh(d1.view(), "type"@, ScalarView::Str("disk"@));
        assert(d2.view() =~= e.take(2));
    }
    let d3 = d2.with("device", JsonScalar::from_str(filesystem));
    proof {
        assert(forall|i: int| 0 <= i < 2 ==> e.take(2)[i].0 != "device"@);
        lemma_insert_fresh(d2.view(), "device"@, ScalarView::Str(filesystem@));
        assert(d3.view() =~= e.take(3));
    }
    let d4 = d3.with("stableId", JsonScalar::from_str(""));
    proof {
        assert(forall|i: int| 0 <= i < 3 ==> e.take(3)[i].0 != "stableId"@);
        lemma_insert_fresh(d3.view(), "stableId"@, ScalarView::Str(""@));
        assert(d4.view() =~= e.take(4));
    }
    let d5 = d4.with("mountPoint", JsonScalar::from_str(mount_point));
    proof {
        assert(forall|i: int| 0 <= i < 4 ==> e.take(4)[i].0 != "mountPoint"@);
        lemma_insert_fresh(d4.view(), "mountPoint"@, ScalarView::Str(mount_point@));
        assert(d5.view() =~= e.take(5));
    }
    let d6 = d5.with("stats", JsonScalar::Bool(false));
    proof {
        assert(forall|i: int| 0 <= i < 5 ==> e.take(5)[i].0 != "stats"@);
        lemma_insert_fresh(d5.view(), "stats"@, ScalarView::Bool(false));
        assert(d6.view() =~= e.take(6));
    }
    let d7 = d6.with("space", JsonScalar::Bool(true));
    proof {
        assert(forall|i: int| 0 <= i < 6 ==> e.take(6)[i].0 != "space"@);
        lemma_insert_fresh(d6.view(), "space"@, ScalarView::Bool(true));
        assert(d7.view() =~= e.take(7));
    }
    let d8 = d7.with("displayName", JsonScalar::from_str(mount_point));
    proof {
        assert(forall|i: int| 0 <= i < 7 ==> e.take(7)[i].0 != "displayName"@);
        lemma_insert_fresh(d7.view(), "displayName"@, ScalarView::Str(mount_point@));
        assert(d8.view() =~= e.take(8));
    }
    assert(d8.view() =~= disk_entry(filesystem@, mount_point@));
    d8
}

/// The disk entry of one `df -P` row, if it names a block device.
fn parse_df_row(line: &[char]) -> (r: Option<Device>)
    ensures
        match df_row(line@) {
            Some(e) => r matches Some(d) && d.view() == e,
            None => r is None,
        },
{
    let parts = split_words(line);
    let ghost pv = parts@.map_values(|w: Vec<char>| w@);
    if parts.len() < 6 {
        return None;
    }
    let dev = str_chars("/dev/");
    assert(pv[0] == parts@[0]@);
    if !starts_with_exec(parts[0].as_slice(), dev.as_slice()) {
        return None;
    }
    let mut rest: Vec<Vec<char>> = Vec::new();
    let mut k: usize = 5;
    while k < parts.len()
        invariant
            5 <= k <= parts.len(),
            pv == parts@.map_values(|w: Vec<char>| w@),
            rest@.map_values(|w: Vec<char>| w@) == pv.subrange(5, k as int),
        decreases parts.len() - k,
    {
        let ghost prev = rest@.map_values(|w: Vec<char>| w@);
        let mut w: Vec<char> = Vec::new();
        push_range(&mut w, parts[k].as_slice(), 0, parts[k].len());
        assert(w@ =~= parts@[k as int]@);
        assert(pv[k as int] == parts@[k as int]@);
        rest.push(w);
        assert(rest@.map_values(|w: Vec<char>| w@) =~= prev.push(pv[k as int]));
        assert(pv.subrange(5, k + 1) =~= pv.subrange(5, k as int).push(pv[k as int]));
        k += 1;
    }
    assert(pv.subrange(5, k as int) =~= pv.skip(5));
    let mount = join_chars(rest.as_slice(), " ");
    let fs = chars_string(parts[0].as_slice());
    let mp = chars_string(mount.as_slice());
    Some(build_disk_device_entry(fs.as_str(), mp.as_str()))
}

/// Parse POSIX `df` output into Resource Monitor disk entries.
///
/// Skips the header row and any row whose first column does not start with
/// `/dev/`; a mount point containing spaces is kept whole.
pub fn parse_df_output(output: &str) -> (r: Vec<Device>)
    ensures
        devices_view(r@) == df_entries(output@),
{
    let c = str_chars(output);
    let (lo, hi) = trim_bounds(c.as_slice());
    let mut t: Vec<char> = Vec::new();
    push_range(&mut t, c.as_slice(), lo, hi);
    let ls = split_lines(t.as_slice());
    let ghost lv = ls@.map_values(|l: Vec<char>| l@);
    let mut out: Vec<Device> = Vec::new();
    if ls.len() < 2 {
        assert(devices_view(out@) =~= Seq::<Seq<(Seq<char>, ScalarView)>>::empty());
        return out;
    }
    let mut k: usize = 1;
    while k < ls.len()
        invariant
            1 <= k <= ls.len(),
            lv == ls@.map_values(|l: Vec<char>| l@),
            devices_view(out@) == df_rows(lv.subrange(1, k as int)),
        decreases ls.len() - k,
    {
        assert(lv.subrange(1, k + 1).drop_last() =~= lv.subrange(1, k as int));
        assert(lv[k as int] == ls@[k as int]@);
        let ghost prev = devices_view(out@);
        match parse_df_row(ls[k].as_slice()) {
            Some(d) => {
                out.push(d);
                assert(devices_view(out@) =~= prev.push(d.view()));
            },
            None => {},
        }
        k += 1;
    }
    assert(lv.subrange(1, k as int) =~= lv.skip(1));
    out
}

/// Whether the device's mount point is `mount_point`.
fn mounted_at(d: &Device, mount_point: &[char]) -> (r: bool)
    ensures
        r == (mount_point_of(d.view()) == Some(mount_point@)),
{
    match d.get_str("mountPoint") {
        Some(m) => str_eq_chars(m, mount_point),
        None => false,
    }
}

/// Entries whose mount point is `mount_point`.
pub open spec fn filtered_devices(ds: Seq<Seq<(Seq<char>, ScalarView)>>, mount_point: Seq<char>) -> Seq<
    Seq<(Seq<char>, ScalarView)>,
> {
    ds.filter(|d: Seq<(Seq<char>, ScalarView)>| mount_point_of(d) == Some(mount_point))
}

/// Return disk entries matching `mount_point`, or all entries for `None`.
pub fn filter_disk_devices_to_mount_point(devices: Vec<Device>, mount_point: Option<&str>) -> (r: Vec<Device>)
    ensures
        match mount_point {
            Some(mp) => devices_view(r@) == filtered_devices(devices_view(devices@), mp@),
            None => devices_view(r@) == devices_view(devices@),
        },
{
    let mp = match mount_point {
        Some(m) => m,
        None => return devices,
    };
    let mpc = str_chars(mp);
    let ghost dv = devices_view(devices@);
    let ghost pred = |d: Seq<(Seq<char>, ScalarView)>| mount_point_of(d) == Some(mp@);
    let mut out: Vec<Device> = Vec::new();
    let mut k: usize = 0;
    while k < devices.len()
        invariant
            k <= devices.len(),
            mpc@ == mp@,
            dv == devices_view(devices@),
            pred == (|d: Seq<(Seq<char>, ScalarView)>| mount_point_of(d) == Some(mp@)),
            devices_view(out@) == dv.take(k as int).filter(pred),
        decreases devices.len() - k,
    {
        assert(dv.take(k + 1).drop_last() =~= dv.take(k as int));
        reveal_with_fuel(Seq::filter, 1);
        let ghost prev = devices_view(out@);
        if mounted_at(&devices[k], mpc.as_slice()) {
            let d = devices[k].clone();
            out.push(d);
            assert(devices_view(out@) =~= prev.push(dv[k as int]));
        }
        k += 1;
    }
    assert(dv.take(k as int) =~= dv);
    out
}

/// Whether some entry is already mounted at `/home`.
pub fn has_home_mount(entries: &[Device]) -> (r: bool)
    ensures
        r == exists|i: int| 0 <= i < entries@.len() && mount_point_of(#[trigger] entries@[i].view()) == Some("/home"@),
{
    let home = str_chars("/home");
    let mut k: usize = 0;
    while k < entries.len()
        invariant
            k <= entries.len(),
            home@ == "/home"@,
            forall|i: int| 0 <= i < k ==> mount_point_of(#[trigger] entries@[i].view()) != Some("/home"@),
        decreases entries.len() - k,
    {
        if mounted_at(&entries[k], home.as_slice()) {
            return true;
        }
        k += 1;
    }
    false
}

/// The `/home` row derived from a disk entry: its mount point and label
/// become `/home`.
pub open spec fn as_home_entry(e: Seq<(Seq<char>, ScalarView)>) -> Seq<(Seq<char>, ScalarView)> {
    insert_field(insert_field(e, "mountPoint"@, ScalarView::Str("/home"@)), "displayName"@, ScalarView::Str("/home"@))
}

/// Result of [`append_home_directory_entry`].
pub open spec fn with_home_entry(
    entries: Seq<Seq<(Seq<char>, ScalarView)>>,
    home_df_output: Option<Seq<char>>,
) -> Seq<Seq<(Seq<char>, ScalarView)>> {
    if exists|i: int| 0 <= i < entries.len() && mount_point_of(#[trigger] entries[i]) == Some("/home"@) {
        entries
    } else {
        match home_df_output {
            None => entries,
            Some(out) => {
                let home = df_entries(out);
                if home.len() == 0 {
                    entries
                } else {
                    entries.push(as_home_entry(home[0]))
                }
            },
        }
    }
}

/// Append a `/home` row when `/home` is not already a separate mount.
///
/// When some entry is mounted at `/home` the list is returned unchanged.
/// Otherwise the first entry of `home_df_output` (the output of
/// `df -P /home`, `None` when that command failed) is relabelled as `/home`
/// and appended.
pub fn append_home_directory_entry(entries: Vec<Device>, home_df_output: Option<&str>) -> (r: Vec<Device>)
    ensures
        devices_view(r@) == with_home_entry(
            devices_view(entries@),
            match home_df_output {
                Some(s) => Some(s@),
                None => None,
            },
        ),
{
    let ghost ev = devices_view(entries@);
    if has_home_mount(entries.as_slice()) {
        proof {
            let i = choose|i: int| 0 <= i < entries@.len() && mount_point_of(#[trigger] entries@[i].view()) == Some("/home"@);
            assert(mount_point_of(ev[i]) == Some("/home"@));
        }
        return entries;
    }
    proof {
        assert forall|i: int| 0 <= i < ev.len() implies mount_point_of(#[trigger] ev[i]) != Some("/home"@) by {
            assert(ev[i] == entries@[i].view());
        }
    }
    let output = match home_df_output {
        Some(o) => o,
        None => return entries,
    };
    let home_entries = parse_df_output(output);
    if home_entries.len() == 0 {
        return entries;
    }
    let mut home_entry = home_entries[0].clone();
    home_entry.set_str("mountPoint", "/home");
    home_entry.set_str("displayName", "/home");
    let mut out = entries;
    out.push(home_entry);
    assert(devices_view(out@) =~= ev.push(as_home_entry(devices_view(home_entries@)[0])));
    out
}

} // verus!
