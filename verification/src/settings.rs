//! Resource Monitor device entries and the `gsettings set` commands that
//! configure the extension.
//!
//! Device entries serialize byte-compatibly with Python's
//! `repr(json.dumps(device))`: keys in insertion order, `", "` between items
//! and `": "` between a key and its value.

use vstd::prelude::*;
use crate::disks::{filter_disk_devices_to_mount_point, filtered_devices};
use crate::text::{
    chars_eq, chars_string, contains, lemma_join_step, push_all, push_str, seq_join, str_chars, strings_view,
};

verus! {

/// A lowercase hexadecimal digit.
pub open spec fn hex_digit(d: int) -> char {
    if d < 10 {
        ('0' as int + d) as char
    } else {
        ('a' as int + d - 10) as char
    }
}

/// How serde_json writes one character inside a string literal: `"` and `\`
/// are backslash-escaped, the five named controls use their short escapes,
/// the other characters below U+0020 become `\u00XX` with lowercase hex
/// digits, and everything else is written as is.
pub open spec fn json_escape_char(c: char) -> Seq<char> {
    if c == '"' {
        seq!['\\', '"']
    } else if c == '\\' {
        seq!['\\', '\\']
    } else if c == '\u{8}' {
        seq!['\\', 'b']
    } else if c == '\t' {
        seq!['\\', 't']
    } else if c == '\n' {
        seq!['\\', 'n']
    } else if c == '\u{c}' {
        seq!['\\', 'f']
    } else if c == '\r' {
        seq!['\\', 'r']
    } else if (c as u32) < 0x20 {
        seq!['\\', 'u', '0', '0', hex_digit((c as int) / 16), hex_digit((c as int) % 16)]
    } else {
        seq![c]
    }
}

/// The characters of `text`, each written as [`json_escape_char`] writes it.
pub open spec fn json_escaped(text: Seq<char>) -> Seq<char>
    decreases text.len(),
{
    if text.len() == 0 {
        Seq::empty()
    } else {
        json_escape_char(text[0]) + json_escaped(text.drop_first())
    }
}

/// The JSON string literal serde_json writes for `text`: the escaped
/// characters between double quotes.
pub open spec fn json_string_literal(text: Seq<char>) -> Seq<char> {
    seq!['"'] + json_escaped(text) + seq!['"']
}

/// Calls `serde_json::to_string(text)`: per serde_json's string writer
/// (`format_escaped_str` and its `ESCAPE` table), the text between double
/// quotes with the escapes of [`json_escape_char`]. Serializing a `str` into
/// memory has no failure path (`to_string` writes into a `Vec`, whose writes
/// cannot fail), so the error arm is never taken.
#[verifier::external_body]
fn json_string(text: &str) -> (r: String)
    ensures
        r@ == json_string_literal(text@),
{
    match serde_json::to_string(text) {
        Ok(s) => s,
        Err(_) => String::new(),
    }
}

/// A JSON scalar stored in a device entry.
#[derive(Debug, PartialEq, Eq)]
pub enum JsonScalar {
    Int(i64),
    Str(String),
    Bool(bool),
}

/// Mathematical value of a [`JsonScalar`].
pub enum ScalarView {
    Int(int),
    Str(Seq<char>),
    Bool(bool),
}

impl JsonScalar {
    pub open spec fn view(&self) -> ScalarView {
        match self {
            JsonScalar::Int(n) => ScalarView::Int(*n as int),
            JsonScalar::Str(s) => ScalarView::Str(s@),
            JsonScalar::Bool(b) => ScalarView::Bool(*b),
        }
    }

    /// A string value.
    pub fn from_str(s: &str) -> (r: JsonScalar)
        ensures
            r.view() == ScalarView::Str(s@),
    {
        JsonScalar::Str(s.to_owned())
    }
}

impl Clone for JsonScalar {
    fn clone(&self) -> (r: Self)
        ensures
            r.view() == self.view(),
    {
        match self {
            JsonScalar::Int(n) => JsonScalar::Int(*n),
            JsonScalar::Str(s) => JsonScalar::Str(s.clone()),
            JsonScalar::Bool(b) => JsonScalar::Bool(*b),
        }
    }
}

/// A Resource Monitor GPU or disk device entry: an ordered JSON object whose
/// keys are distinct, serialized like Python's `json.dumps`.
#[derive(Debug, PartialEq, Eq)]
pub struct Device {
    fields: Vec<(String, JsonScalar)>,
}

/// The key/value pairs of a device, in insertion order.
pub open spec fn fields_view(fields: Seq<(String, JsonScalar)>) -> Seq<(Seq<char>, ScalarView)> {
    fields.map_values(|f: (String, JsonScalar)| (f.0@, f.1.view()))
}

/// Keys occur at most once.
pub open spec fn distinct_keys(fs: Seq<(Seq<char>, ScalarView)>) -> bool {
    forall|i: int, j: int| 0 <= i < j < fs.len() ==> fs[i].0 != fs[j].0
}

/// Position of `key` among the fields.
pub open spec fn key_index(fs: Seq<(Seq<char>, ScalarView)>, key: Seq<char>) -> Option<int> {
    if exists|i: int| 0 <= i < fs.len() && fs[i].0 == key {
        Some(choose|i: int| 0 <= i < fs.len() && fs[i].0 == key)
    } else {
        None
    }
}

/// The fields after setting `key` to `val`: an existing key keeps its
/// position and takes the new value; a new key is appended.
pub open spec fn insert_field(fs: Seq<(Seq<char>, ScalarView)>, key: Seq<char>, val: ScalarView) -> Seq<
    (Seq<char>, ScalarView),
> {
    match key_index(fs, key) {
        Some(i) => fs.update(i, (key, val)),
        None => fs.push((key, val)),
    }
}

/// The string value stored under `key`, if any.
pub open spec fn str_field(fs: Seq<(Seq<char>, ScalarView)>, key: Seq<char>) -> Option<Seq<char>> {
    match key_index(fs, key) {
        Some(i) => match fs[i].1 {
            ScalarView::Str(s) => Some(s),
            _ => None,
        },
        None => None,
    }
}

/// The views of a sequence of devices.
pub open spec fn devices_view(ds: Seq<Device>) -> Seq<Seq<(Seq<char>, ScalarView)>> {
    ds.map_values(|d: Device| d.view())
}

/// Setting a key that is not yet present appends it.
pub proof fn lemma_insert_fresh(fs: Seq<(Seq<char>, ScalarView)>, key: Seq<char>, val: ScalarView)
    requires
        forall|i: int| 0 <= i < fs.len() ==> fs[i].0 != key,
    ensures
        insert_field(fs, key, val) == fs.push((key, val)),
{
}

/// Setting a key found at `i` (keys distinct) overwrites position `i`.
pub proof fn lemma_insert_existing(fs: Seq<(Seq<char>, ScalarView)>, key: Seq<char>, val: ScalarView, i: int)
    requires
        distinct_keys(fs),
        0 <= i < fs.len(),
        fs[i].0 == key,
    ensures
        insert_field(fs, key, val) == fs.update(i, (key, val)),
        key_index(fs, key) == Some(i),
{
    let c = choose|j: int| 0 <= j < fs.len() && fs[j].0 == key;
    if c != i {
        if c < i {
            assert(fs[c].0 != fs[i].0);
        } else {
            assert(fs[i].0 != fs[c].0);
        }
    }
}

/// Decimal text of an integer.
pub open spec fn decimal(n: int) -> Seq<char>
    decreases (if n < 0 { -n + 1 } else { n }),
{
    if n < 0 {
        seq!['-'] + decimal(-n)
    } else if n < 10 {
        seq![digit_char(n)]
    } else {
        decimal(n / 10) + seq![digit_char(n % 10)]
    }
}

/// The character of a decimal digit.
pub open spec fn digit_char(d: int) -> char {
    (d + 48) as char
}

/// JSON text of a scalar.
pub open spec fn scalar_json(v: ScalarView) -> Seq<char> {
    match v {
        ScalarView::Int(n) => decimal(n),
        ScalarView::Str(s) => json_string_literal(s),
        ScalarView::Bool(b) => if b {
            "true"@
        } else {
            "false"@
        },
    }
}

/// JSON text of one `key: value` member.
pub open spec fn member_json(f: (Seq<char>, ScalarView)) -> Seq<char> {
    json_string_literal(f.0) + ": "@ + scalar_json(f.1)
}

/// JSON object text with Python's `json.dumps` separators.
pub open spec fn object_json(fs: Seq<(Seq<char>, ScalarView)>) -> Seq<char> {
    "{"@ + seq_join(fs.map_values(|f: (Seq<char>, ScalarView)| member_json(f)), ", "@) + "}"@
}

impl Device {
    pub closed spec fn view(&self) -> Seq<(Seq<char>, ScalarView)> {
        fields_view(self.fields@)
    }

    #[verifier::type_invariant]
    spec fn inv(&self) -> bool {
        distinct_keys(self.view())
    }

    /// Create an empty device entry.
    pub fn new() -> (r: Self)
        ensures
            r.view() == Seq::<(Seq<char>, ScalarView)>::empty(),
    {
        let d = Device { fields: Vec::new() };
        assert(d.view() =~= Seq::<(Seq<char>, ScalarView)>::empty());
        d
    }

    /// Position of `key` among the fields.
    fn position(&self, key: &str) -> (r: Option<usize>)
        ensures
            match r {
                Some(i) => i < self.view().len() && self.view()[i as int].0 == key@,
                None => forall|i: int| 0 <= i < self.view().len() ==> self.view()[i].0 != key@,
            },
    {
        let kc = str_chars(key);
        let mut k: usize = 0;
        while k < self.fields.len()
            invariant
                k <= self.fields.len(),
                self.view().len() == self.fields.len(),
                kc@ == key@,
                forall|i: int| 0 <= i < k ==> self.view()[i].0 != key@,
            decreases self.fields.len() - k,
        {
            let name = str_chars(self.fields[k].0.as_str());
            if chars_eq(name.as_slice(), kc.as_slice()) {
                return Some(k);
            }
            k += 1;
        }
        None
    }

    /// Set a field: an existing key keeps its position and takes the new
    /// value, a new key is appended.
    fn insert(&mut self, key: &str, value: JsonScalar)
        ensures
            final(self).view() == insert_field(old(self).view(), key@, value.view()),
    {
        proof {
            use_type_invariant(&*self);
        }
        let ghost fs = self.view();
        let pos = self.position(key);
        match pos {
            Some(i) => {
                proof {
                    assert(exists|j: int| 0 <= j < fs.len() && fs[j].0 == key@);
                    let c = choose|j: int| 0 <= j < fs.len() && fs[j].0 == key@;
                    if c != i as int {
                        if c < i {
                            assert(fs[c].0 != fs[i as int].0);
                        } else {
                            assert(fs[i as int].0 != fs[c].0);
                        }
                    }
                }
                let mut fields: Vec<(String, JsonScalar)> = Vec::new();
                std::mem::swap(&mut fields, &mut self.fields);
                fields.set(i, (key.to_owned(), value));
                assert(fields_view(fields@) =~= fs.update(i as int, (key@, value.view())));
                self.fields = fields;
            },
            None => {
                let mut fields: Vec<(String, JsonScalar)> = Vec::new();
                std::mem::swap(&mut fields, &mut self.fields);
                fields.push((key.to_owned(), value));
                assert(fields_view(fields@) =~= fs.push((key@, value.view())));
                self.fields = fields;
            },
        }
    }

    /// Append (or overwrite) a field, preserving insertion order.
    pub fn with(self, key: &str, value: JsonScalar) -> (r: Self)
        ensures
            r.view() == insert_field(self.view(), key@, value.view()),
    {
        let mut d = self;
        d.insert(key, value);
        d
    }

    /// Read a string field, or `None` when absent or not a string.
    pub fn get_str(&self, key: &str) -> (r: Option<&str>)
        ensures
            match str_field(self.view(), key@) {
                Some(s) => r matches Some(x) && x@ == s,
                None => r is None,
            },
    {
        proof {
            use_type_invariant(self);
        }
        let ghost fs = self.view();
        match self.position(key) {
            Some(i) => {
                proof {
                    let c = choose|j: int| 0 <= j < fs.len() && fs[j].0 == key@;
                    if c != i as int {
                        if c < i {
                            assert(fs[c].0 != fs[i as int].0);
                        } else {
                            assert(fs[i as int].0 != fs[c].0);
                        }
                    }
                }
                match &self.fields[i].1 {
                    JsonScalar::Str(s) => Some(s.as_str()),
                    _ => None,
                }
            },
            None => None,
        }
    }

    /// Overwrite (or add) a string field in place.
    pub fn set_str(&mut self, key: &str, value: &str)
        ensures
            final(self).view() == insert_field(old(self).view(), key@, ScalarView::Str(value@)),
    {
        self.insert(key, JsonScalar::from_str(value));
    }

    /// Serialize as a JSON object using Python's `json.dumps` separators.
    pub fn to_json(&self) -> (r: String)
        ensures
            r@ == object_json(self.view()),
    {
        let ghost fs = self.view();
        let ghost parts = fs.map_values(|f: (Seq<char>, ScalarView)| member_json(f));
        let mut out: Vec<char> = Vec::new();
        let mut k: usize = 0;
        while k < self.fields.len()
            invariant
                k <= self.fields.len(),
                fs == self.view(),
                fs.len() == self.fields.len(),
                parts == fs.map_values(|f: (Seq<char>, ScalarView)| member_json(f)),
                out@ == seq_join(parts.take(k as int), ", "@),
            decreases self.fields.len() - k,
        {
            proof {
                lemma_join_step(parts, ", "@, k as int);
            }
            if k > 0 {
                push_str(&mut out, ", ");
            }
            let key_json = json_string(self.fields[k].0.as_str());
            push_str(&mut out, key_json.as_str());
            push_str(&mut out, ": ");
            let val = scalar_json_exec(&self.fields[k].1);
            push_all(&mut out, val.as_slice());
            k += 1;
        }
        assert(parts.take(k as int) =~= parts);
        let mut res: Vec<char> = Vec::new();
        push_str(&mut res, "{");
        push_all(&mut res, out.as_slice());
        push_str(&mut res, "}");
        chars_string(res.as_slice())
    }
}

impl Clone for Device {
    fn clone(&self) -> (r: Self)
        ensures
            r.view() == self.view(),
    {
        proof {
            use_type_invariant(self);
        }
        let ghost fs = self.view();
        let mut fields: Vec<(String, JsonScalar)> = Vec::new();
        let mut k: usize = 0;
        while k < self.fields.len()
            invariant
                k <= self.fields.len(),
                fs == self.view(),
                fs.len() == self.fields.len(),
                fields_view(fields@) == fs.take(k as int),
            decreases self.fields.len() - k,
        {
            let name = self.fields[k].0.clone();
            let val = self.fields[k].1.clone();
            assert(fs[k as int] == (self.fields@[k as int].0@, self.fields@[k as int].1.view()));
            assert(name@ == self.fields@[k as int].0@);
            let ghost prev = fields_view(fields@);
            fields.push((name, val));
            assert(fields_view(fields@) =~= prev.push(fs[k as int]));
            assert(fs.take(k + 1) =~= fs.take(k as int).push(fs[k as int]));
            k += 1;
        }
        assert(fs.take(k as int) =~= fs);
        Device { fields }
    }
}

/// JSON text of a scalar.
fn scalar_json_exec(v: &JsonScalar) -> (r: Vec<char>)
    ensures
        r@ == scalar_json(v.view()),
{
    match v {
        JsonScalar::Int(n) => decimal_exec(*n),
        JsonScalar::Str(s) => {
            let j = json_string(s.as_str());
            str_chars(j.as_str())
        },
        JsonScalar::Bool(b) => if *b {
            str_chars("true")
        } else {
            str_chars("false")
        },
    }
}

/// Decimal text of a non-negative integer.
fn decimal_u64(n: u64) -> (r: Vec<char>)
    ensures
        r@ == decimal(n as int),
    decreases n,
{
    if n < 10 {
        let mut v: Vec<char> = Vec::new();
        v.push(digit_exec(n));
        assert(v@ =~= seq![digit_char(n as int)]);
        v
    } else {
        let mut v = decimal_u64(n / 10);
        v.push(digit_exec(n % 10));
        v
    }
}

/// The character of a decimal digit.
fn digit_exec(d: u64) -> (r: char)
    requires
        d < 10,
    ensures
        r == digit_char(d as int),
{
    if d == 0 { '0' } else if d == 1 { '1' } else if d == 2 { '2' } else if d == 3 { '3' } else if d
        == 4 { '4' } else if d == 5 { '5' } else if d == 6 { '6' } else if d == 7 { '7' } else if d
        == 8 { '8' } else { '9' }
}

/// Decimal text of an integer (as `i64`'s `Display` prints it).
pub fn decimal_exec(n: i64) -> (r: Vec<char>)
    ensures
        r@ == decimal(n as int),
{
    if n < 0 {
        let m: u64 = if n == i64::MIN {
            9223372036854775808u64
        } else {
            (-n) as u64
        };
        let mut v: Vec<char> = Vec::new();
        v.push('-');
        let d = decimal_u64(m);
        push_all(&mut v, d.as_slice());
        v
    } else {
        decimal_u64(n as u64)
    }
}

/// Python `repr` of a string: the quote character it picks.
pub open spec fn repr_quote(text: Seq<char>) -> char {
    if text.contains('\'') && !text.contains('"') {
        '"'
    } else {
        '\''
    }
}

/// Python `repr` of a string: the escaped body for quote `q`.
pub open spec fn repr_body(text: Seq<char>, q: char) -> Seq<char>
    decreases text.len(),
{
    if text.len() == 0 {
        Seq::empty()
    } else {
        repr_body(text.drop_last(), q) + repr_char(text.last(), q)
    }
}

/// Python `repr` of one character inside quote `q`.
pub open spec fn repr_char(c: char, q: char) -> Seq<char> {
    if c == '\\' {
        seq!['\\', '\\']
    } else if c == '\n' {
        seq!['\\', 'n']
    } else if c == '\r' {
        seq!['\\', 'r']
    } else if c == '\t' {
        seq!['\\', 't']
    } else if c == q {
        seq!['\\', c]
    } else {
        seq![c]
    }
}

/// Python `repr` of a string.
pub open spec fn repr(text: Seq<char>) -> Seq<char> {
    let q = repr_quote(text);
    seq![q] + repr_body(text, q) + seq![q]
}

/// Whether `c` occurs in `v`.
fn has_char(v: &[char], c: char) -> (r: bool)
    ensures
        r == v@.contains(c),
{
    let mut k: usize = 0;
    while k < v.len()
        invariant
            k <= v.len(),
            forall|j: int| 0 <= j < k ==> v@[j] != c,
        decreases v.len() - k,
    {
        if v[k] == c {
            return true;
        }
        k += 1;
    }
    false
}

/// Render a string the way Python's `repr()` does.
///
/// Prefers single quotes, switching to double quotes only when the text
/// contains a single quote but no double quote, as CPython does.
pub fn python_repr(text: &str) -> (r: String)
    ensures
        r@ == repr(text@),
{
    let c = str_chars(text);
    let quote = if has_char(c.as_slice(), '\'') && !has_char(c.as_slice(), '"') {
        '"'
    } else {
        '\''
    };
    let mut out: Vec<char> = Vec::new();
    out.push(quote);
    let mut k: usize = 0;
    while k < c.len()
        invariant
            k <= c.len(),
            quote == repr_quote(c@),
            out@ == seq![quote] + repr_body(c@.take(k as int), quote),
        decreases c.len() - k,
    {
        assert(c@.take(k + 1).drop_last() =~= c@.take(k as int));
        let ch = c[k];
        if ch == '\\' {
            out.push('\\');
            out.push('\\');
        } else if ch == '\n' {
            out.push('\\');
            out.push('n');
        } else if ch == '\r' {
            out.push('\\');
            out.push('r');
        } else if ch == '\t' {
            out.push('\\');
            out.push('t');
        } else if ch == quote {
            out.push('\\');
            out.push(ch);
        } else {
            out.push(ch);
        }
        k += 1;
        assert(out@ =~= seq![quote] + repr_body(c@.take(k as int), quote));
    }
    out.push(quote);
    assert(c@.take(k as int) =~= c@);
    chars_string(out.as_slice())
}

/// Result of [`format_gsettings_list`] for devices with the given views.
pub open spec fn gsettings_list(devices: Seq<Seq<(Seq<char>, ScalarView)>>) -> Seq<char> {
    if devices.len() == 0 {
        "[]"@
    } else {
        "["@ + seq_join(devices.map_values(|d: Seq<(Seq<char>, ScalarView)>| repr(object_json(d))), ", "@) + "]"@
    }
}

/// Format device entries as a GSettings array of JSON strings (`"[]"` when
/// there are none).
pub fn format_gsettings_list(devices: &[Device]) -> (r: String)
    ensures
        r@ == gsettings_list(devices_view(devices@)),
{
    if devices.len() == 0 {
        return "[]".to_owned();
    }
    let ghost parts = devices_view(devices@).map_values(
        |d: Seq<(Seq<char>, ScalarView)>| repr(object_json(d)),
    );
    let mut out: Vec<char> = Vec::new();
    let mut k: usize = 0;
    while k < devices.len()
        invariant
            k <= devices.len(),
            parts == devices_view(devices@).map_values(
                |d: Seq<(Seq<char>, ScalarView)>| repr(object_json(d)),
            ),
            parts.len() == devices.len(),
            out@ == seq_join(parts.take(k as int), ", "@),
        decreases devices.len() - k,
    {
        proof {
            lemma_join_step(parts, ", "@, k as int);
        }
        if k > 0 {
            push_str(&mut out, ", ");
        }
        let j = devices[k].to_json();
        let q = python_repr(j.as_str());
        push_str(&mut out, q.as_str());
        k += 1;
    }
    assert(parts.take(k as int) =~= parts);
    let mut res: Vec<char> = Vec::new();
    push_str(&mut res, "[");
    push_all(&mut res, out.as_slice());
    push_str(&mut res, "]");
    chars_string(res.as_slice())
}

/// Requested Resource Monitor display mode.
#[derive(Debug, Clone, Copy, PartialEq, Eq)]
pub struct DisplayMode {
    /// Display GPU memory as a percentage instead of numeric GB.
    pub gpu_memory_perc: bool,
    /// Display free disk space in numeric GB.
    pub disk_space_gb: bool,
    /// Legacy alias for `disk_space_gb`, kept as a compatibility surface.
    pub disk_space_perc: bool,
    /// Display only `/home` usage percentage.
    pub disk_space_perc_home_only: bool,
}

impl Default for DisplayMode {
    fn default() -> (r: Self)
        ensures
            !r.gpu_memory_perc && !r.disk_space_gb && !r.disk_space_perc && !r.disk_space_perc_home_only,
    {
        DisplayMode {
            gpu_memory_perc: false,
            disk_space_gb: false,
            disk_space_perc: false,
            disk_space_perc_home_only: false,
        }
    }
}


/// One `gsettings --schemadir <ext_dir> set <schema> <key> <value>` command.
pub open spec fn set_command(ext_dir: Seq<char>, schema: Seq<char>, key: Seq<char>, value: Seq<char>) -> Seq<
    Seq<char>,
> {
    seq!["gsettings"@, "--schemadir"@, ext_dir, "set"@, schema, key, value]
}

/// The disk devices configured for a display mode: restricted to `/home`
/// whenever a disk-space mode is requested.
pub open spec fn configured_disks(
    mode: DisplayMode,
    disks: Option<Seq<Seq<(Seq<char>, ScalarView)>>>,
) -> Option<Seq<Seq<(Seq<char>, ScalarView)>>> {
    match disks {
        Some(ds) => if mode.disk_space_perc_home_only || mode.disk_space_gb || mode.disk_space_perc {
            Some(filtered_devices(ds, "/home"@))
        } else {
            Some(ds)
        },
        None => None,
    }
}

/// The commands that configure the display mode's units.
pub open spec fn mode_commands(ext_dir: Seq<char>, schema: Seq<char>, mode: DisplayMode) -> Seq<Seq<Seq<char>>> {
    let gpu = set_command(
        ext_dir,
        schema,
        "gpumemoryunit"@,
        if mode.gpu_memory_perc {
            "'perc'"@
        } else {
            "'numeric'"@
        },
    );
    if mode.disk_space_perc_home_only {
        seq![
            gpu,
            set_command(ext_dir, schema, "diskstatsstatus"@, "false"@),
            set_command(ext_dir, schema, "diskspaceunit"@, "'perc'"@),
            set_command(ext_dir, schema, "diskspacemonitor"@, "'used'"@),
        ]
    } else if mode.disk_space_gb || mode.disk_space_perc {
        seq![
            gpu,
            set_command(ext_dir, schema, "diskstatsstatus"@, "false"@),
            set_command(ext_dir, schema, "diskspaceunit"@, "'numeric'"@),
            set_command(ext_dir, schema, "diskspaceunitmeasure"@, "'g'"@),
            set_command(ext_dir, schema, "diskspacemonitor"@, "'free'"@),
        ]
    } else {
        seq![gpu]
    }
}

/// The device-list command for `key`, present only for a non-empty list.
pub open spec fn list_command(
    ext_dir: Seq<char>,
    schema: Seq<char>,
    key: Seq<char>,
    devices: Option<Seq<Seq<(Seq<char>, ScalarView)>>>,
) -> Seq<Seq<Seq<char>>> {
    match devices {
        Some(ds) => if ds.len() > 0 {
            seq![set_command(ext_dir, schema, key, gsettings_list(ds))]
        } else {
            Seq::empty()
        },
        None => Seq::empty(),
    }
}

/// Result of [`build_gsettings_args`].
pub open spec fn gsettings_commands(
    schema: Seq<char>,
    ext_dir: Seq<char>,
    mode: DisplayMode,
    gpu: Option<Seq<Seq<(Seq<char>, ScalarView)>>>,
    disks: Option<Seq<Seq<(Seq<char>, ScalarView)>>>,
) -> Seq<Seq<Seq<char>>> {
    mode_commands(ext_dir, schema, mode) + list_command(ext_dir, schema, "gpudeviceslist"@, gpu)
        + list_command(ext_dir, schema, "diskdeviceslist"@, configured_disks(mode, disks))
}

/// The views of an optional device slice.
pub open spec fn opt_devices(ds: Option<&[Device]>) -> Option<Seq<Seq<(Seq<char>, ScalarView)>>> {
    match ds {
        Some(d) => Some(devices_view(d@)),
        None => None,
    }
}

/// The character views of a command.
pub open spec fn command_view(c: Vec<String>) -> Seq<Seq<char>> {
    strings_view(c@)
}

/// One `gsettings --schemadir <ext_dir> set <schema> <key> <value>` command.
fn gsettings_set(ext_dir: &str, schema: &str, key: &str, value: &str) -> (r: Vec<String>)
    ensures
        strings_view(r@) == set_command(ext_dir@, schema@, key@, value@),
{
    let mut v: Vec<String> = Vec::new();
    v.push("gsettings".to_owned());
    v.push("--schemadir".to_owned());
    v.push(ext_dir.to_owned());
    v.push("set".to_owned());
    v.push(schema.to_owned());
    v.push(key.to_owned());
    v.push(value.to_owned());
    assert(strings_view(v@) =~= set_command(ext_dir@, schema@, key@, value@));
    v
}

/// A copy of every device in the slice.
fn clone_devices(ds: &[Device]) -> (r: Vec<Device>)
    ensures
        devices_view(r@) == devices_view(ds@),
{
    let mut out: Vec<Device> = Vec::new();
    let mut k: usize = 0;
    while k < ds.len()
        invariant
            k <= ds.len(),
            devices_view(out@) == devices_view(ds@).take(k as int),
        decreases ds.len() - k,
    {
        let ghost prev = devices_view(out@);
        let d = ds[k].clone();
        out.push(d);
        assert(devices_view(out@) =~= prev.push(devices_view(ds@)[k as int]));
        assert(devices_view(ds@).take(k + 1) =~= devices_view(ds@).take(k as int).push(devices_view(ds@)[k as int]));
        k += 1;
    }
    assert(devices_view(ds@).take(k as int) =~= devices_view(ds@));
    out
}

/// Build the Resource Monitor `gsettings set` command arguments for the
/// requested display mode, followed by the GPU and disk device lists when
/// they are given and non-empty (disk lists restricted to `/home` in the
/// disk-space modes).
pub fn build_gsettings_args(
    schema: &str,
    ext_dir: &str,
    mode: DisplayMode,
    gpu_devices: Option<&[Device]>,
    disk_devices: Option<&[Device]>,
) -> (r: Vec<Vec<String>>)
    ensures
        r@.map_values(|c: Vec<String>| command_view(c)) == gsettings_commands(
            schema@,
            ext_dir@,
            mode,
            opt_devices(gpu_devices),
            opt_devices(disk_devices),
        ),
{
    let mut commands: Vec<Vec<String>> = Vec::new();
    let configure_disk_space = mode.disk_space_gb || mode.disk_space_perc;
    if mode.gpu_memory_perc {
        commands.push(gsettings_set(ext_dir, schema, "gpumemoryunit", "'perc'"));
    } else {
        commands.push(gsettings_set(ext_dir, schema, "gpumemoryunit", "'numeric'"));
    }
    let mut disks: Option<Vec<Device>> = match disk_devices {
        Some(ds) => Some(clone_devices(ds)),
        None => None,
    };
    if mode.disk_space_perc_home_only {
        commands.push(gsettings_set(ext_dir, schema, "diskstatsstatus", "false"));
        commands.push(gsettings_set(ext_dir, schema, "diskspaceunit", "'perc'"));
        commands.push(gsettings_set(ext_dir, schema, "diskspacemonitor", "'used'"));
        disks = match disks {
            Some(ds) => Some(filter_disk_devices_to_mount_point(ds, Some("/home"))),
            None => None,
        };
    } else if configure_disk_space {
        commands.push(gsettings_set(ext_dir, schema, "diskstatsstatus", "false"));
        commands.push(gsettings_set(ext_dir, schema, "diskspaceunit", "'numeric'"));
        commands.push(gsettings_set(ext_dir, schema, "diskspaceunitmeasure", "'g'"));
        commands.push(gsettings_set(ext_dir, schema, "diskspacemonitor", "'free'"));
        disks = match disks {
            Some(ds) => Some(filter_disk_devices_to_mount_point(ds, Some("/home"))),
            None => None,
        };
    }
    assert(commands@.map_values(|c: Vec<String>| command_view(c)) =~= mode_commands(
        ext_dir@,
        schema@,
        mode,
    ));
    let ghost base = commands@.map_values(|c: Vec<String>| command_view(c));
    match gpu_devices {
        Some(ds) => {
            if ds.len() > 0 {
                let list = format_gsettings_list(ds);
                commands.push(gsettings_set(ext_dir, schema, "gpudeviceslist", list.as_str()));
            }
        },
        None => {},
    }
    assert(commands@.map_values(|c: Vec<String>| command_view(c)) =~= base + list_command(
        ext_dir@,
        schema@,
        "gpudeviceslist"@,
        opt_devices(gpu_devices),
    ));
    let ghost mid = commands@.map_values(|c: Vec<String>| command_view(c));
    let ghost want = configured_disks(mode, opt_devices(disk_devices));
    assert(match disks {
        Some(d) => want == Some(devices_view(d@)),
        None => want is None,
    });
    match disks {
        Some(ds) => {
            if ds.len() > 0 {
                let list = format_gsettings_list(ds.as_slice());
                commands.push(gsettings_set(ext_dir, schema, "diskdeviceslist", list.as_str()));
            }
        },
        None => {},
    }
    assert(commands@.map_values(|c: Vec<String>| command_view(c)) =~= mid + list_command(
        ext_dir@,
        schema@,
        "diskdeviceslist"@,
        want,
    ));
    commands
}

// ── Laws ─────────────────────────────────────────────────────────────────────

/// Every command in `cmds` that sets `key` sets it to `value`, and at least
/// one does.
pub open spec fn sets_key_to(cmds: Seq<Seq<Seq<char>>>, key: Seq<char>, value: Seq<char>) -> bool {
    &&& forall|i: int| 0 <= i < cmds.len() && #[trigger] cmds[i].len() == 7 && cmds[i][5] == key ==> cmds[i][6] == value
    &&& exists|i: int| 0 <= i < cmds.len() && #[trigger] cmds[i].len() == 7 && cmds[i][5] == key && cmds[i][6] == value
}

/// No command in `cmds` sets `key`.
pub open spec fn never_sets(cmds: Seq<Seq<Seq<char>>>, key: Seq<char>) -> bool {
    forall|i: int| 0 <= i < cmds.len() && #[trigger] cmds[i].len() == 7 ==> cmds[i][5] != key
}

/// The keys the commands write are spelled differently.
proof fn lemma_setting_keys_differ()
    ensures
        "gpudeviceslist"@ != "diskspaceunit"@,
        "diskdeviceslist"@ != "diskspaceunit"@,
        "gpumemoryunit"@ != "diskspaceunit"@,
        "diskstatsstatus"@ != "diskspaceunit"@,
        "diskspacemonitor"@ != "diskspaceunit"@,
        "diskspaceunitmeasure"@ != "diskspaceunit"@,
        "gpudeviceslist"@ != "diskspaceunitmeasure"@,
        "diskdeviceslist"@ != "diskspaceunitmeasure"@,
        "gpumemoryunit"@ != "diskspaceunitmeasure"@,
        "diskstatsstatus"@ != "diskspaceunitmeasure"@,
        "diskspacemonitor"@ != "diskspaceunitmeasure"@,
        "gpudeviceslist"@ != "diskspacemonitor"@,
        "diskdeviceslist"@ != "diskspacemonitor"@,
        "gpumemoryunit"@ != "diskspacemonitor"@,
        "diskstatsstatus"@ != "diskspacemonitor"@,
        "gpudeviceslist"@ != "gpumemoryunit"@,
        "diskdeviceslist"@ != "gpumemoryunit"@,
        "diskstatsstatus"@ != "gpumemoryunit"@,
        "gpudeviceslist"@ != "diskstatsstatus"@,
        "diskdeviceslist"@ != "diskstatsstatus"@,
        "'numeric'"@ != "'perc'"@,
{
    reveal_strlit("gpudeviceslist");
    reveal_strlit("diskdeviceslist");
    reveal_strlit("gpumemoryunit");
    reveal_strlit("diskstatsstatus");
    reveal_strlit("diskspacemonitor");
    reveal_strlit("diskspaceunit");
    reveal_strlit("diskspaceunitmeasure");
    reveal_strlit("'numeric'");
    reveal_strlit("'perc'");
    assert("diskspacemonitor"@.len() == 16 && "diskspaceunit"@.len() == 13);
    assert("diskspaceunitmeasure"@.len() == 20);
    assert("gpudeviceslist"@.len() == 14 && "gpumemoryunit"@.len() == 13);
    assert("gpumemoryunit"@[0] != "diskspaceunit"@[0]);
    assert("diskdeviceslist"@[4] != "diskspaceunit"@[4]);
    assert("diskstatsstatus"@[5] != "diskspaceunit"@[5]);
    assert("diskstatsstatus"@[5] != "diskspaceunitmeasure"@[5]);
    assert("diskdeviceslist"@[4] != "diskspacemonitor"@[4]);
    assert("diskstatsstatus"@[5] != "diskspacemonitor"@[5]);
    assert("diskstatsstatus"@[0] != "gpumemoryunit"@[0]);
    assert("'numeric'"@[1] != "'perc'"@[1]);
    assert("diskdeviceslist"@[5] != "diskstatsstatus"@[5]);
    assert("diskstatsstatus"@.len() == 15);
}

/// The device-list commands only set their own key.
proof fn lemma_list_command_key(
    ext_dir: Seq<char>,
    schema: Seq<char>,
    key: Seq<char>,
    devices: Option<Seq<Seq<(Seq<char>, ScalarView)>>>,
)
    ensures
        forall|i: int| 0 <= i < list_command(ext_dir, schema, key, devices).len()
            ==> (#[trigger] list_command(ext_dir, schema, key, devices)[i])[5] == key
                && list_command(ext_dir, schema, key, devices)[i].len() == 7,
{
}

/// The disk-space GB mode shows free space in gigabytes: whenever
/// `disk_space_gb` (or its legacy alias) is asked for without the home-only
/// mode, the commands set the disk-space unit to `'numeric'` (never
/// `'perc'`), its measure to `'g'`, the monitored quantity to `'free'` and
/// turn the disk statistics off, whatever devices are given.
pub proof fn lemma_disk_space_gb_mode_shows_free_gigabytes(
    schema: Seq<char>,
    ext_dir: Seq<char>,
    mode: DisplayMode,
    gpu: Option<Seq<Seq<(Seq<char>, ScalarView)>>>,
    disks: Option<Seq<Seq<(Seq<char>, ScalarView)>>>,
)
    requires
        mode.disk_space_gb || mode.disk_space_perc,
        !mode.disk_space_perc_home_only,
    ensures
        sets_key_to(gsettings_commands(schema, ext_dir, mode, gpu, disks), "diskspaceunit"@, "'numeric'"@),
        sets_key_to(gsettings_commands(schema, ext_dir, mode, gpu, disks), "diskspaceunitmeasure"@, "'g'"@),
        sets_key_to(gsettings_commands(schema, ext_dir, mode, gpu, disks), "diskspacemonitor"@, "'free'"@),
        sets_key_to(gsettings_commands(schema, ext_dir, mode, gpu, disks), "diskstatsstatus"@, "false"@),
{
    lemma_setting_keys_differ();
    let cmds = gsettings_commands(schema, ext_dir, mode, gpu, disks);
    let m = mode_commands(ext_dir, schema, mode);
    let g = list_command(ext_dir, schema, "gpudeviceslist"@, gpu);
    let d = list_command(ext_dir, schema, "diskdeviceslist"@, configured_disks(mode, disks));
    lemma_list_command_key(ext_dir, schema, "gpudeviceslist"@, gpu);
    lemma_list_command_key(ext_dir, schema, "diskdeviceslist"@, configured_disks(mode, disks));
    assert(cmds == m + g + d);
    assert(m =~= seq![
        set_command(ext_dir, schema, "gpumemoryunit"@, if mode.gpu_memory_perc { "'perc'"@ } else { "'numeric'"@ }),
        set_command(ext_dir, schema, "diskstatsstatus"@, "false"@),
        set_command(ext_dir, schema, "diskspaceunit"@, "'numeric'"@),
        set_command(ext_dir, schema, "diskspaceunitmeasure"@, "'g'"@),
        set_command(ext_dir, schema, "diskspacemonitor"@, "'free'"@),
    ]);
    assert forall|i: int| 0 <= i < cmds.len() && #[trigger] cmds[i].len() == 7 implies (cmds[i][5] == "diskspaceunit"@
        ==> cmds[i][6] == "'numeric'"@) && (cmds[i][5] == "diskspaceunitmeasure"@ ==> cmds[i][6] == "'g'"@) && (
    cmds[i][5] == "diskspacemonitor"@ ==> cmds[i][6] == "'free'"@) && (cmds[i][5] == "diskstatsstatus"@ ==> cmds[i][6]
        == "false"@) by {
        if i >= m.len() + g.len() {
            assert(cmds[i] == d[i - m.len() - g.len()]);
            assert(cmds[i][5] == "diskdeviceslist"@);
        } else if i >= m.len() {
            assert(cmds[i] == g[i - m.len()]);
            assert(cmds[i][5] == "gpudeviceslist"@);
        } else {
            assert(cmds[i] == m[i]);
            if i == 0 {
                assert(m[i] == m[0]);
            } else if i == 1 {
                assert(m[i] == m[1]);
            } else if i == 2 {
                assert(m[i] == m[2]);
            } else if i == 3 {
                assert(m[i] == m[3]);
            } else {
                assert(m[i] == m[4]);
            }
        }
    }
    assert(cmds[2] == m[2] && cmds[2].len() == 7);
    assert(cmds[3] == m[3] && cmds[3].len() == 7);
    assert(cmds[4] == m[4] && cmds[4].len() == 7);
    assert(cmds[1] == m[1] && cmds[1].len() == 7);
}

/// The home-only mode shows the used percentage of `/home`: the commands set
/// the disk-space unit to `'perc'`, the monitored quantity to `'used'`, turn
/// the disk statistics off, and never touch the unit measure.
pub proof fn lemma_home_only_mode_shows_used_percent(
    schema: Seq<char>,
    ext_dir: Seq<char>,
    mode: DisplayMode,
    gpu: Option<Seq<Seq<(Seq<char>, ScalarView)>>>,
    disks: Option<Seq<Seq<(Seq<char>, ScalarView)>>>,
)
    requires
        mode.disk_space_perc_home_only,
    ensures
        sets_key_to(gsettings_commands(schema, ext_dir, mode, gpu, disks), "diskspaceunit"@, "'perc'"@),
        sets_key_to(gsettings_commands(schema, ext_dir, mode, gpu, disks), "diskspacemonitor"@, "'used'"@),
        sets_key_to(gsettings_commands(schema, ext_dir, mode, gpu, disks), "diskstatsstatus"@, "false"@),
        never_sets(gsettings_commands(schema, ext_dir, mode, gpu, disks), "diskspaceunitmeasure"@),
{
    lemma_setting_keys_differ();
    let cmds = gsettings_commands(schema, ext_dir, mode, gpu, disks);
    let m = mode_commands(ext_dir, schema, mode);
    let g = list_command(ext_dir, schema, "gpudeviceslist"@, gpu);
    let d = list_command(ext_dir, schema, "diskdeviceslist"@, configured_disks(mode, disks));
    lemma_list_command_key(ext_dir, schema, "gpudeviceslist"@, gpu);
    lemma_list_command_key(ext_dir, schema, "diskdeviceslist"@, configured_disks(mode, disks));
    assert(cmds == m + g + d);
    assert(m =~= seq![
        set_command(ext_dir, schema, "gpumemoryunit"@, if mode.gpu_memory_perc { "'perc'"@ } else { "'numeric'"@ }),
        set_command(ext_dir, schema, "diskstatsstatus"@, "false"@),
        set_command(ext_dir, schema, "diskspaceunit"@, "'perc'"@),
        set_command(ext_dir, schema, "diskspacemonitor"@, "'used'"@),
    ]);
    assert forall|i: int| 0 <= i < cmds.len() && #[trigger] cmds[i].len() == 7 implies (cmds[i][5] == "diskspaceunit"@
        ==> cmds[i][6] == "'perc'"@) && (cmds[i][5] == "diskspacemonitor"@ ==> cmds[i][6] == "'used'"@) && (cmds[i][5]
        == "diskstatsstatus"@ ==> cmds[i][6] == "false"@) && cmds[i][5] != "diskspaceunitmeasure"@ by {
        if i >= m.len() + g.len() {
            assert(cmds[i] == d[i - m.len() - g.len()]);
        } else if i >= m.len() {
            assert(cmds[i] == g[i - m.len()]);
        } else {
            assert(cmds[i] == m[i]);
            if i == 0 {
                assert(m[i] == m[0]);
            } else if i == 1 {
                assert(m[i] == m[1]);
            } else if i == 2 {
                assert(m[i] == m[2]);
            } else if i == 3 {
                assert(m[i] == m[3]);
            } else {
                assert(m[i] == m[4]);
            }
        }
    }
    assert(cmds[1] == m[1] && cmds[1].len() == 7);
    assert(cmds[2] == m[2] && cmds[2].len() == 7);
    assert(cmds[3] == m[3] && cmds[3].len() == 7);
}

/// The GPU memory unit follows its flag in every mode: `'perc'` when
/// `gpu_memory_perc` is asked for, `'numeric'` otherwise; and without a
/// disk-space mode no disk-space setting is written.
pub proof fn lemma_gpu_memory_unit_follows_flag(
    schema: Seq<char>,
    ext_dir: Seq<char>,
    mode: DisplayMode,
    gpu: Option<Seq<Seq<(Seq<char>, ScalarView)>>>,
    disks: Option<Seq<Seq<(Seq<char>, ScalarView)>>>,
)
    ensures
        sets_key_to(
            gsettings_commands(schema, ext_dir, mode, gpu, disks),
            "gpumemoryunit"@,
            if mode.gpu_memory_perc { "'perc'"@ } else { "'numeric'"@ },
        ),
        !(mode.disk_space_gb || mode.disk_space_perc || mode.disk_space_perc_home_only) ==> never_sets(
            gsettings_commands(schema, ext_dir, mode, gpu, disks),
            "diskspaceunit"@,
        ),
{
    lemma_setting_keys_differ();
    let cmds = gsettings_commands(schema, ext_dir, mode, gpu, disks);
    let m = mode_commands(ext_dir, schema, mode);
    let g = list_command(ext_dir, schema, "gpudeviceslist"@, gpu);
    let d = list_command(ext_dir, schema, "diskdeviceslist"@, configured_disks(mode, disks));
    lemma_list_command_key(ext_dir, schema, "gpudeviceslist"@, gpu);
    lemma_list_command_key(ext_dir, schema, "diskdeviceslist"@, configured_disks(mode, disks));
    assert(cmds == m + g + d);
    let v = if mode.gpu_memory_perc { "'perc'"@ } else { "'numeric'"@ };
    let disk_mode = mode.disk_space_gb || mode.disk_space_perc || mode.disk_space_perc_home_only;
    assert forall|i: int| 0 <= i < cmds.len() && #[trigger] cmds[i].len() == 7 implies (cmds[i][5] == "gpumemoryunit"@
        ==> cmds[i][6] == v) && (!disk_mode ==> cmds[i][5] != "diskspaceunit"@) by {
        if i >= m.len() + g.len() {
            assert(cmds[i] == d[i - m.len() - g.len()]);
        } else if i >= m.len() {
            assert(cmds[i] == g[i - m.len()]);
        } else {
            assert(cmds[i] == m[i]);
            if i == 0 {
                assert(m[i] == m[0]);
            } else if i == 1 {
                assert(m[i] == m[1]);
            } else if i == 2 {
                assert(m[i] == m[2]);
            } else if i == 3 {
                assert(m[i] == m[3]);
            } else {
                assert(m[i] == m[4]);
            }
        }
    }
    assert(cmds[0] == m[0] && cmds[0].len() == 7);
}

} // verus!
