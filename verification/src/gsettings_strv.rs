//! GSettings string-array helpers for the installer (`gsettings-strv`).

use vstd::prelude::*;
use vstd::utf8::{encode_scalar, encode_utf8, leading_byte_width_1};
use crate::text::{
    chars_string, is_ws, is_ws_exec, lemma_join_front, lemma_join_step, lemma_map_char_concat,
    lemma_replace_all_single, lemma_trim_noop, map_char, push_all, push_range, push_str,
    replace_all, replace_all_str, seq_join, starts_with, starts_with_exec, str_chars, str_eq,
    strings_view, trim, trim_bounds,
};

verus! {

// ── Specifications ──────────────────────────────────────────────────────────

/// The character a byte stands for when read as Latin-1 (`byte as char`).
pub open spec fn byte_char(b: u8) -> char {
    b as char
}

/// End of the run of separators (whitespace or `,`) starting at `i`.
pub open spec fn sep_end(b: Seq<u8>, i: int) -> int
    decreases b.len() - i,
{
    if 0 <= i < b.len() && (is_ws(byte_char(b[i])) || b[i] == 44) {
        sep_end(b, i + 1)
    } else {
        i
    }
}

/// The text of a quoted item whose body starts at `i` (closing quote `q`,
/// backslash escapes the next byte), and the index just after it.
pub open spec fn item_from(b: Seq<u8>, i: int, q: u8) -> (Seq<char>, int)
    decreases b.len() - i,
{
    if i < 0 || i >= b.len() {
        (Seq::empty(), i)
    } else if b[i] == 92 && i + 1 < b.len() {
        let (s, e) = item_from(b, i + 2, q);
        (seq![byte_char(b[i + 1])] + s, e)
    } else if b[i] == q {
        (Seq::empty(), i + 1)
    } else {
        let (s, e) = item_from(b, i + 1, q);
        (seq![byte_char(b[i])] + s, e)
    }
}

/// `sep_end` never moves backwards and stays within the text.
pub proof fn lemma_sep_end(b: Seq<u8>, i: int)
    requires
        0 <= i <= b.len(),
    ensures
        i <= sep_end(b, i) <= b.len(),
    decreases b.len() - i,
{
    if 0 <= i < b.len() && (is_ws(byte_char(b[i])) || b[i] == 44) {
        lemma_sep_end(b, i + 1);
    }
}

/// An item ends after it starts and within the text.
pub proof fn lemma_item_from(b: Seq<u8>, i: int, q: u8)
    requires
        0 <= i <= b.len(),
    ensures
        i <= item_from(b, i, q).1 <= b.len(),
    decreases b.len() - i,
{
    if i < b.len() {
        if b[i] == 92 && i + 1 < b.len() {
            lemma_item_from(b, i + 2, q);
        } else if b[i] != q {
            lemma_item_from(b, i + 1, q);
        }
    }
}

/// The items of a list body scanned from byte `i`, or `None` when an item
/// does not start with a quote.
pub open spec fn items_from(b: Seq<u8>, i: int) -> Option<Seq<Seq<char>>>
    decreases b.len() - i,
{
    if i < 0 || i > b.len() {
        Some(Seq::empty())
    } else {
        let j = sep_end(b, i);
        proof {
            lemma_sep_end(b, i);
        }
        if j >= b.len() {
            Some(Seq::empty())
        } else if b[j] != 39 && b[j] != 34 {
            None
        } else {
            let (s, e) = item_from(b, j + 1, b[j]);
            proof {
                lemma_item_from(b, j + 1, b[j]);
            }
            match items_from(b, e) {
                Some(rest) => Some(seq![s] + rest),
                None => None,
            }
        }
    }
}

/// The items of a Python/gsettings list literal such as `['a', "b"]`.
pub open spec fn pythonish_items(value: Seq<char>) -> Option<Seq<Seq<char>>> {
    let v = trim(value);
    if !starts_with(v, seq!['[']) || v.len() == 0 || v.last() != ']' {
        None
    } else {
        let inner = trim(v.subrange(1, v.len() - 1));
        if inner.len() == 0 {
            Some(Seq::empty())
        } else {
            items_from(encode_utf8(inner), 0)
        }
    }
}

/// `value` without a leading `@as ` type annotation.
pub open spec fn strip_as(value: Seq<char>) -> Seq<char> {
    if starts_with(value, "@as "@) {
        trim(value.skip(4))
    } else {
        value
    }
}

/// The normalized values of `gsettings get` string-array output.
pub open spec fn parsed_strv(raw: Option<Seq<char>>) -> Seq<Seq<char>> {
    let value = strip_as(
        trim(
            match raw {
                Some(r) => r,
                None => Seq::empty(),
            },
        ),
    );
    if value.len() == 0 {
        Seq::empty()
    } else {
        match pythonish_items(value) {
            Some(items) => items,
            None => Seq::empty(),
        }
    }
}

/// `values` with later duplicates dropped, first appearances kept in order.
pub open spec fn dedup(values: Seq<Seq<char>>) -> Seq<Seq<char>>
    decreases values.len(),
{
    if values.len() == 0 {
        Seq::empty()
    } else {
        let d = dedup(values.drop_last());
        if d.contains(values.last()) {
            d
        } else {
            d.push(values.last())
        }
    }
}

/// Result of [`append_strv`].
pub open spec fn appended_strv(raw: Option<Seq<char>>, value: Seq<char>) -> Seq<Seq<char>> {
    let current = dedup(parsed_strv(raw));
    if value.len() != 0 && !current.contains(value) {
        current.push(value)
    } else {
        current
    }
}

/// The items that differ from `value`.
pub open spec fn differs_from(value: Seq<char>) -> spec_fn(Seq<char>) -> bool {
    |item: Seq<char>| item != value
}

/// Result of [`remove_strv`].
pub open spec fn removed_strv(raw: Option<Seq<char>>, value: Seq<char>) -> Seq<Seq<char>> {
    dedup(parsed_strv(raw).filter(differs_from(value)))
}

/// One value rendered as a single-quoted item with `\` and `'` escaped.
pub open spec fn quote_item(item: Seq<char>) -> Seq<char> {
    "'"@ + replace_all(replace_all(item, "\\"@, "\\\\"@), "'"@, "\\'"@) + "'"@
}

/// Result of [`format_strv`].
pub open spec fn formatted_strv(values: Seq<Seq<char>>) -> Seq<char> {
    "["@ + seq_join(values.map_values(|v: Seq<char>| quote_item(v)), ", "@) + "]"@
}

/// The optional raw text as a character sequence.
pub open spec fn opt_view(raw: Option<&str>) -> Option<Seq<char>> {
    match raw {
        Some(r) => Some(r@),
        None => None,
    }
}

// ── Executable functions ────────────────────────────────────────────────────

/// Parse `gsettings get` string-array output into normalized values.
///
/// `None`, empty strings and text that is not a list literal yield an empty
/// list; a leading `@as ` annotation is dropped.
pub fn parse_strv(raw: Option<&str>) -> (r: Vec<String>)
    ensures
        strings_view(r@) == parsed_strv(opt_view(raw)),
{
    let c = match raw {
        Some(s) => str_chars(s),
        None => Vec::new(),
    };
    let (lo, hi) = trim_bounds(c.as_slice());
    let mut value: Vec<char> = Vec::new();
    push_range(&mut value, c.as_slice(), lo, hi);
    proof {
        let raw_v = match opt_view(raw) {
            Some(r) => r,
            None => Seq::<char>::empty(),
        };
        assert(c@ =~= raw_v);
    }
    let prefix = str_chars("@as ");
    if starts_with_exec(value.as_slice(), prefix.as_slice()) {
        proof {
            reveal_strlit("@as ");
        }
        let (lo2, hi2) = trim_bounds(value.as_slice());
        let ghost old_value = value@;
        let mut rest: Vec<char> = Vec::new();
        push_range(&mut rest, value.as_slice(), 4, value.len());
        let (lo3, hi3) = trim_bounds(rest.as_slice());
        let mut v2: Vec<char> = Vec::new();
        push_range(&mut v2, rest.as_slice(), lo3, hi3);
        assert(rest@ =~= old_value.skip(4));
        value = v2;
    }
    if value.len() == 0 {
        return Vec::new();
    }
    match pythonish_list(value.as_slice()) {
        Some(items) => items,
        None => {
            let out: Vec<String> = Vec::new();
            assert(strings_view(out@) =~= Seq::<Seq<char>>::empty());
            out
        },
    }
}

/// Whether a byte, read as a character, is whitespace.
fn byte_is_ws(b: u8) -> (r: bool)
    ensures
        r == is_ws(byte_char(b)),
{
    is_ws_exec(b as char)
}

/// Parse a Python/gsettings list literal like `['a', "b"]`.
fn pythonish_list(value: &[char]) -> (r: Option<Vec<String>>)
    ensures
        match pythonish_items(value@) {
            Some(items) => r matches Some(v) && strings_view(v@) == items,
            None => r is None,
        },
{
    let (lo, hi) = trim_bounds(value);
    let mut v: Vec<char> = Vec::new();
    push_range(&mut v, value, lo, hi);
    let open = str_chars("[");
    proof {
        reveal_strlit("[");
    }
    assert(open@ =~= seq!['[']);
    if !starts_with_exec(v.as_slice(), open.as_slice()) || v.len() == 0 || v[v.len() - 1] != ']' {
        return None;
    }
    assert(v@.take(1)[0] == v@[0]);
    assert(v.len() >= 2);
    let mut mid: Vec<char> = Vec::new();
    push_range(&mut mid, v.as_slice(), 1, v.len() - 1);
    let (ilo, ihi) = trim_bounds(mid.as_slice());
    let mut inner: Vec<char> = Vec::new();
    push_range(&mut inner, mid.as_slice(), ilo, ihi);
    if inner.len() == 0 {
        let out: Vec<String> = Vec::new();
        assert(strings_view(out@) =~= Seq::<Seq<char>>::empty());
        return Some(out);
    }
    let inner_s = chars_string(inner.as_slice());
    let bytes = inner_s.as_str().as_bytes();
    assert(bytes@ == encode_utf8(inner@));
    parse_items(bytes)
}

/// Prepends `p` to every successful list.
pub open spec fn prepend_items(p: Seq<Seq<char>>, o: Option<Seq<Seq<char>>>) -> Option<Seq<Seq<char>>> {
    match o {
        Some(rest) => Some(p + rest),
        None => None,
    }
}

/// Scan the quoted items of a list body.
fn parse_items(b: &[u8]) -> (r: Option<Vec<String>>)
    ensures
        match items_from(b@, 0) {
            Some(items) => r matches Some(v) && strings_view(v@) == items,
            None => r is None,
        },
{
    let mut items: Vec<String> = Vec::new();
    let mut i: usize = 0;
    loop
        invariant
            i <= b.len(),
            items_from(b@, 0) == prepend_items(strings_view(items@), items_from(b@, i as int)),
        decreases b.len() - i,
    {
        let ghost start = i;
        proof {
            lemma_sep_end(b@, i as int);
        }
        while i < b.len() && (byte_is_ws(b[i]) || b[i] == 44u8)
            invariant
                start <= i <= b.len(),
                sep_end(b@, start as int) == sep_end(b@, i as int),
            decreases b.len() - i,
        {
            i += 1;
        }
        if i >= b.len() {
            assert(strings_view(items@) + Seq::<Seq<char>>::empty() =~= strings_view(items@));
            return Some(items);
        }
        let quote = b[i];
        if quote != 39u8 && quote != 34u8 {
            return None;
        }
        i += 1;
        let ghost body = i;
        proof {
            lemma_item_from(b@, body as int, quote);
        }
        let mut out: Vec<char> = Vec::new();
        while i < b.len()
            invariant_except_break
                item_from(b@, body as int, quote).0 == out@ + item_from(b@, i as int, quote).0,
                item_from(b@, body as int, quote).1 == item_from(b@, i as int, quote).1,
            invariant
                body <= i <= b.len(),
            ensures
                item_from(b@, body as int, quote).0 == out@,
                item_from(b@, body as int, quote).1 == i,
            decreases b.len() - i,
        {
            if b[i] == 92u8 && i + 1 < b.len() {
                let ghost before = out@;
                out.push(b[i + 1] as char);
                assert(before + item_from(b@, i as int, quote).0 =~= out@ + item_from(
                    b@,
                    i + 2,
                    quote,
                ).0);
                i += 2;
                continue;
            }
            if b[i] == quote {
                assert(out@ + Seq::<char>::empty() =~= out@);
                i += 1;
                break;
            }
            let ghost before = out@;
            out.push(b[i] as char);
            assert(before + item_from(b@, i as int, quote).0 =~= out@ + item_from(
                b@,
                i + 1,
                quote,
            ).0);
            i += 1;
        }
        let ghost prev = strings_view(items@);
        let s = chars_string(out.as_slice());
        items.push(s);
        assert(strings_view(items@) =~= prev.push(out@));
        assert(prev + (seq![out@] + Seq::<Seq<char>>::empty()) =~= strings_view(items@) + Seq::<
            Seq<char>,
        >::empty());
        proof {
            let rest = items_from(b@, i as int);
            match rest {
                Some(rr) => {
                    assert(prev + (seq![out@] + rr) =~= strings_view(items@) + rr);
                },
                None => {},
            }
        }
    }
}

/// Whether `values` holds an item equal to `item`.
fn contains_item(values: &Vec<String>, item: &str) -> (r: bool)
    ensures
        r == strings_view(values@).contains(item@),
{
    let mut k: usize = 0;
    while k < values.len()
        invariant
            k <= values.len(),
            forall|j: int| 0 <= j < k ==> strings_view(values@)[j] != item@,
        decreases values.len() - k,
    {
        if str_eq(values[k].as_str(), item) {
            assert(strings_view(values@)[k as int] == item@);
            return true;
        }
        k += 1;
    }
    false
}

/// De-duplicate while preserving first appearance.
pub fn unique_values(values: Vec<String>) -> (r: Vec<String>)
    ensures
        strings_view(r@) == dedup(strings_view(values@)),
{
    let ghost vs = strings_view(values@);
    let mut out: Vec<String> = Vec::new();
    let mut k: usize = 0;
    while k < values.len()
        invariant
            k <= values.len(),
            vs == strings_view(values@),
            strings_view(out@) == dedup(vs.take(k as int)),
        decreases values.len() - k,
    {
        assert(vs.take(k + 1).drop_last() =~= vs.take(k as int));
        let item = values[k].as_str();
        if !contains_item(&out, item) {
            let ghost prev = strings_view(out@);
            out.push(values[k].as_str().to_owned());
            assert(strings_view(out@) =~= prev.push(vs[k as int]));
        }
        k += 1;
    }
    assert(vs.take(k as int) =~= vs);
    out
}

/// Append `value` when non-empty and not already present.
pub fn append_strv(raw: Option<&str>, value: &str) -> (r: Vec<String>)
    ensures
        strings_view(r@) == appended_strv(opt_view(raw), value@),
{
    let mut current = unique_values(parse_strv(raw));
    let vc = str_chars(value);
    if vc.len() != 0 && !contains_item(&current, value) {
        let ghost prev = strings_view(current@);
        current.push(value.to_owned());
        assert(strings_view(current@) =~= prev.push(value@));
    }
    current
}

/// Remove every occurrence of `value`.
pub fn remove_strv(raw: Option<&str>, value: &str) -> (r: Vec<String>)
    ensures
        strings_view(r@) == removed_strv(opt_view(raw), value@),
{
    let parsed = parse_strv(raw);
    let ghost pv = strings_view(parsed@);
    let ghost pred = differs_from(value@);
    let mut kept: Vec<String> = Vec::new();
    let mut k: usize = 0;
    while k < parsed.len()
        invariant
            k <= parsed.len(),
            pv == strings_view(parsed@),
            pred == differs_from(value@),
            strings_view(kept@) == pv.take(k as int).filter(pred),
        decreases parsed.len() - k,
    {
        assert(pv.take(k + 1).drop_last() =~= pv.take(k as int));
        reveal_with_fuel(Seq::filter, 1);
        if !str_eq(parsed[k].as_str(), value) {
            let ghost prev = strings_view(kept@);
            kept.push(parsed[k].as_str().to_owned());
            assert(strings_view(kept@) =~= prev.push(pv[k as int]));
        }
        k += 1;
    }
    assert(pv.take(k as int) =~= pv);
    unique_values(kept)
}

/// One value rendered as a single-quoted item.
fn quote_item_exec(item: &str) -> (r: Vec<char>)
    ensures
        r@ == quote_item(item@),
{
    let c = str_chars(item);
    let a = replace_all_str(c.as_slice(), "\\", "\\\\");
    let b = replace_all_str(a.as_slice(), "'", "\\'");
    let mut out: Vec<char> = Vec::new();
    push_str(&mut out, "'");
    push_all(&mut out, b.as_slice());
    push_str(&mut out, "'");
    out
}

/// Serialize values for `gsettings set` (Python `repr` style single quotes).
///
/// Escapes `\` and `'` only, which is the installer's contract for extension
/// UUIDs and similar simple tokens (not a full Python `repr`).
pub fn format_strv(values: &[String]) -> (r: String)
    ensures
        r@ == formatted_strv(strings_view(values@)),
{
    let ghost vs = strings_view(values@);
    let ghost parts = vs.map_values(|v: Seq<char>| quote_item(v));
    let mut out: Vec<char> = Vec::new();
    let mut k: usize = 0;
    while k < values.len()
        invariant
            k <= values.len(),
            vs == strings_view(values@),
            parts == vs.map_values(|v: Seq<char>| quote_item(v)),
            out@ == seq_join(parts.take(k as int), ", "@),
        decreases values.len() - k,
    {
        proof {
            lemma_join_step(parts, ", "@, k as int);
        }
        if k > 0 {
            push_str(&mut out, ", ");
        }
        let q = quote_item_exec(values[k].as_str());
        push_all(&mut out, q.as_slice());
        k += 1;
    }
    assert(parts.take(k as int) =~= parts);
    let mut res: Vec<char> = Vec::new();
    push_str(&mut res, "[");
    push_all(&mut res, out.as_slice());
    push_str(&mut res, "]");
    chars_string(res.as_slice())
}

/// The new list printed by `gsettings-strv <action> <value>`, given the
/// current `gsettings get` text: `Err(2)` (usage error) unless `action` is
/// `append` or `remove`.
pub fn strv_command_output(action: &str, current: Option<&str>, value: &str) -> (r: Result<String, i32>)
    ensures
        action@ != "append"@ && action@ != "remove"@ ==> r == Err::<String, i32>(2),
        action@ == "append"@ ==> (r matches Ok(s) && s@ == formatted_strv(appended_strv(opt_view(current), value@))),
        action@ == "remove"@ ==> (r matches Ok(s) && s@ == formatted_strv(removed_strv(opt_view(current), value@))),
{
    proof {
        reveal_strlit("append");
        reveal_strlit("remove");
        assert("append"@[0] != "remove"@[0]);
    }
    if str_eq(action, "append") {
        let list = append_strv(current, value);
        Ok(format_strv(list.as_slice()))
    } else if str_eq(action, "remove") {
        let list = remove_strv(current, value);
        Ok(format_strv(list.as_slice()))
    } else {
        Err(2)
    }
}

// ── Laws ────────────────────────────────────────────────────────────────────

/// No value occurs twice in `values`.
pub open spec fn no_duplicates(values: Seq<Seq<char>>) -> bool {
    forall|i: int, j: int| 0 <= i < j < values.len() ==> values[i] != values[j]
}

/// De-duplication keeps exactly the values of its input, each once.
pub proof fn lemma_dedup(values: Seq<Seq<char>>)
    ensures
        no_duplicates(dedup(values)),
        forall|v: Seq<char>| dedup(values).contains(v) <==> values.contains(v),
    decreases values.len(),
{
    if values.len() > 0 {
        let prefix = values.drop_last();
        let last = values.last();
        lemma_dedup(prefix);
        let d = dedup(prefix);
        assert forall|v: Seq<char>| dedup(values).contains(v) implies values.contains(v) by {
            if d.contains(v) {
                assert(prefix.contains(v));
                let k = choose|k: int| 0 <= k < prefix.len() && prefix[k] == v;
                assert(values[k] == v);
            } else {
                assert(!d.contains(last));
                let k = choose|k: int| 0 <= k < dedup(values).len() && dedup(values)[k] == v;
                assert(k == d.len());
                assert(values[values.len() - 1] == v);
            }
        }
        assert forall|v: Seq<char>| values.contains(v) implies dedup(values).contains(v) by {
            let k = choose|k: int| 0 <= k < values.len() && values[k] == v;
            if k < values.len() - 1 {
                assert(prefix[k] == v);
                assert(prefix.contains(v));
                assert(d.contains(v));
                let m = choose|m: int| 0 <= m < d.len() && d[m] == v;
                if !d.contains(last) {
                    assert(d.push(last)[m] == v);
                }
            } else if !d.contains(last) {
                assert(d.push(last)[d.len() as int] == v);
            }
        }
    }
}

/// Appending leaves every value listed once, with `value` among them when it
/// is non-empty.
pub proof fn lemma_append_strv(raw: Option<Seq<char>>, value: Seq<char>)
    ensures
        no_duplicates(appended_strv(raw, value)),
        value.len() != 0 ==> appended_strv(raw, value).contains(value),
        forall|v: Seq<char>| parsed_strv(raw).contains(v) ==> appended_strv(raw, value).contains(v),
{
    let current = dedup(parsed_strv(raw));
    lemma_dedup(parsed_strv(raw));
    if value.len() != 0 && !current.contains(value) {
        assert(current.push(value)[current.len() as int] == value);
        assert forall|v: Seq<char>| current.contains(v) implies current.push(value).contains(v) by {
            let k = choose|k: int| 0 <= k < current.len() && current[k] == v;
            assert(current.push(value)[k] == v);
        }
    }
}

/// Removing leaves every other value listed once, and `value` not at all.
pub proof fn lemma_remove_strv(raw: Option<Seq<char>>, value: Seq<char>)
    ensures
        no_duplicates(removed_strv(raw, value)),
        !removed_strv(raw, value).contains(value),
        forall|v: Seq<char>| v != value && parsed_strv(raw).contains(v) ==> removed_strv(raw, value).contains(v),
{
    let pred = differs_from(value);
    let kept = parsed_strv(raw).filter(pred);
    lemma_dedup(kept);
    let p = parsed_strv(raw);
    assert forall|v: Seq<char>| kept.contains(v) <==> (pred(v) && p.contains(v)) by {
        if kept.contains(v) {
            p.lemma_filter_contains_rev(pred, v);
            let k = choose|k: int| 0 <= k < kept.len() && kept[k] == v;
            p.lemma_filter_pred(pred, k);
        }
        if pred(v) && p.contains(v) {
            let k = choose|k: int| 0 <= k < p.len() && p[k] == v;
            p.lemma_filter_contains(pred, k);
        }
    }
    assert(!pred(value));
    assert(!kept.contains(value));
    assert(dedup(kept).contains(value) <==> kept.contains(value));
}

// ── Round trip of the list format ──────────────────────────────────────────

/// Every character of `s` is ASCII.
pub open spec fn is_ascii_text(s: Seq<char>) -> bool {
    forall|i: int| 0 <= i < s.len() ==> (#[trigger] s[i] as u32) < 128
}

/// The single byte that encodes an ASCII character in UTF-8.
pub open spec fn ascii_byte(c: char) -> u8 {
    leading_byte_width_1(c as u32)
}

/// The bytes of ASCII text.
pub open spec fn ascii_bytes(s: Seq<char>) -> Seq<u8> {
    s.map_values(|c: char| ascii_byte(c))
}

/// A value escaped for a single-quoted item, character by character.
pub open spec fn escaped(v: Seq<char>) -> Seq<char>
    decreases v.len(),
{
    if v.len() == 0 {
        Seq::empty()
    } else {
        (if v[0] == '\\' {
            seq!['\\', '\\']
        } else if v[0] == '\'' {
            seq!['\\', '\'']
        } else {
            seq![v[0]]
        }) + escaped(v.drop_first())
    }
}

/// An ASCII character's byte reads back as the character.
proof fn lemma_ascii_byte(c: char)
    requires
        (c as u32) < 128,
    ensures
        ascii_byte(c) as u32 == c as u32,
        byte_char(ascii_byte(c)) == c,
{
    let v = c as u32;
    assert(((v & 0x7F) as u8) as u32 == v) by (bit_vector)
        requires
            v < 128,
    ;
    vstd::utf8::char_u32_cast(c, v);
    let b = ascii_byte(c);
    assert(b as int == v as int);
    assert((b as char) == (v as char));
}

/// The UTF-8 encoding of ASCII text is its bytes.
proof fn lemma_encode_ascii(s: Seq<char>)
    requires
        is_ascii_text(s),
    ensures
        encode_utf8(s) == ascii_bytes(s),
    decreases s.len(),
{
    if s.len() > 0 {
        let rest = s.drop_first();
        assert(is_ascii_text(rest)) by {
            assert forall|i: int| 0 <= i < rest.len() implies (#[trigger] rest[i] as u32) < 128 by {
                assert(rest[i] == s[i + 1]);
            }
        }
        lemma_encode_ascii(rest);
        assert((s[0] as u32) < 128);
        assert(encode_scalar(s[0] as u32) == seq![ascii_byte(s[0])]);
        assert(ascii_bytes(s) =~= seq![ascii_byte(s[0])] + ascii_bytes(rest));
    }
}

/// ASCII text concatenated is ASCII.
proof fn lemma_ascii_concat(a: Seq<char>, b: Seq<char>)
    requires
        is_ascii_text(a),
        is_ascii_text(b),
    ensures
        is_ascii_text(a + b),
{
    assert forall|i: int| 0 <= i < (a + b).len() implies (#[trigger] (a + b)[i] as u32) < 128 by {
        if i < a.len() {
            assert((a + b)[i] == a[i]);
        } else {
            assert((a + b)[i] == b[i - a.len()]);
        }
    }
}

/// The bytes of concatenated ASCII text are the concatenated bytes.
proof fn lemma_ascii_bytes_concat(a: Seq<char>, b: Seq<char>)
    ensures
        ascii_bytes(a + b) == ascii_bytes(a) + ascii_bytes(b),
{
    assert(ascii_bytes(a + b) =~= ascii_bytes(a) + ascii_bytes(b));
}

/// Escaping ASCII text keeps it ASCII.
proof fn lemma_escaped_ascii(v: Seq<char>)
    requires
        is_ascii_text(v),
    ensures
        is_ascii_text(escaped(v)),
    decreases v.len(),
{
    if v.len() > 0 {
        let rest = v.drop_first();
        assert(is_ascii_text(rest)) by {
            assert forall|i: int| 0 <= i < rest.len() implies (#[trigger] rest[i] as u32) < 128 by {
                assert(rest[i] == v[i + 1]);
            }
        }
        lemma_escaped_ascii(rest);
        let head = if v[0] == '\\' {
            seq!['\\', '\\']
        } else if v[0] == '\'' {
            seq!['\\', '\'']
        } else {
            seq![v[0]]
        };
        assert((v[0] as u32) < 128);
        assert(is_ascii_text(head));
        lemma_ascii_concat(head, escaped(rest));
    }
}

/// The two replacements of the item quoting are the character escape.
proof fn lemma_quote_escape(v: Seq<char>)
    ensures
        replace_all(replace_all(v, "\\"@, "\\\\"@), "'"@, "\\'"@) == escaped(v),
{
    reveal_strlit("\\");
    reveal_strlit("\\\\");
    reveal_strlit("'");
    reveal_strlit("\\'");
    assert("\\"@ =~= seq!['\\']);
    assert("'"@ =~= seq!['\'']);
    lemma_replace_all_single(v, '\\', "\\\\"@);
    lemma_replace_all_single(map_char(v, '\\', "\\\\"@), '\'', "\\'"@);
    lemma_double_map(v);
}

/// The character map of a one-character text.
proof fn lemma_map_char_one(c: char, p: char, r: Seq<char>)
    ensures
        map_char(seq![c], p, r) == (if c == p {
            r
        } else {
            seq![c]
        }),
{
    assert(seq![c].drop_first() =~= Seq::<char>::empty());
    assert(map_char(Seq::<char>::empty(), p, r) =~= Seq::<char>::empty());
    assert(map_char(seq![c], p, r) =~= (if c == p {
        r
    } else {
        seq![c]
    }));
}

/// Mapping backslashes and then quotes is the character escape.
proof fn lemma_double_map(v: Seq<char>)
    ensures
        map_char(map_char(v, '\\', "\\\\"@), '\'', "\\'"@) == escaped(v),
    decreases v.len(),
{
    reveal_strlit("\\\\");
    reveal_strlit("\\'");
    let bb = seq!['\\', '\\'];
    let bq = seq!['\\', '\''];
    assert("\\\\"@ =~= bb);
    assert("\\'"@ =~= bq);
    if v.len() == 0 {
        assert(map_char(v, '\\', bb) =~= Seq::<char>::empty());
    } else {
        let rest = v.drop_first();
        let head = if v[0] == '\\' {
            bb
        } else {
            seq![v[0]]
        };
        assert(map_char(v, '\\', bb) == head + map_char(rest, '\\', bb));
        lemma_map_char_concat(head, map_char(rest, '\\', bb), '\'', bq);
        lemma_double_map(rest);
        if v[0] == '\\' {
            assert(bb =~= seq!['\\'] + seq!['\\']);
            lemma_map_char_concat(seq!['\\'], seq!['\\'], '\'', bq);
            lemma_map_char_one('\\', '\'', bq);
            assert(map_char(head, '\'', bq) =~= bb);
        } else {
            lemma_map_char_one(v[0], '\'', bq);
        }
    }
}

/// Scanning the bytes of an escaped ASCII value followed by a closing quote
/// gives back the value and the index just past the quote.
proof fn lemma_item_from_escaped(b: Seq<u8>, i: int, v: Seq<char>)
    requires
        0 <= i,
        is_ascii_text(v),
        i + escaped(v).len() < b.len(),
        b.subrange(i, i + escaped(v).len()) == ascii_bytes(escaped(v)),
        b[i + escaped(v).len()] == 39,
    ensures
        item_from(b, i, 39) == (v, i + escaped(v).len() + 1),
    decreases v.len(),
{
    if v.len() == 0 {
        assert(escaped(v).len() == 0);
    } else {
        let c = v[0];
        let rest = v.drop_first();
        assert(is_ascii_text(rest)) by {
            assert forall|k: int| 0 <= k < rest.len() implies (#[trigger] rest[k] as u32) < 128 by {
                assert(rest[k] == v[k + 1]);
            }
        }
        assert((c as u32) < 128);
        lemma_ascii_byte(c);
        let head = if c == '\\' {
            seq!['\\', '\\']
        } else if c == '\'' {
            seq!['\\', '\'']
        } else {
            seq![c]
        };
        let er = escaped(rest);
        assert(escaped(v) == head + er);
        lemma_ascii_bytes_concat(head, er);
        let n = head.len() as int;
        assert(b.subrange(i + n, i + n + er.len()) =~= b.subrange(i, i + escaped(v).len()).subrange(n, n + er.len()));
        assert(b.subrange(i + n, i + n + er.len()) == ascii_bytes(er));
        lemma_item_from_escaped(b, i + n, rest);
        assert(b[i] == b.subrange(i, i + escaped(v).len())[0]);
        assert(b[i] == ascii_byte(head[0]));
        if c == '\\' || c == '\'' {
            lemma_ascii_byte('\\');
            assert(b[i] == 92);
            assert(b[i + 1] == b.subrange(i, i + escaped(v).len())[1]);
            assert(b[i + 1] == ascii_byte(head[1]));
            lemma_ascii_byte(head[1]);
            assert(byte_char(b[i + 1]) == c);
            assert(seq![c] + rest =~= v);
        } else {
            lemma_ascii_byte('\\');
            lemma_ascii_byte('\'');
            assert(ascii_byte(c) as u32 != 92);
            assert(ascii_byte(c) as u32 != 39);
            assert(b[i] != 92 && b[i] != 39);
            assert(byte_char(b[i]) == c);
            assert(seq![c] + rest =~= v);
        }
    }
}

/// One item as the list format writes it: quoted, with `\` and `'` escaped.
proof fn lemma_quote_item(v: Seq<char>)
    ensures
        quote_item(v) == seq!['\''] + escaped(v) + seq!['\''],
{
    reveal_strlit("'");
    assert("'"@ =~= seq!['\'']);
    lemma_quote_escape(v);
}

/// Quoted ASCII items are ASCII.
proof fn lemma_quote_item_ascii(v: Seq<char>)
    requires
        is_ascii_text(v),
    ensures
        is_ascii_text(quote_item(v)),
{
    lemma_quote_item(v);
    lemma_escaped_ascii(v);
    assert(is_ascii_text(seq!['\'']));
    lemma_ascii_concat(seq!['\''], escaped(v));
    lemma_ascii_concat(seq!['\''] + escaped(v), seq!['\'']);
}

/// The quoted items of `values`.
pub open spec fn quoted_items(values: Seq<Seq<char>>) -> Seq<Seq<char>> {
    values.map_values(|v: Seq<char>| quote_item(v))
}

/// The joined quoted items of ASCII values are ASCII, and (when there is an
/// item) start and end with a quote.
proof fn lemma_joined_items(values: Seq<Seq<char>>)
    requires
        forall|k: int| 0 <= k < values.len() ==> is_ascii_text(#[trigger] values[k]),
    ensures
        is_ascii_text(seq_join(quoted_items(values), ", "@)),
        values.len() > 0 ==> seq_join(quoted_items(values), ", "@).len() > 0,
        values.len() > 0 ==> seq_join(quoted_items(values), ", "@)[0] == '\'',
        values.len() > 0 ==> seq_join(quoted_items(values), ", "@).last() == '\'',
    decreases values.len(),
{
    reveal_strlit(", ");
    let parts = quoted_items(values);
    if values.len() == 0 {
        assert(seq_join(parts, ", "@) =~= Seq::<char>::empty());
    } else {
        let last = values.last();
        lemma_quote_item(last);
        lemma_quote_item_ascii(last);
        assert(parts.last() == quote_item(last));
        if values.len() == 1 {
            assert(seq_join(parts, ", "@) == parts[0]);
        } else {
            let prefix = values.drop_last();
            assert(quoted_items(prefix) =~= parts.drop_last());
            lemma_joined_items(prefix);
            let jp = seq_join(quoted_items(prefix), ", "@);
            assert(is_ascii_text(", "@));
            lemma_ascii_concat(jp, ", "@);
            lemma_ascii_concat(jp + ", "@, quote_item(last));
            assert(seq_join(parts, ", "@) == jp + ", "@ + quote_item(last));
            assert((jp + ", "@ + quote_item(last))[0] == jp[0]);
        }
    }
}

/// Scanning a quoted ASCII item at `i`: no separator is skipped, the item
/// reads back as `v`, and what follows it is `tail`.
proof fn lemma_first_item(b: Seq<u8>, i: int, v: Seq<char>, tail: Seq<char>)
    requires
        0 <= i <= b.len(),
        is_ascii_text(v),
        b.skip(i) == ascii_bytes(quote_item(v) + tail),
    ensures
        i < b.len(),
        b[i] == 39,
        sep_end(b, i) == i,
        item_from(b, i + 1, 39) == (v, i + quote_item(v).len()),
        i + quote_item(v).len() <= b.len(),
        b.skip(i + quote_item(v).len()) == ascii_bytes(tail),
{
    let q = quote_item(v);
    let e = escaped(v);
    lemma_quote_item(v);
    lemma_ascii_byte('\'');
    lemma_ascii_bytes_concat(q, tail);
    lemma_ascii_bytes_concat(seq!['\''] + e, seq!['\'']);
    lemma_ascii_bytes_concat(seq!['\''], e);
    let bq = ascii_bytes(q);
    assert(bq.len() == e.len() + 2);
    assert(b.skip(i).len() == b.len() - i);
    assert(b.skip(i) =~= bq + ascii_bytes(tail));
    assert(bq[0] == ascii_byte('\''));
    assert(b[i] == b.skip(i)[0]);
    assert(!is_ws(byte_char(39)));
    assert forall|k: int| 0 <= k < e.len() implies #[trigger] b.subrange(i + 1, i + 1 + e.len())[k]
        == bq.subrange(1, 1 + e.len() as int)[k] by {
        assert(b.skip(i)[1 + k] == b[i + 1 + k]);
        assert((bq + ascii_bytes(tail))[1 + k] == bq[1 + k]);
    }
    assert(b.subrange(i + 1, i + 1 + e.len()) =~= bq.subrange(1, 1 + e.len() as int));
    assert(bq.subrange(1, 1 + e.len() as int) =~= ascii_bytes(e));
    assert(bq[1 + e.len() as int] == ascii_byte('\''));
    assert(b[i + 1 + e.len()] == b.skip(i)[1 + e.len() as int]);
    lemma_item_from_escaped(b, i + 1, v);
    assert(b.skip(i + q.len()) =~= b.skip(i).skip(q.len() as int));
}

/// Scanning the `", "` separator before a quoted item at `e` skips exactly
/// the separator.
proof fn lemma_separator(b: Seq<u8>, e: int, rest: Seq<char>)
    requires
        0 <= e <= b.len(),
        rest.len() > 0,
        rest[0] == '\'',
        b.skip(e) == ascii_bytes(", "@ + rest),
    ensures
        e + 2 < b.len(),
        sep_end(b, e) == e + 2,
        sep_end(b, e + 2) == e + 2,
        b.skip(e + 2) == ascii_bytes(rest),
{
    reveal_strlit(", ");
    lemma_ascii_byte('\'');
    lemma_ascii_byte(',');
    lemma_ascii_byte(' ');
    lemma_ascii_bytes_concat(", "@, rest);
    assert(b.skip(e).len() == b.len() - e);
    assert(b[e] == b.skip(e)[0]);
    assert(b[e + 1] == b.skip(e)[1]);
    assert(b[e + 2] == b.skip(e)[2]);
    assert(b[e] == 44);
    assert(b[e + 1] == 32);
    assert(b[e + 2] == 39);
    assert(is_ws(byte_char(32)));
    assert(!is_ws(byte_char(39)));
    assert(sep_end(b, e + 2) == e + 2);
    assert(sep_end(b, e + 1) == e + 2);
    assert(b.skip(e + 2) =~= b.skip(e).skip(2));
    assert(b.skip(e).skip(2) =~= ascii_bytes(rest));
}

/// Scanning the bytes of joined quoted ASCII items from index `i` gives
/// back the items.
proof fn lemma_items_from_joined(b: Seq<u8>, i: int, values: Seq<Seq<char>>)
    requires
        0 <= i <= b.len(),
        values.len() >= 1,
        forall|k: int| 0 <= k < values.len() ==> is_ascii_text(#[trigger] values[k]),
        b.skip(i) == ascii_bytes(seq_join(quoted_items(values), ", "@)),
    ensures
        items_from(b, i) == Some(values),
    decreases values.len(),
{
    let v0 = values[0];
    let parts = quoted_items(values);
    let rest = values.drop_first();
    if values.len() == 1 {
        assert(seq_join(parts, ", "@) == parts[0]);
        assert(quote_item(v0) + Seq::<char>::empty() =~= quote_item(v0));
        lemma_first_item(b, i, v0, Seq::empty());
        let e = i + quote_item(v0).len();
        assert(b.skip(e).len() == 0);
        assert(items_from(b, e) == Some(Seq::<Seq<char>>::empty()));
        assert(seq![v0] + Seq::<Seq<char>>::empty() =~= values);
    } else {
        let jr = seq_join(quoted_items(rest), ", "@);
        lemma_join_front(parts, ", "@);
        assert(parts.drop_first() =~= quoted_items(rest));
        assert(seq_join(parts, ", "@) =~= quote_item(v0) + (", "@ + jr));
        lemma_first_item(b, i, v0, ", "@ + jr);
        assert forall|k: int| 0 <= k < rest.len() implies is_ascii_text(#[trigger] rest[k]) by {
            assert(rest[k] == values[k + 1]);
        }
        lemma_joined_items(rest);
        let e = i + quote_item(v0).len();
        lemma_separator(b, e, jr);
        lemma_items_from_joined(b, e + 2, rest);
        assert(items_from(b, e) == items_from(b, e + 2));
        assert(seq![v0] + rest =~= values);
    }
}

/// Formatting ASCII values and parsing the text back gives the values.
pub proof fn lemma_format_parse_round_trip(values: Seq<Seq<char>>)
    requires
        forall|k: int| 0 <= k < values.len() ==> is_ascii_text(#[trigger] values[k]),
    ensures
        parsed_strv(Some(formatted_strv(values))) == values,
{
    reveal_strlit("[");
    reveal_strlit("]");
    reveal_strlit("@as ");
    let j = seq_join(quoted_items(values), ", "@);
    let f = formatted_strv(values);
    assert(f == "["@ + j + "]"@);
    assert(f[0] == '[');
    assert(f.last() == ']');
    lemma_trim_noop(f);
    assert(!starts_with(f, "@as "@)) by {
        if starts_with(f, "@as "@) {
            assert(f.take(4)[0] == '@');
        }
    }
    assert(f.subrange(1, f.len() - 1) =~= j);
    lemma_joined_items(values);
    if values.len() == 0 {
        assert(j.len() == 0);
        assert(trim(j) =~= j);
        assert(starts_with(f, seq!['['])) by {
            assert(f.take(1) =~= seq!['[']);
        }
    } else {
        lemma_trim_noop(j);
        assert(starts_with(f, seq!['['])) by {
            assert(f.take(1) =~= seq!['[']);
        }
        lemma_encode_ascii(j);
        assert(encode_utf8(j).skip(0) =~= ascii_bytes(j));
        lemma_items_from_joined(encode_utf8(j), 0, values);
    }
}

} // verus!
