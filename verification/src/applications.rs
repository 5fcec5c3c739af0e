//! The applications installed on the device as their `about.toml` files describe them,
//! the file types they open, and the capabilities granted to them.
use vstd::prelude::*;

use crate::text::{
    chars_of, find_char, first_index, lemma_first_index_bounds, lemma_first_index_contains, line_bounds,
    insert_sorted_distinct, lemma_seq_less_order, lines, lowercase_range, range_less, seq_less, slices, split_once, string_of, text_less,
    split_bounds, split_on, strictly_sorted, texts, to_ascii_lowercase, trim, trim_bounds, contains_chars, contains_seq,
};
use crate::values::{range_is, text_is};

verus! {

/// The text between the double quotes that enclose `v`, once trimmed, if it is so enclosed.
pub open spec fn quoted_value(v: Seq<char>) -> Option<Seq<char>> {
    let t = trim(v);
    if t.len() >= 2 && t[0] == '"' && t.last() == '"' {
        Some(t.subrange(1, t.len() - 1))
    } else {
        None
    }
}

/// The quoted value that the line `line` gives to the key `key`, if it does.
pub open spec fn field_of_line(line: Seq<char>, key: Seq<char>) -> Option<Seq<char>> {
    match split_once(line, '=') {
        Some((candidate, value)) => if trim(candidate) == key {
            quoted_value(value)
        } else {
            None
        },
        None => None,
    }
}

/// The first quoted value that one of the lines `ls` gives to `key`.
pub open spec fn first_field(ls: Seq<Seq<char>>, key: Seq<char>) -> Option<Seq<char>>
    decreases ls.len(),
{
    if ls.len() == 0 {
        None
    } else {
        match field_of_line(ls[0], key) {
            Some(v) => Some(v),
            None => first_field(ls.drop_first(), key),
        }
    }
}

/// The quoted value of `key` in the metadata `content`: the first line `key = "value"`.
pub open spec fn string_field(content: Seq<char>, key: Seq<char>) -> Option<Seq<char>> {
    first_field(lines(content), key)
}

/// The quoted value that the line `v[from..to]` gives to `key`, if it does.
fn field_in_line(v: &Vec<char>, from: usize, to: usize, key: &str) -> (r: Option<String>)
    requires
        from <= to <= v.len(),
    ensures
        match r {
            Some(s) => field_of_line(v@.subrange(from as int, to as int), key@) == Some(s@),
            None => field_of_line(v@.subrange(from as int, to as int), key@) is None,
        },
{
    let ghost line = v@.subrange(from as int, to as int);
    match find_char(v, from, to, '=') {
        None => None,
        Some(eq) => {
            assert(line.subrange(0, eq - from) == v@.subrange(from as int, eq as int));
            assert(line.subrange(eq - from + 1, line.len() as int) == v@.subrange(eq + 1, to as int));
            let (ka, kb) = trim_bounds(v, from, eq);
            if !range_is(v, ka, kb, key) {
                return None;
            }
            let (a, b) = trim_bounds(v, eq + 1, to);
            if b - a >= 2 && v[a] == '"' && v[b - 1] == '"' {
                let s = string_of(v, a + 1, b - 1);
                assert(v@.subrange(a as int, b as int).subrange(1, (b - a) - 1) == v@.subrange(a + 1, b - 1));
                Some(s)
            } else {
                None
            }
        },
    }
}

/// The quoted value of `key` in the metadata `content`: the first line `key = "value"`.
pub fn parse_string_field(content: &str, key: &str) -> (r: Option<String>)
    ensures
        match r {
            Some(s) => string_field(content@, key@) == Some(s@),
            None => string_field(content@, key@) is None,
        },
{
    let v = chars_of(content);
    assert(v@.subrange(0, v@.len() as int) == v@);
    let ls = line_bounds(&v, 0, v.len());
    let ghost all = lines(content@);
    let mut k: usize = 0;
    assert(all.subrange(0, all.len() as int) == all);
    while k < ls.len()
        invariant
            v@ == content@,
            all == lines(content@),
            slices(v@, ls@) == all,
            forall|j: int| 0 <= j < ls@.len() ==> 0 <= (#[trigger] ls@[j]).0 <= ls@[j].1 <= v@.len(),
            k <= ls.len(),
            first_field(all, key@) == first_field(all.subrange(k as int, all.len() as int), key@),
        decreases ls.len() - k,
    {
        let (a, b) = ls[k];
        assert(ls@[k as int] == (a, b));
        let ghost rest = all.subrange(k as int, all.len() as int);
        assert(rest[0] == v@.subrange(a as int, b as int));
        assert(rest.drop_first() == all.subrange(k + 1, all.len() as int));
        let found = field_in_line(&v, a, b, key);
        if found.is_some() {
            return found;
        }
        k = k + 1;
    }
    None
}

/// The texts between successive pairs of double quotes in `s`, in order; an unpaired
/// double quote at the end is ignored.
pub open spec fn quoted_strings(s: Seq<char>) -> Seq<Seq<char>>
    decreases s.len(),
{
    let i = first_index(s, '"');
    if i < 0 {
        seq![]
    } else {
        proof {
            lemma_first_index_bounds(s, '"');
        }
        let after = s.subrange(i + 1, s.len() as int);
        let j = first_index(after, '"');
        if j < 0 {
            seq![]
        } else {
            proof {
                lemma_first_index_bounds(after, '"');
            }
            seq![after.subrange(0, j)] + quoted_strings(after.subrange(j + 1, after.len() as int))
        }
    }
}

/// Whether the trimmed line `line` starts the array of `key`: `key = [ ...`.
pub open spec fn starts_array(line: Seq<char>, key: Seq<char>) -> bool {
    match split_once(line, '=') {
        Some((candidate, rest)) => trim(candidate) == key && rest.contains('['),
        None => false,
    }
}

/// The quoted strings of the array of `key` in the lines `ls`: from the line that starts
/// the array (when `collecting` is false) through the first line that holds `]`.
pub open spec fn array_values(ls: Seq<Seq<char>>, key: Seq<char>, collecting: bool) -> Seq<Seq<char>>
    decreases ls.len(),
{
    if ls.len() == 0 {
        seq![]
    } else {
        let line = trim(ls[0]);
        if !collecting && !starts_array(line, key) {
            array_values(ls.drop_first(), key, false)
        } else if line.contains(']') {
            quoted_strings(line)
        } else {
            quoted_strings(line) + array_values(ls.drop_first(), key, true)
        }
    }
}

/// The quoted strings of the array of `key` in the metadata `content`.
pub open spec fn string_array_field(content: Seq<char>, key: Seq<char>) -> Seq<Seq<char>> {
    array_values(lines(content), key, false)
}

/// The texts between successive pairs of double quotes in `v[from..to]`.
fn quoted_strings_in(v: &Vec<char>, from: usize, to: usize) -> (out: Vec<String>)
    requires
        from <= to <= v.len(),
    ensures
        texts(out@) == quoted_strings(v@.subrange(from as int, to as int)),
{
    let mut out: Vec<String> = Vec::new();
    let mut pos = from;
    while pos < to
        invariant
            from <= pos <= to <= v.len(),
            texts(out@) + quoted_strings(v@.subrange(pos as int, to as int)) == quoted_strings(
                v@.subrange(from as int, to as int),
            ),
        decreases to - pos,
    {
        let ghost s = v@.subrange(pos as int, to as int);
        match find_char(v, pos, to, '"') {
            None => {
                assert(quoted_strings(s) == Seq::<Seq<char>>::empty());
                assert(texts(out@) + Seq::<Seq<char>>::empty() == texts(out@));
                return out;
            },
            Some(start) => {
                let ghost after = s.subrange(start - pos + 1, s.len() as int);
                assert(after == v@.subrange(start + 1, to as int));
                match find_char(v, start + 1, to, '"') {
                    None => {
                        assert(quoted_strings(s) == Seq::<Seq<char>>::empty());
                        assert(texts(out@) + Seq::<Seq<char>>::empty() == texts(out@));
                        return out;
                    },
                    Some(end) => {
                        let piece = string_of(v, start + 1, end);
                        assert(after.subrange(0, end - start - 1) == v@.subrange(start + 1, end as int));
                        assert(after.subrange(end - start, after.len() as int) == v@.subrange(end + 1, to as int));
                        let ghost prev = out@;
                        out.push(piece);
                        assert(texts(out@) == texts(prev).push(piece@));
                        pos = end + 1;
                    },
                }
            },
        }
    }
    proof {
        let e = v@.subrange(pos as int, to as int);
        assert(e.len() == 0);
        assert(first_index(e, '"') < 0);
        assert(texts(out@) + Seq::<Seq<char>>::empty() == texts(out@));
    }
    out
}

/// Whether `c` occurs in `v[from..to]`.
fn range_contains(v: &Vec<char>, from: usize, to: usize, c: char) -> (b: bool)
    requires
        from <= to <= v.len(),
    ensures
        b == v@.subrange(from as int, to as int).contains(c),
{
    proof {
        lemma_first_index_contains(v@.subrange(from as int, to as int), c);
    }
    find_char(v, from, to, c).is_some()
}

/// Whether the trimmed line `v[from..to]` starts the array of `key`.
fn line_starts_array(v: &Vec<char>, from: usize, to: usize, key: &str) -> (b: bool)
    requires
        from <= to <= v.len(),
    ensures
        b == starts_array(v@.subrange(from as int, to as int), key@),
{
    let ghost line = v@.subrange(from as int, to as int);
    match find_char(v, from, to, '=') {
        None => false,
        Some(eq) => {
            assert(line.subrange(0, eq - from) == v@.subrange(from as int, eq as int));
            assert(line.subrange(eq - from + 1, line.len() as int) == v@.subrange(eq + 1, to as int));
            let (ka, kb) = trim_bounds(v, from, eq);
            range_is(v, ka, kb, key) && range_contains(v, eq + 1, to, '[')
        },
    }
}

/// The quoted strings of the array of `key` in the metadata `content`: the array starts
/// on the first line `key = [` and ends on the first line from there that holds `]`.
pub fn parse_string_array_field(content: &str, key: &str) -> (values: Vec<String>)
    ensures
        texts(values@) == string_array_field(content@, key@),
{
    let v = chars_of(content);
    assert(v@.subrange(0, v@.len() as int) == v@);
    let ls = line_bounds(&v, 0, v.len());
    let ghost all = lines(content@);
    let mut values: Vec<String> = Vec::new();
    let mut collecting = false;
    let mut k: usize = 0;
    assert(all.subrange(0, all.len() as int) == all);
    assert(texts(values@) + array_values(all, key@, false) == array_values(all, key@, false));
    while k < ls.len()
        invariant
            v@ == content@,
            all == lines(content@),
            slices(v@, ls@) == all,
            forall|j: int| 0 <= j < ls@.len() ==> 0 <= (#[trigger] ls@[j]).0 <= ls@[j].1 <= v@.len(),
            k <= ls.len(),
            texts(values@) + array_values(all.subrange(k as int, all.len() as int), key@, collecting)
                == array_values(all, key@, false),
        decreases ls.len() - k,
    {
        let (a0, b0) = ls[k];
        assert(ls@[k as int] == (a0, b0));
        let ghost rest = all.subrange(k as int, all.len() as int);
        assert(rest[0] == v@.subrange(a0 as int, b0 as int));
        assert(rest.drop_first() == all.subrange(k + 1, all.len() as int));
        let (a, b) = trim_bounds(&v, a0, b0);
        if !collecting {
            if !line_starts_array(&v, a, b, key) {
                k = k + 1;
                continue;
            }
            collecting = true;
        }
        let found = quoted_strings_in(&v, a, b);
        let ghost prev = values@;
        let mut found = found;
        values.append(&mut found);
        assert(texts(values@) == texts(prev) + quoted_strings(v@.subrange(a as int, b as int)));
        if range_contains(&v, a, b, ']') {
            assert(texts(values@) == array_values(all, key@, false));
            return values;
        }
        k = k + 1;
    }
    assert(all.subrange(k as int, all.len() as int).len() == 0);
    assert(texts(values@) + Seq::<Seq<char>>::empty() == texts(values@));
    values
}

/// Whether `c` may stand in a file extension: an ASCII letter or digit, `-` or `_`.
pub open spec fn is_extension_char(c: char) -> bool {
    ('a' <= c && c <= 'z') || ('A' <= c && c <= 'Z') || ('0' <= c && c <= '9') || c == '-' || c == '_'
}

/// Whether `e` is a file extension that an application may declare: 1 to 63 characters,
/// each an ASCII letter or digit, `-` or `_`. (The length that `str::len` gives counts
/// bytes; for the ASCII characters admitted here it is the count of characters.)
pub open spec fn is_valid_extension(e: Seq<char>) -> bool {
    0 < e.len() <= 63 && forall|i: int| 0 <= i < e.len() ==> is_extension_char(#[trigger] e[i])
}

/// `s` without the dots it starts with.
pub open spec fn trim_leading_dots(s: Seq<char>) -> Seq<char>
    decreases s.len(),
{
    if s.len() > 0 && s[0] == '.' {
        trim_leading_dots(s.drop_first())
    } else {
        s
    }
}

/// The document extensions that the declared `raw` extensions give: leading dots
/// removed, ASCII letters in lower case, invalid extensions left out, order kept.
pub open spec fn document_extensions(raw: Seq<Seq<char>>) -> Seq<Seq<char>>
    decreases raw.len(),
{
    if raw.len() == 0 {
        seq![]
    } else {
        let e = to_ascii_lowercase(trim_leading_dots(raw.last()));
        if is_valid_extension(e) {
            document_extensions(raw.drop_last()).push(e)
        } else {
            document_extensions(raw.drop_last())
        }
    }
}

fn is_extension_char_exec(c: char) -> (b: bool)
    ensures
        b == is_extension_char(c),
{
    ('a' <= c && c <= 'z') || ('A' <= c && c <= 'Z') || ('0' <= c && c <= '9') || c == '-' || c == '_'
}

/// Whether `v` is a file extension that an application may declare.
fn valid_extension_chars(v: &Vec<char>) -> (b: bool)
    ensures
        b == is_valid_extension(v@),
{
    if v.len() == 0 || v.len() > 63 {
        return false;
    }
    let mut i: usize = 0;
    while i < v.len()
        invariant
            i <= v.len(),
            forall|k: int| 0 <= k < i ==> is_extension_char(#[trigger] v@[k]),
        decreases v.len() - i,
    {
        if !is_extension_char_exec(v[i]) {
            return false;
        }
        i = i + 1;
    }
    true
}

/// Whether `extension` is a file extension that an application may declare.
pub fn valid_extension(extension: &str) -> (b: bool)
    ensures
        b == is_valid_extension(extension@),
{
    valid_extension_chars(&chars_of(extension))
}

proof fn lemma_trim_leading_dots(s: Seq<char>, i: int)
    requires
        0 <= i <= s.len(),
        forall|k: int| 0 <= k < i ==> #[trigger] s[k] == '.',
        i == s.len() || s[i] != '.',
    ensures
        trim_leading_dots(s) == s.subrange(i, s.len() as int),
    decreases i,
{
    if i > 0 {
        lemma_trim_leading_dots(s.drop_first(), i - 1);
        assert(s.drop_first().subrange(i - 1, s.len() - 1) == s.subrange(i, s.len() as int));
    } else {
        assert(s.subrange(0, s.len() as int) == s);
    }
}

/// The extension `raw` without leading dots and with ASCII letters in lower case.
fn normalize_extension(raw: &String) -> (e: Vec<char>)
    ensures
        e@ == to_ascii_lowercase(trim_leading_dots(raw@)),
{
    let v = chars_of(raw.as_str());
    let mut i: usize = 0;
    while i < v.len() && v[i] == '.'
        invariant
            i <= v.len(),
            forall|k: int| 0 <= k < i ==> #[trigger] v@[k] == '.',
        decreases v.len() - i,
    {
        i = i + 1;
    }
    proof {
        lemma_trim_leading_dots(v@, i as int);
    }
    lowercase_range(&v, i, v.len())
}

/// The document extensions that the declared extensions `raw` give.
pub fn document_extensions_of(raw: &Vec<String>) -> (out: Vec<String>)
    ensures
        texts(out@) == document_extensions(texts(raw@)),
{
    let mut out: Vec<String> = Vec::new();
    let mut i: usize = 0;
    while i < raw.len()
        invariant
            i <= raw@.len(),
            texts(out@) == document_extensions(texts(raw@).take(i as int)),
        decreases raw.len() - i,
    {
        assert(texts(raw@).take(i + 1).drop_last() == texts(raw@).take(i as int));
        assert(texts(raw@).take(i + 1).last() == raw@[i as int]@);
        let e = normalize_extension(&raw[i]);
        if valid_extension_chars(&e) {
            let ghost prev = out@;
            let t = string_of(&e, 0, e.len());
            assert(e@.subrange(0, e@.len() as int) == e@);
            out.push(t);
            assert(texts(out@) == texts(prev).push(e@));
        }
        i = i + 1;
    }
    assert(texts(raw@).take(raw@.len() as int) == texts(raw@));
    out
}

/// What the metadata of an application says of it.
pub struct ApplicationAbout {
    pub name: String,
    pub bundle_id: String,
    /// The file of the executable, relative to the application directory.
    pub entry: String,
    pub developer: String,
    /// The file of the icon, relative to the application directory.
    pub icon: Option<String>,
    pub document_extensions: Vec<String>,
}

/// The developer that the metadata `content` names: `developer`, else `vendor`, else
/// `Unknown developer`.
pub open spec fn developer_of(content: Seq<char>) -> Seq<char> {
    match string_field(content, "developer"@) {
        Some(d) => d,
        None => match string_field(content, "vendor"@) {
            Some(v) => v,
            None => "Unknown developer"@,
        },
    }
}

/// The text of an optional string.
pub open spec fn opt_text(o: Option<String>) -> Option<Seq<char>> {
    match o {
        Some(s) => Some(s@),
        None => None,
    }
}

/// What the metadata `content` of an application says of it, if it names the
/// application, its bundle identifier and its executable.
pub fn parse_about(content: &str) -> (r: Option<ApplicationAbout>)
    ensures
        r is Some <==> (string_field(content@, "name"@) is Some && string_field(content@, "bundle_id"@) is Some
            && string_field(content@, "entry"@) is Some),
        r matches Some(a) ==> {
            &&& string_field(content@, "name"@) == Some(a.name@)
            &&& string_field(content@, "bundle_id"@) == Some(a.bundle_id@)
            &&& string_field(content@, "entry"@) == Some(a.entry@)
            &&& a.developer@ == developer_of(content@)
            &&& opt_text(a.icon) == string_field(content@, "icon"@)
            &&& texts(a.document_extensions@) == document_extensions(
                string_array_field(content@, "document_extensions"@),
            )
        },
{
    let name = parse_string_field(content, "name")?;
    let bundle_id = parse_string_field(content, "bundle_id")?;
    let entry = parse_string_field(content, "entry")?;
    let developer = match parse_string_field(content, "developer") {
        Some(d) => d,
        None => match parse_string_field(content, "vendor") {
            Some(v) => v,
            None => String::from_str("Unknown developer"),
        },
    };
    let icon = parse_string_field(content, "icon");
    let raw = parse_string_array_field(content, "document_extensions");
    let document_extensions = document_extensions_of(&raw);
    Some(ApplicationAbout { name, bundle_id, entry, developer, icon, document_extensions })
}

/// An installed application.
pub struct ApplicationEntry {
    pub name: String,
    pub bundle_id: String,
    pub developer: String,
    /// The path of its executable.
    pub executable: String,
    /// The path of its icon file, if it names one.
    pub icon: Option<String>,
    pub document_extensions: Vec<String>,
}

/// An installed application, as mathematical values.
pub struct EntryView {
    pub name: Seq<char>,
    pub bundle_id: Seq<char>,
    pub developer: Seq<char>,
    pub executable: Seq<char>,
    pub icon: Option<Seq<char>>,
    pub document_extensions: Seq<Seq<char>>,
}

impl View for ApplicationEntry {
    type V = EntryView;

    open spec fn view(&self) -> EntryView {
        EntryView {
            name: self.name@,
            bundle_id: self.bundle_id@,
            developer: self.developer@,
            executable: self.executable@,
            icon: opt_text(self.icon),
            document_extensions: texts(self.document_extensions@),
        }
    }
}

/// The applications `v`, as mathematical values.
pub open spec fn entries(v: Seq<ApplicationEntry>) -> Seq<EntryView> {
    v.map_values(|e: ApplicationEntry| e@)
}

/// Whether `x` is listed before `y`: by name, without regard to the case of ASCII
/// letters, then by bundle identifier.
pub open spec fn entry_less(x: EntryView, y: EntryView) -> bool {
    let a = to_ascii_lowercase(x.name);
    let b = to_ascii_lowercase(y.name);
    seq_less(a, b) || (a == b && seq_less(x.bundle_id, y.bundle_id))
}

/// Where `x` goes in the listed applications `t`: after every application not listed after it.
pub open spec fn insertion_index(t: Seq<EntryView>, x: EntryView) -> int
    decreases t.len(),
{
    if t.len() == 0 {
        0
    } else if entry_less(x, t[0]) {
        0
    } else {
        1 + insertion_index(t.drop_first(), x)
    }
}

/// The applications `s` in the order they are listed, applications that compare equal
/// kept in the order of `s` (the order of a stable sort).
pub open spec fn sorted_entries(s: Seq<EntryView>) -> Seq<EntryView>
    decreases s.len(),
{
    if s.len() == 0 {
        s
    } else {
        let t = sorted_entries(s.drop_last());
        t.insert(insertion_index(t, s.last()), s.last())
    }
}

proof fn lemma_insertion_index(t: Seq<EntryView>, x: EntryView, i: int)
    requires
        0 <= i <= t.len(),
        forall|k: int| 0 <= k < i ==> !entry_less(x, #[trigger] t[k]),
        i == t.len() || entry_less(x, t[i]),
    ensures
        insertion_index(t, x) == i,
    decreases i,
{
    if i > 0 {
        assert forall|k: int| 0 <= k < i - 1 implies !entry_less(x, #[trigger] t.drop_first()[k]) by {
            assert(t.drop_first()[k] == t[k + 1]);
        }
        lemma_insertion_index(t.drop_first(), x, i - 1);
    }
}

proof fn lemma_insertion_index_properties(t: Seq<EntryView>, x: EntryView)
    ensures
        0 <= insertion_index(t, x) <= t.len(),
        forall|k: int| 0 <= k < insertion_index(t, x) ==> !entry_less(x, #[trigger] t[k]),
        insertion_index(t, x) < t.len() ==> entry_less(x, t[insertion_index(t, x)]),
    decreases t.len(),
{
    if t.len() > 0 && !entry_less(x, t[0]) {
        lemma_insertion_index_properties(t.drop_first(), x);
        assert forall|k: int| 0 <= k < insertion_index(t, x) implies !entry_less(x, #[trigger] t[k]) by {
            if k > 0 {
                assert(t[k] == t.drop_first()[k - 1]);
            }
        }
    }
}

proof fn lemma_entry_less_order(x: EntryView, y: EntryView, z: EntryView)
    ensures
        !entry_less(x, x),
        entry_less(x, y) && entry_less(y, z) ==> entry_less(x, z),
{
    let a = to_ascii_lowercase(x.name);
    let b = to_ascii_lowercase(y.name);
    let c = to_ascii_lowercase(z.name);
    lemma_seq_less_order(a, b, c);
    lemma_seq_less_order(a, a, a);
    lemma_seq_less_order(b, a, c);
    lemma_seq_less_order(x.bundle_id, y.bundle_id, z.bundle_id);
    lemma_seq_less_order(x.bundle_id, x.bundle_id, x.bundle_id);
}

/// Whether no application of `t` is listed before one that precedes it.
pub open spec fn entries_in_order(t: Seq<EntryView>) -> bool {
    forall|i: int, j: int| 0 <= i < j < t.len() ==> !entry_less(#[trigger] t[j], #[trigger] t[i])
}

/// Listing the applications keeps every one of them, drops none and adds none, and lists
/// them in order: none comes after one that it is listed before.
pub proof fn lemma_sorted_entries(s: Seq<EntryView>)
    ensures
        sorted_entries(s).to_multiset() == s.to_multiset(),
        entries_in_order(sorted_entries(s)),
    decreases s.len(),
{
    broadcast use vstd::seq_lib::to_multiset_build, vstd::seq_lib::to_multiset_insert;

    if s.len() == 0 {
    } else {
        lemma_sorted_entries(s.drop_last());
        let t = sorted_entries(s.drop_last());
        let x = s.last();
        lemma_insertion_index_properties(t, x);
        let k = insertion_index(t, x);
        let n = t.insert(k, x);
        assert(s.drop_last().push(x) == s);
        assert forall|a: int, b: int| 0 <= a < b < n.len() implies !entry_less(#[trigger] n[b], #[trigger] n[a]) by {
            if b < k {
                assert(n[a] == t[a] && n[b] == t[b]);
            } else if a > k {
                assert(n[a] == t[a - 1] && n[b] == t[b - 1]);
            } else if a < k && b > k {
                assert(n[a] == t[a] && n[b] == t[b - 1]);
            } else if b == k {
                assert(n[a] == t[a] && n[b] == x);
            } else {
                assert(a == k && n[a] == x && n[b] == t[b - 1]);
                lemma_entry_less_order(t[b - 1], x, t[k]);
                lemma_entry_less_order(t[k], t[k], t[k]);
                if k < b - 1 {
                    assert(!entry_less(t[b - 1], t[k]));
                }
            }
        }
    }
}

/// Whether the application `x` is listed before `y`.
fn entry_before(x: &ApplicationEntry, y: &ApplicationEntry) -> (r: bool)
    ensures
        r == entry_less(x@, y@),
{
    let xn = chars_of(x.name.as_str());
    let yn = chars_of(y.name.as_str());
    let a = lowercase_range(&xn, 0, xn.len());
    let b = lowercase_range(&yn, 0, yn.len());
    assert(xn@.subrange(0, xn@.len() as int) == x.name@);
    assert(yn@.subrange(0, yn@.len() as int) == y.name@);
    assert(a@.subrange(0, a@.len() as int) == a@);
    assert(b@.subrange(0, b@.len() as int) == b@);
    if range_less(&a, 0, a.len(), &b, 0, b.len()) {
        return true;
    }
    let same = a.len() == b.len() && range_less(&a, 0, a.len(), &b, 0, b.len()) == false && range_less(
        &b,
        0,
        b.len(),
        &a,
        0,
        a.len(),
    ) == false;
    proof {
        lemma_seq_less_order(a@, b@, a@);
    }
    same && text_less(x.bundle_id.as_str(), y.bundle_id.as_str())
}

/// The applications `apps` in the order they are listed: by name without regard to the
/// case of ASCII letters, then by bundle identifier, equal ones in the order given.
pub fn sort_applications(apps: Vec<ApplicationEntry>) -> (out: Vec<ApplicationEntry>)
    ensures
        entries(out@) == sorted_entries(entries(apps@)),
{
    let ghost all = entries(apps@);
    let mut rest = apps;
    let total = rest.len();
    let mut out: Vec<ApplicationEntry> = Vec::new();
    let mut n: usize = 0;
    while rest.len() > 0
        invariant
            all.len() == total,
            n + rest@.len() == all.len(),
            entries(rest@) == all.subrange(n as int, all.len() as int),
            entries(out@) == sorted_entries(all.take(n as int)),
        decreases rest.len(),
    {
        let ghost r0 = rest@;
        let x = rest.remove(0);
        assert(entries(r0)[0] == r0[0]@);
        assert(x@ == all[n as int]);
        assert(entries(rest@) == entries(r0).drop_first());
        assert(entries(rest@) == all.subrange(n + 1, all.len() as int));
        let ghost t = entries(out@);
        let mut i: usize = 0;
        while i < out.len() && !entry_before(&x, &out[i])
            invariant
                i <= out@.len(),
                t == entries(out@),
                forall|k: int| 0 <= k < i ==> !entry_less(x@, #[trigger] t[k]),
            decreases out.len() - i,
        {
            i = i + 1;
        }
        proof {
            lemma_insertion_index(t, x@, i as int);
            assert(all.take(n + 1).drop_last() == all.take(n as int));
            assert(all.take(n + 1).last() == x@);
        }
        let ghost xv = x@;
        out.insert(i, x);
        assert(entries(out@) == t.insert(i as int, xv));
        n = n + 1;
    }
    assert(all.take(n as int) == all);
    out
}

/// Whether some application of `apps` declares the document extension `e`.
pub open spec fn declared_by_some(apps: Seq<EntryView>, e: Seq<char>) -> bool {
    exists|i: int| 0 <= i < apps.len() && (#[trigger] apps[i]).document_extensions.contains(e)
}

/// The document extensions that the applications `apps` declare, each once, in the order
/// of texts.
pub fn association_extensions(apps: &Vec<ApplicationEntry>) -> (out: Vec<String>)
    ensures
        strictly_sorted(texts(out@)),
        forall|e: Seq<char>| texts(out@).contains(e) <==> declared_by_some(entries(apps@), e),
{
    let mut out: Vec<String> = Vec::new();
    let mut i: usize = 0;
    while i < apps.len()
        invariant
            i <= apps@.len(),
            strictly_sorted(texts(out@)),
            forall|e: Seq<char>| texts(out@).contains(e) <==> declared_by_some(entries(apps@.take(i as int)), e),
        decreases apps.len() - i,
    {
        let exts = &apps[i].document_extensions;
        let mut j: usize = 0;
        while j < exts.len()
            invariant
                i < apps@.len(),
                exts == apps@[i as int].document_extensions,
                j <= exts@.len(),
                strictly_sorted(texts(out@)),
                forall|e: Seq<char>| texts(out@).contains(e) <==> (declared_by_some(entries(apps@.take(i as int)), e)
                    || texts(exts@).take(j as int).contains(e)),
            decreases exts.len() - j,
        {
            let ghost before = texts(out@);
            let ghost x = exts@[j as int]@;
            insert_sorted_distinct(&mut out, exts[j].clone());
            j = j + 1;
            proof {
                let tj = texts(exts@).take(j - 1);
                let tj1 = texts(exts@).take(j as int);
                assert(tj1 == tj.push(x));
                assert forall|e: Seq<char>| #[trigger] texts(out@).contains(e) <==> (declared_by_some(
                    entries(apps@.take(i as int)),
                    e,
                ) || tj1.contains(e)) by {
                    assert(texts(out@).to_set().contains(e) == texts(out@).contains(e));
                    assert(before.to_set().contains(e) == before.contains(e));
                    if tj1.contains(e) {
                        let k = choose|k: int| 0 <= k < tj1.len() && tj1[k] == e;
                        if k < j - 1 {
                            assert(tj[k] == e);
                        }
                    }
                    if tj.contains(e) {
                        let k = choose|k: int| 0 <= k < tj.len() && tj[k] == e;
                        assert(tj1[k] == e);
                    }
                    if e == x {
                        assert(tj1[j - 1] == e);
                    }
                }
            }
        }
        proof {
            assert(texts(exts@).take(exts@.len() as int) == texts(exts@));
            let now = entries(apps@.take(i + 1));
            assert forall|e: Seq<char>| texts(out@).contains(e) <==> declared_by_some(now, e) by {
                let prev = entries(apps@.take(i as int));
                if declared_by_some(prev, e) {
                    let k = choose|k: int| 0 <= k < prev.len() && (#[trigger] prev[k]).document_extensions.contains(e);
                    assert(now[k] == prev[k]);
                }
                if texts(exts@).contains(e) {
                    assert(now[i as int].document_extensions == texts(exts@));
                }
                if declared_by_some(now, e) {
                    let k = choose|k: int| 0 <= k < now.len() && (#[trigger] now[k]).document_extensions.contains(e);
                    if k < i {
                        assert(prev[k] == now[k]);
                    }
                }
            }
        }
        i = i + 1;
    }
    assert(apps@.take(apps@.len() as int) == apps@);
    out
}

/// An application that opens a file type: its name and bundle identifier.
#[derive(Clone, Debug, PartialEq, Eq)]
pub struct AssociationApplication {
    pub name: String,
    pub bundle_id: String,
}

/// A file type, the applications that open it, and the bundle identifier of the one
/// that opens it by default.
#[derive(Clone, Debug, PartialEq, Eq)]
pub struct FileAssociationSetting {
    pub extension: String,
    pub handlers: Vec<AssociationApplication>,
    pub default_bundle_id: String,
}

/// A file type association, as mathematical values.
pub struct AssociationView {
    pub extension: Seq<char>,
    pub handlers: Seq<(Seq<char>, Seq<char>)>,
    pub default_bundle_id: Seq<char>,
}

impl View for FileAssociationSetting {
    type V = AssociationView;

    open spec fn view(&self) -> AssociationView {
        AssociationView {
            extension: self.extension@,
            handlers: self.handlers@.map_values(|h: AssociationApplication| (h.name@, h.bundle_id@)),
            default_bundle_id: self.default_bundle_id@,
        }
    }
}

/// The associations `v`, as mathematical values.
pub open spec fn associations_view(v: Seq<FileAssociationSetting>) -> Seq<AssociationView> {
    v.map_values(|a: FileAssociationSetting| a@)
}

/// The applications of `apps` that declare the extension `e`, in order, by name and
/// bundle identifier.
pub open spec fn handlers_of(apps: Seq<EntryView>, e: Seq<char>) -> Seq<(Seq<char>, Seq<char>)>
    decreases apps.len(),
{
    if apps.len() == 0 {
        seq![]
    } else if apps.last().document_extensions.contains(e) {
        handlers_of(apps.drop_last(), e).push((apps.last().name, apps.last().bundle_id))
    } else {
        handlers_of(apps.drop_last(), e)
    }
}

/// Whether one of the `handlers` has the bundle identifier `b`.
pub open spec fn handled_by(handlers: Seq<(Seq<char>, Seq<char>)>, b: Seq<char>) -> bool {
    exists|i: int| 0 <= i < handlers.len() && (#[trigger] handlers[i]).1 == b
}

/// The default application of a file type with the `handlers` given, where the system
/// names `resolved`: that one if it handles the type, else the first handler.
pub open spec fn default_handler(handlers: Seq<(Seq<char>, Seq<char>)>, resolved: Option<Seq<char>>) -> Seq<char> {
    match resolved {
        Some(b) => if handled_by(handlers, b) { b } else { handlers[0].1 },
        None => handlers[0].1,
    }
}

/// The associations of the extensions `exts` with the applications `apps`, where
/// `resolved[i]` is the default application the system names for `exts[i]`; an extension
/// that no application declares is left out.
pub open spec fn associations_of(
    apps: Seq<EntryView>,
    exts: Seq<Seq<char>>,
    resolved: Seq<Option<Seq<char>>>,
) -> Seq<AssociationView>
    decreases exts.len(),
{
    if exts.len() == 0 {
        seq![]
    } else {
        let prev = associations_of(apps, exts.drop_last(), resolved.drop_last());
        let e = exts.last();
        let h = handlers_of(apps, e);
        if h.len() == 0 {
            prev
        } else {
            prev.push(AssociationView { extension: e, handlers: h, default_bundle_id: default_handler(h, resolved.last()) })
        }
    }
}

/// The texts of optional strings.
pub open spec fn opt_texts(v: Seq<Option<String>>) -> Seq<Option<Seq<char>>> {
    v.map_values(|o: Option<String>| opt_text(o))
}

/// The handlers of the extension `e` among `apps`.
fn handlers_for(apps: &Vec<ApplicationEntry>, e: &String) -> (h: Vec<AssociationApplication>)
    ensures
        h@.map_values(|a: AssociationApplication| (a.name@, a.bundle_id@)) == handlers_of(entries(apps@), e@),
{
    let mut h: Vec<AssociationApplication> = Vec::new();
    let mut i: usize = 0;
    while i < apps.len()
        invariant
            i <= apps@.len(),
            h@.map_values(|a: AssociationApplication| (a.name@, a.bundle_id@)) == handlers_of(
                entries(apps@.take(i as int)),
                e@,
            ),
        decreases apps.len() - i,
    {
        assert(entries(apps@.take(i + 1)).drop_last() == entries(apps@.take(i as int)));
        assert(entries(apps@.take(i + 1)).last() == apps@[i as int]@);
        if contains_text(&apps[i].document_extensions, e) {
            let ghost prev = h@;
            h.push(AssociationApplication { name: apps[i].name.clone(), bundle_id: apps[i].bundle_id.clone() });
            assert(h@.map_values(|a: AssociationApplication| (a.name@, a.bundle_id@)) == prev.map_values(
                |a: AssociationApplication| (a.name@, a.bundle_id@),
            ).push((apps@[i as int].name@, apps@[i as int].bundle_id@)));
        }
        i = i + 1;
    }
    assert(apps@.take(apps@.len() as int) == apps@);
    h
}

/// Whether the text `e` is one of `v`.
fn contains_text(v: &Vec<String>, e: &String) -> (b: bool)
    ensures
        b == texts(v@).contains(e@),
{
    let mut i: usize = 0;
    while i < v.len()
        invariant
            i <= v@.len(),
            forall|k: int| 0 <= k < i ==> (#[trigger] v@[k])@ != e@,
        decreases v.len() - i,
    {
        if v[i].eq(e) {
            assert(texts(v@)[i as int] == e@);
            return true;
        }
        i = i + 1;
    }
    assert forall|k: int| 0 <= k < texts(v@).len() implies texts(v@)[k] != e@ by {
        assert(texts(v@)[k] == v@[k]@);
    }
    false
}

/// The default application among `handlers` for a file type whose default the system
/// names as `resolved`.
fn choose_default(handlers: &Vec<AssociationApplication>, resolved: &Option<String>) -> (d: String)
    requires
        handlers@.len() > 0,
    ensures
        d@ == default_handler(handlers@.map_values(|a: AssociationApplication| (a.name@, a.bundle_id@)), opt_text(*resolved)),
{
    let ghost hv = handlers@.map_values(|a: AssociationApplication| (a.name@, a.bundle_id@));
    let r = resolved.as_ref();
    match r {
        Some(b) => {
            assert(resolved->0 == *b);
            assert(opt_text(*resolved) == Some(b@));
            let mut i: usize = 0;
            while i < handlers.len()
                invariant
                    i <= handlers@.len(),
                    hv == handlers@.map_values(|a: AssociationApplication| (a.name@, a.bundle_id@)),
                    opt_text(*resolved) == Some(b@),
                    forall|k: int| 0 <= k < i ==> (#[trigger] hv[k]).1 != b@,
                decreases handlers.len() - i,
            {
                if handlers[i].bundle_id.eq(b) {
                    assert(hv[i as int].1 == b@);
                    assert(opt_text(*resolved) == Some(b@));
                    assert(handled_by(hv, b@));
                    return b.clone();
                }
                i = i + 1;
            }
            handlers[0].bundle_id.clone()
        },
        None => handlers[0].bundle_id.clone(),
    }
}

/// The file type associations of the extensions `extensions` with the applications
/// `apps`, where `resolved[i]` is the default application the system names for
/// `extensions[i]`: for each extension that an application declares, in order, the
/// applications that declare it and its default application.
pub fn file_associations(
    apps: &Vec<ApplicationEntry>,
    extensions: &Vec<String>,
    resolved: &Vec<Option<String>>,
) -> (out: Vec<FileAssociationSetting>)
    requires
        resolved@.len() == extensions@.len(),
    ensures
        associations_view(out@) == associations_of(entries(apps@), texts(extensions@), opt_texts(resolved@)),
{
    let mut out: Vec<FileAssociationSetting> = Vec::new();
    let mut i: usize = 0;
    while i < extensions.len()
        invariant
            i <= extensions@.len(),
            resolved@.len() == extensions@.len(),
            associations_view(out@) == associations_of(
                entries(apps@),
                texts(extensions@).take(i as int),
                opt_texts(resolved@).take(i as int),
            ),
        decreases extensions.len() - i,
    {
        assert(texts(extensions@).take(i + 1).drop_last() == texts(extensions@).take(i as int));
        assert(opt_texts(resolved@).take(i + 1).drop_last() == opt_texts(resolved@).take(i as int));
        assert(texts(extensions@).take(i + 1).last() == extensions@[i as int]@);
        assert(opt_texts(resolved@).take(i + 1).last() == opt_text(resolved@[i as int]));
        let handlers = handlers_for(apps, &extensions[i]);
        if handlers.len() > 0 {
            let default_bundle_id = choose_default(&handlers, &resolved[i]);
            let ghost prev = out@;
            let ghost hv = handlers@.map_values(|a: AssociationApplication| (a.name@, a.bundle_id@));
            out.push(FileAssociationSetting { extension: extensions[i].clone(), handlers, default_bundle_id });
            assert(associations_view(out@) == associations_view(prev).push(out@.last()@));
        }
        i = i + 1;
    }
    assert(texts(extensions@).take(extensions@.len() as int) == texts(extensions@));
    assert(opt_texts(resolved@).take(resolved@.len() as int) == opt_texts(resolved@));
    out
}

/// The associations `a` after the default application of the file type `extension` was
/// set to `bundle_id`: the first association of that type is changed, the others are kept.
pub open spec fn with_default(a: Seq<AssociationView>, extension: Seq<char>, bundle_id: Seq<char>) -> Seq<AssociationView>
    decreases a.len(),
{
    if a.len() == 0 {
        a
    } else if a[0].extension == extension {
        a.update(0, AssociationView { default_bundle_id: bundle_id, ..a[0] })
    } else {
        seq![a[0]] + with_default(a.drop_first(), extension, bundle_id)
    }
}

proof fn lemma_with_default_at(a: Seq<AssociationView>, extension: Seq<char>, bundle_id: Seq<char>, i: int)
    requires
        0 <= i <= a.len(),
        forall|k: int| 0 <= k < i ==> (#[trigger] a[k]).extension != extension,
    ensures
        i < a.len() && a[i].extension == extension ==> with_default(a, extension, bundle_id) == a.update(
            i,
            AssociationView { default_bundle_id: bundle_id, ..a[i] },
        ),
        i == a.len() ==> with_default(a, extension, bundle_id) == a,
    decreases i,
{
    if i > 0 {
        assert forall|k: int| 0 <= k < i - 1 implies (#[trigger] a.drop_first()[k]).extension != extension by {
            assert(a.drop_first()[k] == a[k + 1]);
        }
        lemma_with_default_at(a.drop_first(), extension, bundle_id, i - 1);
        if i < a.len() && a[i].extension == extension {
            assert(seq![a[0]] + a.drop_first().update(i - 1, AssociationView { default_bundle_id: bundle_id, ..a[i] })
                == a.update(i, AssociationView { default_bundle_id: bundle_id, ..a[i] }));
        }
        if i == a.len() {
            assert(seq![a[0]] + a.drop_first() == a);
        }
    }
}

/// Records that the default application of the file type `extension` is now `bundle_id`.
pub fn set_default(associations: &mut Vec<FileAssociationSetting>, extension: &str, bundle_id: &str)
    ensures
        associations_view(final(associations)@) == with_default(
            associations_view(old(associations)@),
            extension@,
            bundle_id@,
        ),
{
    let ghost a = associations_view(associations@);
    let mut i: usize = 0;
    while i < associations.len() && !crate::values::text_is(associations[i].extension.as_str(), extension)
        invariant
            i <= associations@.len(),
            a == associations_view(associations@),
            forall|k: int| 0 <= k < i ==> (#[trigger] a[k]).extension != extension@,
        decreases associations.len() - i,
    {
        i = i + 1;
    }
    proof {
        lemma_with_default_at(a, extension@, bundle_id@, i as int);
    }
    if i < associations.len() {
        let old_item = associations.remove(i);
        let ghost old_view = old_item@;
        let FileAssociationSetting { extension: e, handlers, default_bundle_id: _ } = old_item;
        associations.insert(i, FileAssociationSetting { extension: e, handlers, default_bundle_id: String::from_str(bundle_id) });
        assert(associations_view(associations@) == a.update(
            i as int,
            AssociationView { default_bundle_id: bundle_id@, ..a[i as int] },
        ));
    }
}

/// The name shown for the default application of a file type with the `handlers` given and
/// the default bundle identifier `b`: the name of the first handler with that bundle
/// identifier, or `Not set` when none has it.
pub open spec fn default_name(handlers: Seq<(Seq<char>, Seq<char>)>, b: Seq<char>) -> Seq<char>
    decreases handlers.len(),
{
    if handlers.len() == 0 {
        "Not set"@
    } else if handlers[0].1 == b {
        handlers[0].0
    } else {
        default_name(handlers.drop_first(), b)
    }
}

/// The name shown for the default application of the file type `association`.
pub fn default_application_name(association: &FileAssociationSetting) -> (name: String)
    ensures
        name@ == default_name(association@.handlers, association@.default_bundle_id),
{
    let ghost hv = association@.handlers;
    let ghost b = association@.default_bundle_id;
    assert(hv.subrange(0, hv.len() as int) == hv);
    let mut i: usize = 0;
    while i < association.handlers.len()
        invariant
            i <= association.handlers@.len(),
            hv == association@.handlers,
            b == association@.default_bundle_id,
            hv.len() == association.handlers@.len(),
            default_name(hv, b) == default_name(hv.subrange(i as int, hv.len() as int), b),
        decreases association.handlers.len() - i,
    {
        let ghost rest = hv.subrange(i as int, hv.len() as int);
        assert(rest[0] == hv[i as int]);
        assert(hv[i as int] == (association.handlers@[i as int].name@, association.handlers@[i as int].bundle_id@));
        if association.handlers[i].bundle_id.eq(&association.default_bundle_id) {
            return association.handlers[i].name.clone();
        }
        assert(rest.drop_first() == hv.subrange(i + 1, hv.len() as int));
        i = i + 1;
    }
    String::from_str("Not set")
}

/// The media type of files with the extension `extension`.
pub open spec fn content_type(extension: Seq<char>) -> Seq<char> {
    if extension == "json"@ {
        "application/json"@
    } else if extension == "toml"@ {
        "application/toml"@
    } else if extension == "xml"@ {
        "application/xml"@
    } else if extension == "csv"@ {
        "text/csv"@
    } else if extension == "md"@ || extension == "markdown"@ {
        "text/markdown"@
    } else if extension == "c"@ || extension == "h"@ {
        "text/x-c"@
    } else if extension == "cc"@ || extension == "cpp"@ || extension == "cxx"@ || extension == "hh"@ || extension
        == "hpp"@ {
        "text/x-c++"@
    } else if extension == "rs"@ {
        "text/x-rust"@
    } else if extension == "sh"@ {
        "text/x-shellscript"@
    } else if extension == "yaml"@ || extension == "yml"@ {
        "text/yaml"@
    } else {
        "text/plain"@
    }
}

/// The media type of files with the extension `extension`.
pub fn content_type_for_extension(extension: &str) -> (t: &'static str)
    ensures
        t@ == content_type(extension@),
{
    if text_is(extension, "json") {
        "application/json"
    } else if text_is(extension, "toml") {
        "application/toml"
    } else if text_is(extension, "xml") {
        "application/xml"
    } else if text_is(extension, "csv") {
        "text/csv"
    } else if text_is(extension, "md") || text_is(extension, "markdown") {
        "text/markdown"
    } else if text_is(extension, "c") || text_is(extension, "h") {
        "text/x-c"
    } else if text_is(extension, "cc") || text_is(extension, "cpp") || text_is(extension, "cxx") || text_is(
        extension,
        "hh",
    ) || text_is(extension, "hpp") {
        "text/x-c++"
    } else if text_is(extension, "rs") {
        "text/x-rust"
    } else if text_is(extension, "sh") {
        "text/x-shellscript"
    } else if text_is(extension, "yaml") || text_is(extension, "yml") {
        "text/yaml"
    } else {
        "text/plain"
    }
}

/// Whether the search `query` selects an application named `name` with bundle identifier
/// `bundle_id`: an empty query selects every application, and otherwise the query, trimmed,
/// must occur in the name or the bundle identifier, without regard to the case of ASCII letters.
pub open spec fn application_selected(name: Seq<char>, bundle_id: Seq<char>, query: Seq<char>) -> bool {
    let q = to_ascii_lowercase(trim(query));
    q.len() == 0 || contains_seq(to_ascii_lowercase(name), q) || contains_seq(to_ascii_lowercase(bundle_id), q)
}

/// Whether the search `query` selects the application `app`.
pub fn application_matches_search(app: &ApplicationEntry, query: &str) -> (b: bool)
    ensures
        b == application_selected(app.name@, app.bundle_id@, query@),
{
    let v = chars_of(query);
    assert(v@.subrange(0, v@.len() as int) == v@);
    let (a, b) = trim_bounds(&v, 0, v.len());
    let q = lowercase_range(&v, a, b);
    if q.len() == 0 {
        return true;
    }
    let n = chars_of(app.name.as_str());
    assert(n@.subrange(0, n@.len() as int) == n@);
    if contains_chars(&lowercase_range(&n, 0, n.len()), &q) {
        return true;
    }
    let d = chars_of(app.bundle_id.as_str());
    assert(d@.subrange(0, d@.len() as int) == d@);
    contains_chars(&lowercase_range(&d, 0, d.len()), &q)
}

/// The applications are listed by name without regard to ASCII case, then by bundle
/// identifier: of two listed applications whose names differ other than in case, the one
/// listed first has the smaller lower-case name, and of two whose names are equal up to
/// case, the one listed first does not have the greater bundle identifier. Listing keeps
/// every application, drops none and adds none.
pub proof fn lemma_applications_listed_by_name(apps: Seq<EntryView>, out: Seq<EntryView>)
    requires
        out == sorted_entries(apps),
    ensures
        out.to_multiset() == apps.to_multiset(),
        forall|i: int, j: int|
            0 <= i < j < out.len() ==> {
                let a = to_ascii_lowercase(#[trigger] out[i].name);
                let b = to_ascii_lowercase(#[trigger] out[j].name);
                &&& a != b ==> seq_less(a, b)
                &&& a == b ==> !seq_less(out[j].bundle_id, out[i].bundle_id)
            },
{
    lemma_sorted_entries(apps);
    assert forall|i: int, j: int| 0 <= i < j < out.len() implies {
        let a = to_ascii_lowercase(#[trigger] out[i].name);
        let b = to_ascii_lowercase(#[trigger] out[j].name);
        &&& a != b ==> seq_less(a, b)
        &&& a == b ==> !seq_less(out[j].bundle_id, out[i].bundle_id)
    } by {
        let a = to_ascii_lowercase(out[i].name);
        let b = to_ascii_lowercase(out[j].name);
        assert(!entry_less(out[j], out[i]));
        lemma_seq_less_order(a, b, a);
    }
}

/// Adding a file type to those listed adds its association, if an application declares
/// it: the applications that declare it, in order, and as default the application that the
/// system names when that one declares the type, else the first of them.
pub proof fn lemma_association_of_added_type(
    apps: Seq<EntryView>,
    exts: Seq<Seq<char>>,
    resolved: Seq<Option<Seq<char>>>,
    e: Seq<char>,
    r: Option<Seq<char>>,
)
    ensures
        ({
            let h = handlers_of(apps, e);
            let d = match r {
                Some(b) => if exists|j: int| 0 <= j < h.len() && (#[trigger] h[j]).1 == b {
                    b
                } else {
                    h[0].1
                },
                None => h[0].1,
            };
            associations_of(apps, exts.push(e), resolved.push(r)) == if h.len() == 0 {
                associations_of(apps, exts, resolved)
            } else {
                associations_of(apps, exts, resolved).push(
                    AssociationView { extension: e, handlers: h, default_bundle_id: d },
                )
            }
        }),
{
    assert(exts.push(e).drop_last() == exts);
    assert(resolved.push(r).drop_last() == resolved);
}

/// The developer of an application is its `developer` field; only where that is missing is
/// it its `vendor` field, and where both are missing it is `Unknown developer`.
pub proof fn lemma_developer_field_wins(content: Seq<char>, about: ApplicationAbout)
    requires
        about.developer@ == developer_of(content),
    ensures
        string_field(content, "developer"@) matches Some(d) ==> about.developer@ == d,
        string_field(content, "developer"@) is None ==> (string_field(content, "vendor"@) matches Some(v)
            ==> about.developer@ == v),
        string_field(content, "developer"@) is None && string_field(content, "vendor"@) is None
            ==> about.developer@ == "Unknown developer"@,
{
}

/// The media type of every extension: each known extension has its own type, both YAML
/// extensions and both Markdown extensions share theirs, the C and C++ source and header
/// extensions share theirs, and every other extension is plain text.
pub proof fn lemma_content_types(extension: Seq<char>, t: Seq<char>)
    requires
        t == content_type(extension),
    ensures
        t == "application/json"@ <==> extension == "json"@,
        t == "application/toml"@ <==> extension == "toml"@,
        t == "application/xml"@ <==> extension == "xml"@,
        t == "text/csv"@ <==> extension == "csv"@,
        t == "text/markdown"@ <==> (extension == "md"@ || extension == "markdown"@),
        t == "text/x-c"@ <==> (extension == "c"@ || extension == "h"@),
        t == "text/x-c++"@ <==> (extension == "cc"@ || extension == "cpp"@ || extension == "cxx"@
            || extension == "hh"@ || extension == "hpp"@),
        t == "text/x-rust"@ <==> extension == "rs"@,
        t == "text/x-shellscript"@ <==> extension == "sh"@,
        t == "text/yaml"@ <==> (extension == "yaml"@ || extension == "yml"@),
        t == "text/plain"@ <==> !(extension == "json"@ || extension == "toml"@ || extension == "xml"@
            || extension == "csv"@ || extension == "md"@ || extension == "markdown"@ || extension == "c"@
            || extension == "h"@ || extension == "cc"@ || extension == "cpp"@ || extension == "cxx"@
            || extension == "hh"@ || extension == "hpp"@ || extension == "rs"@ || extension == "sh"@
            || extension == "yaml"@ || extension == "yml"@),
{
    reveal_strlit("json");
    reveal_strlit("toml");
    reveal_strlit("xml");
    reveal_strlit("csv");
    reveal_strlit("md");
    reveal_strlit("markdown");
    reveal_strlit("c");
    reveal_strlit("h");
    reveal_strlit("cc");
    reveal_strlit("cpp");
    reveal_strlit("cxx");
    reveal_strlit("hh");
    reveal_strlit("hpp");
    reveal_strlit("rs");
    reveal_strlit("sh");
    reveal_strlit("yaml");
    reveal_strlit("yml");
    assert("json"@ != "toml"@) by {
        assert("json"@[0] != "toml"@[0]);
    }
    assert("json"@ != "yaml"@) by {
        assert("json"@[0] != "yaml"@[0]);
    }
    assert("toml"@ != "yaml"@) by {
        assert("toml"@[0] != "yaml"@[0]);
    }
    assert("xml"@ != "csv"@) by {
        assert("xml"@[0] != "csv"@[0]);
    }
    assert("xml"@ != "cpp"@) by {
        assert("xml"@[0] != "cpp"@[0]);
    }
    assert("xml"@ != "cxx"@) by {
        assert("xml"@[0] != "cxx"@[0]);
    }
    assert("xml"@ != "hpp"@) by {
        assert("xml"@[0] != "hpp"@[0]);
    }
    assert("xml"@ != "yml"@) by {
        assert("xml"@[0] != "yml"@[0]);
    }
    assert("csv"@ != "cpp"@) by {
        assert("csv"@[1] != "cpp"@[1]);
    }
    assert("csv"@ != "cxx"@) by {
        assert("csv"@[1] != "cxx"@[1]);
    }
    assert("csv"@ != "hpp"@) by {
        assert("csv"@[0] != "hpp"@[0]);
    }
    assert("csv"@ != "yml"@) by {
        assert("csv"@[0] != "yml"@[0]);
    }
    assert("md"@ != "cc"@) by {
        assert("md"@[0] != "cc"@[0]);
    }
    assert("md"@ != "hh"@) by {
        assert("md"@[0] != "hh"@[0]);
    }
    assert("md"@ != "rs"@) by {
        assert("md"@[0] != "rs"@[0]);
    }
    assert("md"@ != "sh"@) by {
        assert("md"@[0] != "sh"@[0]);
    }
    assert("c"@ != "h"@) by {
        assert("c"@[0] != "h"@[0]);
    }
    assert("cc"@ != "hh"@) by {
        assert("cc"@[0] != "hh"@[0]);
    }
    assert("cc"@ != "rs"@) by {
        assert("cc"@[0] != "rs"@[0]);
    }
    assert("cc"@ != "sh"@) by {
        assert("cc"@[0] != "sh"@[0]);
    }
    assert("cpp"@ != "cxx"@) by {
        assert("cpp"@[1] != "cxx"@[1]);
    }
    assert("cpp"@ != "hpp"@) by {
        assert("cpp"@[0] != "hpp"@[0]);
    }
    assert("cpp"@ != "yml"@) by {
        assert("cpp"@[0] != "yml"@[0]);
    }
    assert("cxx"@ != "hpp"@) by {
        assert("cxx"@[0] != "hpp"@[0]);
    }
    assert("cxx"@ != "yml"@) by {
        assert("cxx"@[0] != "yml"@[0]);
    }
    assert("hh"@ != "rs"@) by {
        assert("hh"@[0] != "rs"@[0]);
    }
    assert("hh"@ != "sh"@) by {
        assert("hh"@[0] != "sh"@[0]);
    }
    assert("hpp"@ != "yml"@) by {
        assert("hpp"@[0] != "yml"@[0]);
    }
    assert("rs"@ != "sh"@) by {
        assert("rs"@[0] != "sh"@[0]);
    }
    assert("json"@ != "xml"@) by {
        assert("json"@.len() != "xml"@.len());
    }
    assert("json"@ != "csv"@) by {
        assert("json"@.len() != "csv"@.len());
    }
    assert("json"@ != "md"@) by {
        assert("json"@.len() != "md"@.len());
    }
    assert("json"@ != "markdown"@) by {
        assert("json"@.len() != "markdown"@.len());
    }
    assert("json"@ != "c"@) by {
        assert("json"@.len() != "c"@.len());
    }
    assert("json"@ != "h"@) by {
        assert("json"@.len() != "h"@.len());
    }
    assert("json"@ != "cc"@) by {
        assert("json"@.len() != "cc"@.len());
    }
    assert("json"@ != "cpp"@) by {
        assert("json"@.len() != "cpp"@.len());
    }
    assert("json"@ != "cxx"@) by {
        assert("json"@.len() != "cxx"@.len());
    }
    assert("json"@ != "hh"@) by {
        assert("json"@.len() != "hh"@.len());
    }
    assert("json"@ != "hpp"@) by {
        assert("json"@.len() != "hpp"@.len());
    }
    assert("json"@ != "rs"@) by {
        assert("json"@.len() != "rs"@.len());
    }
    assert("json"@ != "sh"@) by {
        assert("json"@.len() != "sh"@.len());
    }
    assert("json"@ != "yml"@) by {
        assert("json"@.len() != "yml"@.len());
    }
    assert("toml"@ != "xml"@) by {
        assert("toml"@.len() != "xml"@.len());
    }
    assert("toml"@ != "csv"@) by {
        assert("toml"@.len() != "csv"@.len());
    }
    assert("toml"@ != "md"@) by {
        assert("toml"@.len() != "md"@.len());
    }
    assert("toml"@ != "markdown"@) by {
        assert("toml"@.len() != "markdown"@.len());
    }
    assert("toml"@ != "c"@) by {
        assert("toml"@.len() != "c"@.len());
    }
    assert("toml"@ != "h"@) by {
        assert("toml"@.len() != "h"@.len());
    }
    assert("toml"@ != "cc"@) by {
        assert("toml"@.len() != "cc"@.len());
    }
    assert("toml"@ != "cpp"@) by {
        assert("toml"@.len() != "cpp"@.len());
    }
    assert("toml"@ != "cxx"@) by {
        assert("toml"@.len() != "cxx"@.len());
    }
    assert("toml"@ != "hh"@) by {
        assert("toml"@.len() != "hh"@.len());
    }
    assert("toml"@ != "hpp"@) by {
        assert("toml"@.len() != "hpp"@.len());
    }
    assert("toml"@ != "rs"@) by {
        assert("toml"@.len() != "rs"@.len());
    }
    assert("toml"@ != "sh"@) by {
        assert("toml"@.len() != "sh"@.len());
    }
    assert("toml"@ != "yml"@) by {
        assert("toml"@.len() != "yml"@.len());
    }
    assert("xml"@ != "md"@) by {
        assert("xml"@.len() != "md"@.len());
    }
    assert("xml"@ != "markdown"@) by {
        assert("xml"@.len() != "markdown"@.len());
    }
    assert("xml"@ != "c"@) by {
        assert("xml"@.len() != "c"@.len());
    }
    assert("xml"@ != "h"@) by {
        assert("xml"@.len() != "h"@.len());
    }
    assert("xml"@ != "cc"@) by {
        assert("xml"@.len() != "cc"@.len());
    }
    assert("xml"@ != "hh"@) by {
        assert("xml"@.len() != "hh"@.len());
    }
    assert("xml"@ != "rs"@) by {
        assert("xml"@.len() != "rs"@.len());
    }
    assert("xml"@ != "sh"@) by {
        assert("xml"@.len() != "sh"@.len());
    }
    assert("xml"@ != "yaml"@) by {
        assert("xml"@.len() != "yaml"@.len());
    }
    assert("csv"@ != "md"@) by {
        assert("csv"@.len() != "md"@.len());
    }
    assert("csv"@ != "markdown"@) by {
        assert("csv"@.len() != "markdown"@.len());
    }
    assert("csv"@ != "c"@) by {
        assert("csv"@.len() != "c"@.len());
    }
    assert("csv"@ != "h"@) by {
        assert("csv"@.len() != "h"@.len());
    }
    assert("csv"@ != "cc"@) by {
        assert("csv"@.len() != "cc"@.len());
    }
    assert("csv"@ != "hh"@) by {
        assert("csv"@.len() != "hh"@.len());
    }
    assert("csv"@ != "rs"@) by {
        assert("csv"@.len() != "rs"@.len());
    }
    assert("csv"@ != "sh"@) by {
        assert("csv"@.len() != "sh"@.len());
    }
    assert("csv"@ != "yaml"@) by {
        assert("csv"@.len() != "yaml"@.len());
    }
    assert("md"@ != "markdown"@) by {
        assert("md"@.len() != "markdown"@.len());
    }
    assert("md"@ != "c"@) by {
        assert("md"@.len() != "c"@.len());
    }
    assert("md"@ != "h"@) by {
        assert("md"@.len() != "h"@.len());
    }
    assert("md"@ != "cpp"@) by {
        assert("md"@.len() != "cpp"@.len());
    }
    assert("md"@ != "cxx"@) by {
        assert("md"@.len() != "cxx"@.len());
    }
    assert("md"@ != "hpp"@) by {
        assert("md"@.len() != "hpp"@.len());
    }
    assert("md"@ != "yaml"@) by {
        assert("md"@.len() != "yaml"@.len());
    }
    assert("md"@ != "yml"@) by {
        assert("md"@.len() != "yml"@.len());
    }
    assert("markdown"@ != "c"@) by {
        assert("markdown"@.len() != "c"@.len());
    }
    assert("markdown"@ != "h"@) by {
        assert("markdown"@.len() != "h"@.len());
    }
    assert("markdown"@ != "cc"@) by {
        assert("markdown"@.len() != "cc"@.len());
    }
    assert("markdown"@ != "cpp"@) by {
        assert("markdown"@.len() != "cpp"@.len());
    }
    assert("markdown"@ != "cxx"@) by {
        assert("markdown"@.len() != "cxx"@.len());
    }
    assert("markdown"@ != "hh"@) by {
        assert("markdown"@.len() != "hh"@.len());
    }
    assert("markdown"@ != "hpp"@) by {
        assert("markdown"@.len() != "hpp"@.len());
    }
    assert("markdown"@ != "rs"@) by {
        assert("markdown"@.len() != "rs"@.len());
    }
    assert("markdown"@ != "sh"@) by {
        assert("markdown"@.len() != "sh"@.len());
    }
    assert("markdown"@ != "yaml"@) by {
        assert("markdown"@.len() != "yaml"@.len());
    }
    assert("markdown"@ != "yml"@) by {
        assert("markdown"@.len() != "yml"@.len());
    }
    assert("c"@ != "cc"@) by {
        assert("c"@.len() != "cc"@.len());
    }
    assert("c"@ != "cpp"@) by {
        assert("c"@.len() != "cpp"@.len());
    }
    assert("c"@ != "cxx"@) by {
        assert("c"@.len() != "cxx"@.len());
    }
    assert("c"@ != "hh"@) by {
        assert("c"@.len() != "hh"@.len());
    }
    assert("c"@ != "hpp"@) by {
        assert("c"@.len() != "hpp"@.len());
    }
    assert("c"@ != "rs"@) by {
        assert("c"@.len() != "rs"@.len());
    }
    assert("c"@ != "sh"@) by {
        assert("c"@.len() != "sh"@.len());
    }
    assert("c"@ != "yaml"@) by {
        assert("c"@.len() != "yaml"@.len());
    }
    assert("c"@ != "yml"@) by {
        assert("c"@.len() != "yml"@.len());
    }
    assert("h"@ != "cc"@) by {
        assert("h"@.len() != "cc"@.len());
    }
    assert("h"@ != "cpp"@) by {
        assert("h"@.len() != "cpp"@.len());
    }
    assert("h"@ != "cxx"@) by {
        assert("h"@.len() != "cxx"@.len());
    }
    assert("h"@ != "hh"@) by {
        assert("h"@.len() != "hh"@.len());
    }
    assert("h"@ != "hpp"@) by {
        assert("h"@.len() != "hpp"@.len());
    }
    assert("h"@ != "rs"@) by {
        assert("h"@.len() != "rs"@.len());
    }
    assert("h"@ != "sh"@) by {
        assert("h"@.len() != "sh"@.len());
    }
    assert("h"@ != "yaml"@) by {
        assert("h"@.len() != "yaml"@.len());
    }
    assert("h"@ != "yml"@) by {
        assert("h"@.len() != "yml"@.len());
    }
    assert("cc"@ != "cpp"@) by {
        assert("cc"@.len() != "cpp"@.len());
    }
    assert("cc"@ != "cxx"@) by {
        assert("cc"@.len() != "cxx"@.len());
    }
    assert("cc"@ != "hpp"@) by {
        assert("cc"@.len() != "hpp"@.len());
    }
    assert("cc"@ != "yaml"@) by {
        assert("cc"@.len() != "yaml"@.len());
    }
    assert("cc"@ != "yml"@) by {
        assert("cc"@.len() != "yml"@.len());
    }
    assert("cpp"@ != "hh"@) by {
        assert("cpp"@.len() != "hh"@.len());
    }
    assert("cpp"@ != "rs"@) by {
        assert("cpp"@.len() != "rs"@.len());
    }
    assert("cpp"@ != "sh"@) by {
        assert("cpp"@.len() != "sh"@.len());
    }
    assert("cpp"@ != "yaml"@) by {
        assert("cpp"@.len() != "yaml"@.len());
    }
    assert("cxx"@ != "hh"@) by {
        assert("cxx"@.len() != "hh"@.len());
    }
    assert("cxx"@ != "rs"@) by {
        assert("cxx"@.len() != "rs"@.len());
    }
    assert("cxx"@ != "sh"@) by {
        assert("cxx"@.len() != "sh"@.len());
    }
    assert("cxx"@ != "yaml"@) by {
        assert("cxx"@.len() != "yaml"@.len());
    }
    assert("hh"@ != "hpp"@) by {
        assert("hh"@.len() != "hpp"@.len());
    }
    assert("hh"@ != "yaml"@) by {
        assert("hh"@.len() != "yaml"@.len());
    }
    assert("hh"@ != "yml"@) by {
        assert("hh"@.len() != "yml"@.len());
    }
    assert("hpp"@ != "rs"@) by {
        assert("hpp"@.len() != "rs"@.len());
    }
    assert("hpp"@ != "sh"@) by {
        assert("hpp"@.len() != "sh"@.len());
    }
    assert("hpp"@ != "yaml"@) by {
        assert("hpp"@.len() != "yaml"@.len());
    }
    assert("rs"@ != "yaml"@) by {
        assert("rs"@.len() != "yaml"@.len());
    }
    assert("rs"@ != "yml"@) by {
        assert("rs"@.len() != "yml"@.len());
    }
    assert("sh"@ != "yaml"@) by {
        assert("sh"@.len() != "yaml"@.len());
    }
    assert("sh"@ != "yml"@) by {
        assert("sh"@.len() != "yml"@.len());
    }
    assert("yaml"@ != "yml"@) by {
        assert("yaml"@.len() != "yml"@.len());
    }
    reveal_strlit("application/json");
    reveal_strlit("application/toml");
    reveal_strlit("application/xml");
    reveal_strlit("text/csv");
    reveal_strlit("text/markdown");
    reveal_strlit("text/x-c");
    reveal_strlit("text/x-c++");
    reveal_strlit("text/x-rust");
    reveal_strlit("text/x-shellscript");
    reveal_strlit("text/yaml");
    reveal_strlit("text/plain");
    assert("application/json"@ != "application/toml"@) by {
        assert("application/json"@[12] != "application/toml"@[12]);
    }
    assert("application/json"@ != "application/xml"@) by {
        assert("application/json"@.len() != "application/xml"@.len());
    }
    assert("application/json"@ != "text/csv"@) by {
        assert("application/json"@.len() != "text/csv"@.len());
    }
    assert("application/json"@ != "text/markdown"@) by {
        assert("application/json"@.len() != "text/markdown"@.len());
    }
    assert("application/json"@ != "text/x-c"@) by {
        assert("application/json"@.len() != "text/x-c"@.len());
    }
    assert("application/json"@ != "text/x-c++"@) by {
        assert("application/json"@.len() != "text/x-c++"@.len());
    }
    assert("application/json"@ != "text/x-rust"@) by {
        assert("application/json"@.len() != "text/x-rust"@.len());
    }
    assert("application/json"@ != "text/x-shellscript"@) by {
        assert("application/json"@.len() != "text/x-shellscript"@.len());
    }
    assert("application/json"@ != "text/yaml"@) by {
        assert("application/json"@.len() != "text/yaml"@.len());
    }
    assert("application/json"@ != "text/plain"@) by {
        assert("application/json"@.len() != "text/plain"@.len());
    }
    assert("application/toml"@ != "application/xml"@) by {
        assert("application/toml"@.len() != "application/xml"@.len());
    }
    assert("application/toml"@ != "text/csv"@) by {
        assert("application/toml"@.len() != "text/csv"@.len());
    }
    assert("application/toml"@ != "text/markdown"@) by {
        assert("application/toml"@.len() != "text/markdown"@.len());
    }
    assert("application/toml"@ != "text/x-c"@) by {
        assert("application/toml"@.len() != "text/x-c"@.len());
    }
    assert("application/toml"@ != "text/x-c++"@) by {
        assert("application/toml"@.len() != "text/x-c++"@.len());
    }
    assert("application/toml"@ != "text/x-rust"@) by {
        assert("application/toml"@.len() != "text/x-rust"@.len());
    }
    assert("application/toml"@ != "text/x-shellscript"@) by {
        assert("application/toml"@.len() != "text/x-shellscript"@.len());
    }
    assert("application/toml"@ != "text/yaml"@) by {
        assert("application/toml"@.len() != "text/yaml"@.len());
    }
    assert("application/toml"@ != "text/plain"@) by {
        assert("application/toml"@.len() != "text/plain"@.len());
    }
    assert("application/xml"@ != "text/csv"@) by {
        assert("application/xml"@.len() != "text/csv"@.len());
    }
    assert("application/xml"@ != "text/markdown"@) by {
        assert("application/xml"@.len() != "text/markdown"@.len());
    }
    assert("application/xml"@ != "text/x-c"@) by {
        assert("application/xml"@.len() != "text/x-c"@.len());
    }
    assert("application/xml"@ != "text/x-c++"@) by {
        assert("application/xml"@.len() != "text/x-c++"@.len());
    }
    assert("application/xml"@ != "text/x-rust"@) by {
        assert("application/xml"@.len() != "text/x-rust"@.len());
    }
    assert("application/xml"@ != "text/x-shellscript"@) by {
        assert("application/xml"@.len() != "text/x-shellscript"@.len());
    }
    assert("application/xml"@ != "text/yaml"@) by {
        assert("application/xml"@.len() != "text/yaml"@.len());
    }
    assert("application/xml"@ != "text/plain"@) by {
        assert("application/xml"@.len() != "text/plain"@.len());
    }
    assert("text/csv"@ != "text/markdown"@) by {
        assert("text/csv"@.len() != "text/markdown"@.len());
    }
    assert("text/csv"@ != "text/x-c"@) by {
        assert("text/csv"@[5] != "text/x-c"@[5]);
    }
    assert("text/csv"@ != "text/x-c++"@) by {
        assert("text/csv"@.len() != "text/x-c++"@.len());
    }
    assert("text/csv"@ != "text/x-rust"@) by {
        assert("text/csv"@.len() != "text/x-rust"@.len());
    }
    assert("text/csv"@ != "text/x-shellscript"@) by {
        assert("text/csv"@.len() != "text/x-shellscript"@.len());
    }
    assert("text/csv"@ != "text/yaml"@) by {
        assert("text/csv"@.len() != "text/yaml"@.len());
    }
    assert("text/csv"@ != "text/plain"@) by {
        assert("text/csv"@.len() != "text/plain"@.len());
    }
    assert("text/markdown"@ != "text/x-c"@) by {
        assert("text/markdown"@.len() != "text/x-c"@.len());
    }
    assert("text/markdown"@ != "text/x-c++"@) by {
        assert("text/markdown"@.len() != "text/x-c++"@.len());
    }
    assert("text/markdown"@ != "text/x-rust"@) by {
        assert("text/markdown"@.len() != "text/x-rust"@.len());
    }
    assert("text/markdown"@ != "text/x-shellscript"@) by {
        assert("text/markdown"@.len() != "text/x-shellscript"@.len());
    }
    assert("text/markdown"@ != "text/yaml"@) by {
        assert("text/markdown"@.len() != "text/yaml"@.len());
    }
    assert("text/markdown"@ != "text/plain"@) by {
        assert("text/markdown"@.len() != "text/plain"@.len());
    }
    assert("text/x-c"@ != "text/x-c++"@) by {
        assert("text/x-c"@.len() != "text/x-c++"@.len());
    }
    assert("text/x-c"@ != "text/x-rust"@) by {
        assert("text/x-c"@.len() != "text/x-rust"@.len());
    }
    assert("text/x-c"@ != "text/x-shellscript"@) by {
        assert("text/x-c"@.len() != "text/x-shellscript"@.len());
    }
    assert("text/x-c"@ != "text/yaml"@) by {
        assert("text/x-c"@.len() != "text/yaml"@.len());
    }
    assert("text/x-c"@ != "text/plain"@) by {
        assert("text/x-c"@.len() != "text/plain"@.len());
    }
    assert("text/x-c++"@ != "text/x-rust"@) by {
        assert("text/x-c++"@.len() != "text/x-rust"@.len());
    }
    assert("text/x-c++"@ != "text/x-shellscript"@) by {
        assert("text/x-c++"@.len() != "text/x-shellscript"@.len());
    }
    assert("text/x-c++"@ != "text/yaml"@) by {
        assert("text/x-c++"@.len() != "text/yaml"@.len());
    }
    assert("text/x-c++"@ != "text/plain"@) by {
        assert("text/x-c++"@[5] != "text/plain"@[5]);
    }
    assert("text/x-rust"@ != "text/x-shellscript"@) by {
        assert("text/x-rust"@.len() != "text/x-shellscript"@.len());
    }
    assert("text/x-rust"@ != "text/yaml"@) by {
        assert("text/x-rust"@.len() != "text/yaml"@.len());
    }
    assert("text/x-rust"@ != "text/plain"@) by {
        assert("text/x-rust"@.len() != "text/plain"@.len());
    }
    assert("text/x-shellscript"@ != "text/yaml"@) by {
        assert("text/x-shellscript"@.len() != "text/yaml"@.len());
    }
    assert("text/x-shellscript"@ != "text/plain"@) by {
        assert("text/x-shellscript"@.len() != "text/plain"@.len());
    }
    assert("text/yaml"@ != "text/plain"@) by {
        assert("text/yaml"@.len() != "text/plain"@.len());
    }
}

} // verus!
