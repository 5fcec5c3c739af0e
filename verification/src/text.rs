//! Character-level text helpers shared by the parsers and writers of the library.
use vstd::prelude::*;

verus! {

/// Whether `c` has the Unicode `White_Space` property, the set that `str::trim` removes.
pub open spec fn is_white_space(c: char) -> bool {
    let n = c as u32;
    n == 0x20 || (0x09 <= n && n <= 0x0d) || n == 0x85 || n == 0xa0 || n == 0x1680 || (0x2000 <= n
        && n <= 0x200a) || n == 0x2028 || n == 0x2029 || n == 0x202f || n == 0x205f || n == 0x3000
}

/// `s` without its leading white space.
pub open spec fn trim_start(s: Seq<char>) -> Seq<char>
    decreases s.len(),
{
    if s.len() > 0 && is_white_space(s[0]) {
        trim_start(s.drop_first())
    } else {
        s
    }
}

/// `s` without its trailing white space.
pub open spec fn trim_end(s: Seq<char>) -> Seq<char>
    decreases s.len(),
{
    if s.len() > 0 && is_white_space(s.last()) {
        trim_end(s.drop_last())
    } else {
        s
    }
}

/// `s` without leading and trailing white space, as `str::trim` gives it.
pub open spec fn trim(s: Seq<char>) -> Seq<char> {
    trim_end(trim_start(s))
}

/// The pieces of `s` between occurrences of `sep`, as `str::split` gives them.
pub open spec fn split_on(s: Seq<char>, sep: char) -> Seq<Seq<char>>
    decreases s.len(),
{
    if s.len() == 0 {
        seq![Seq::<char>::empty()]
    } else if s.last() == sep {
        split_on(s.drop_last(), sep).push(Seq::<char>::empty())
    } else {
        let p = split_on(s.drop_last(), sep);
        p.update(p.len() - 1, p.last().push(s.last()))
    }
}

/// A line terminated by a line feed, without the carriage return that may end it.
pub open spec fn strip_carriage_return(s: Seq<char>) -> Seq<char> {
    if s.len() > 0 && s.last() == '\r' {
        s.drop_last()
    } else {
        s
    }
}

/// The lines of `s`, as `str::lines` gives them: split at line feeds, a carriage return
/// before a line feed removed, and no final empty line after a trailing line feed.
pub open spec fn lines(s: Seq<char>) -> Seq<Seq<char>> {
    let pieces = split_on(s, '\n');
    let terminated = pieces.drop_last().map_values(|p: Seq<char>| strip_carriage_return(p));
    if pieces.last().len() == 0 {
        terminated
    } else {
        terminated.push(pieces.last())
    }
}

/// Index of the first `c` in `s`, or -1.
pub open spec fn first_index(s: Seq<char>, c: char) -> int
    decreases s.len(),
{
    if s.len() == 0 {
        -1
    } else if s[0] == c {
        0
    } else if first_index(s.drop_first(), c) < 0 {
        -1
    } else {
        first_index(s.drop_first(), c) + 1
    }
}

/// The text before and after the first `c` in `s`, as `str::split_once` gives it.
pub open spec fn split_once(s: Seq<char>, c: char) -> Option<(Seq<char>, Seq<char>)> {
    let i = first_index(s, c);
    if i < 0 {
        None
    } else {
        Some((s.subrange(0, i), s.subrange(i + 1, s.len() as int)))
    }
}

/// `c` with ASCII upper-case letters mapped to lower case.
pub open spec fn ascii_lower(c: char) -> char {
    if 'A' <= c && c <= 'Z' {
        ((c as u32) + 32) as char
    } else {
        c
    }
}

/// `s` with ASCII upper-case letters mapped to lower case, as `str::to_ascii_lowercase` gives it.
pub open spec fn to_ascii_lowercase(s: Seq<char>) -> Seq<char> {
    s.map_values(|c: char| ascii_lower(c))
}

/// Whether `needle` occurs in `s` as a contiguous run.
pub open spec fn contains_seq(s: Seq<char>, needle: Seq<char>) -> bool {
    exists|i: int| 0 <= i && i + needle.len() <= s.len() && #[trigger] s.subrange(i, i + needle.len()) == needle
}

/// The decimal digit of `d`.
pub open spec fn digit_char(d: nat) -> char {
    (d + 48) as char
}

/// The decimal notation of `n`, without leading zeros.
pub open spec fn decimal(n: nat) -> Seq<char>
    decreases n,
{
    if n < 10 {
        seq![digit_char(n)]
    } else {
        decimal(n / 10).push(digit_char(n % 10))
    }
}

/// `s` preceded by as many zeros as bring it to `width` characters.
pub open spec fn zero_padded(s: Seq<char>, width: nat) -> Seq<char> {
    if s.len() >= width {
        s
    } else {
        Seq::new((width - s.len()) as nat, |i: int| '0') + s
    }
}

/// The text `true` or `false`.
pub open spec fn bool_text(b: bool) -> Seq<char> {
    if b { "true"@ } else { "false"@ }
}

/// Appends `c` to `s`: `String::push`.
#[verifier::external_body]
pub(crate) fn push_char(s: &mut String, c: char)
    ensures
        final(s)@ == old(s)@.push(c),
{
    s.push(c);
}

/// The characters of `s`, in order.
pub fn chars_of(s: &str) -> (out: Vec<char>)
    ensures
        out@ == s@,
{
    let mut out: Vec<char> = Vec::new();
    for c in it: s.chars()
        invariant
            it.seq() == s@,
            out@ == it.seq().take(it.index()),
    {
        out.push(c);
    }
    out
}

/// The string made of the characters `v[from..to]`.
pub fn string_of(v: &Vec<char>, from: usize, to: usize) -> (out: String)
    requires
        from <= to <= v.len(),
    ensures
        out@ == v@.subrange(from as int, to as int),
{
    let mut out = String::new();
    let mut i = from;
    while i < to
        invariant
            from <= i <= to <= v.len(),
            out@ == v@.subrange(from as int, i as int),
        decreases to - i,
    {
        push_char(&mut out, v[i]);
        assert(v@.subrange(from as int, i + 1) == v@.subrange(from as int, i as int).push(v@[i as int]));
        i = i + 1;
    }
    out
}

/// Appends the characters of `v` to `s`.
pub fn push_all(s: &mut String, v: &Vec<char>)
    ensures
        final(s)@ == old(s)@ + v@,
{
    let mut i: usize = 0;
    while i < v.len()
        invariant
            i <= v.len(),
            s@ == old(s)@ + v@.subrange(0, i as int),
        decreases v.len() - i,
    {
        push_char(s, v[i]);
        assert(v@.subrange(0, i + 1) == v@.subrange(0, i as int).push(v@[i as int]));
        i = i + 1;
    }
    assert(v@.subrange(0, v.len() as int) == v@);
}

pub fn is_white_space_char(c: char) -> (b: bool)
    ensures
        b == is_white_space(c),
{
    let n = c as u32;
    n == 0x20 || (0x09 <= n && n <= 0x0d) || n == 0x85 || n == 0xa0 || n == 0x1680 || (0x2000 <= n
        && n <= 0x200a) || n == 0x2028 || n == 0x2029 || n == 0x202f || n == 0x205f || n == 0x3000
}

proof fn lemma_trim_start_prefix(s: Seq<char>, i: int)
    requires
        0 <= i <= s.len(),
        forall|k: int| 0 <= k < i ==> is_white_space(#[trigger] s[k]),
    ensures
        trim_start(s) == trim_start(s.subrange(i, s.len() as int)),
    decreases i,
{
    if i > 0 {
        lemma_trim_start_prefix(s.drop_first(), i - 1);
        assert(s.drop_first().subrange(i - 1, s.drop_first().len() as int) == s.subrange(i, s.len() as int));
    } else {
        assert(s.subrange(0, s.len() as int) == s);
    }
}

proof fn lemma_trim_end_suffix(s: Seq<char>, j: int)
    requires
        0 <= j <= s.len(),
        forall|k: int| j <= k < s.len() ==> is_white_space(#[trigger] s[k]),
    ensures
        trim_end(s) == trim_end(s.subrange(0, j)),
    decreases s.len() - j,
{
    if j < s.len() {
        lemma_trim_end_suffix(s.drop_last(), j);
        assert(s.drop_last().subrange(0, j) == s.subrange(0, j));
    } else {
        assert(s.subrange(0, j) == s);
    }
}

/// The bounds of `v[from..to]` without leading and trailing white space.
pub fn trim_bounds(v: &Vec<char>, from: usize, to: usize) -> (r: (usize, usize))
    requires
        from <= to <= v.len(),
    ensures
        from <= r.0 <= r.1 <= to,
        v@.subrange(r.0 as int, r.1 as int) == trim(v@.subrange(from as int, to as int)),
{
    let ghost s = v@.subrange(from as int, to as int);
    let mut i = from;
    while i < to && is_white_space_char(v[i])
        invariant
            from <= i <= to <= v.len(),
            forall|k: int| from <= k < i ==> is_white_space(#[trigger] v@[k]),
        decreases to - i,
    {
        i = i + 1;
    }
    proof {
        assert forall|k: int| 0 <= k < i - from implies is_white_space(#[trigger] s[k]) by {
            assert(s[k] == v@[from + k]);
        }
        lemma_trim_start_prefix(s, i - from);
        assert(s.subrange(i - from, s.len() as int) == v@.subrange(i as int, to as int));
        let t = v@.subrange(i as int, to as int);
        assert(t.len() == 0 || !is_white_space(t[0]));
    }
    let mut j = to;
    while j > i && is_white_space_char(v[j - 1])
        invariant
            from <= i <= j <= to <= v.len(),
            forall|k: int| j <= k < to ==> is_white_space(#[trigger] v@[k]),
        decreases j,
    {
        j = j - 1;
    }
    proof {
        let t = v@.subrange(i as int, to as int);
        assert forall|k: int| j - i <= k < t.len() implies is_white_space(#[trigger] t[k]) by {
            assert(t[k] == v@[i + k]);
        }
        lemma_trim_end_suffix(t, j - i);
        assert(t.subrange(0, j - i) == v@.subrange(i as int, j as int));
        let u = v@.subrange(i as int, j as int);
        assert(u.len() == 0 || !is_white_space(u.last()));
    }
    (i, j)
}

/// The texts of the strings `v`.
pub open spec fn texts(v: Seq<String>) -> Seq<Seq<char>> {
    v.map_values(|s: String| s@)
}

/// The texts that the ranges `r` select from `v`.
pub open spec fn slices(v: Seq<char>, r: Seq<(usize, usize)>) -> Seq<Seq<char>> {
    r.map_values(|p: (usize, usize)| v.subrange(p.0 as int, p.1 as int))
}

/// Whether every range of `r` lies within `from..to`.
pub open spec fn ranges_within(r: Seq<(usize, usize)>, from: int, to: int) -> bool {
    forall|k: int| 0 <= k < r.len() ==> from <= (#[trigger] r[k]).0 <= r[k].1 <= to
}

/// The ranges of the pieces of `v[from..to]` between occurrences of `sep`.
pub fn split_bounds(v: &Vec<char>, from: usize, to: usize, sep: char) -> (r: Vec<(usize, usize)>)
    requires
        from <= to <= v.len(),
    ensures
        slices(v@, r@) == split_on(v@.subrange(from as int, to as int), sep),
        ranges_within(r@, from as int, to as int),
{
    let mut r: Vec<(usize, usize)> = Vec::new();
    let mut start = from;
    let mut i = from;
    assert(v@.subrange(from as int, from as int) == Seq::<char>::empty());
    assert(slices(v@, r@).push(v@.subrange(start as int, i as int)) == split_on(
        v@.subrange(from as int, i as int),
        sep,
    ));
    while i < to
        invariant
            from <= start <= i <= to <= v.len(),
            ranges_within(r@, from as int, i as int),
            slices(v@, r@).push(v@.subrange(start as int, i as int)) == split_on(
                v@.subrange(from as int, i as int),
                sep,
            ),
        decreases to - i,
    {
        let ghost prev = v@.subrange(from as int, i as int);
        let ghost next = v@.subrange(from as int, i + 1);
        assert(next.drop_last() == prev);
        assert(next.last() == v@[i as int]);
        if v[i] == sep {
            r.push((start, i));
            start = i + 1;
            assert(v@.subrange(start as int, i + 1) == Seq::<char>::empty());
            assert(slices(v@, r@).push(v@.subrange(start as int, i + 1)) == split_on(next, sep));
        } else {
            assert(v@.subrange(start as int, i + 1) == v@.subrange(start as int, i as int).push(v@[i as int]));
            assert(slices(v@, r@).push(v@.subrange(start as int, i + 1)) == split_on(next, sep));
        }
        i = i + 1;
    }
    r.push((start, to));
    assert(slices(v@, r@) == split_on(v@.subrange(from as int, to as int), sep));
    r
}

/// The ranges of the lines of `v[from..to]`, as `str::lines` gives them.
pub fn line_bounds(v: &Vec<char>, from: usize, to: usize) -> (r: Vec<(usize, usize)>)
    requires
        from <= to <= v.len(),
    ensures
        slices(v@, r@) == lines(v@.subrange(from as int, to as int)),
        ranges_within(r@, from as int, to as int),
{
    let pieces = split_bounds(v, from, to, '\n');
    let ghost p = split_on(v@.subrange(from as int, to as int), '\n');
    let ghost terminated = p.drop_last().map_values(|q: Seq<char>| strip_carriage_return(q));
    let mut r: Vec<(usize, usize)> = Vec::new();
    let mut k: usize = 0;
    proof {
        lemma_split_on_nonempty(v@.subrange(from as int, to as int), '\n');
    }
    assert(pieces@.len() == p.len());
    while k < pieces.len() - 1
        invariant
            from <= to <= v.len(),
            terminated == p.drop_last().map_values(|q: Seq<char>| strip_carriage_return(q)),
            k + 1 <= pieces@.len(),
            pieces@.len() == p.len(),
            slices(v@, pieces@) == p,
            ranges_within(pieces@, from as int, to as int),
            ranges_within(r@, from as int, to as int),
            slices(v@, r@) == terminated.take(k as int),
        decreases pieces.len() - k,
    {
        let (a, b) = pieces[k];
        assert(pieces@[k as int] == (a, b));
        assert(from <= a <= b <= to);
        assert(p[k as int] == v@.subrange(a as int, b as int));
        let e = if b > a && v[b - 1] == '\r' {
            b - 1
        } else {
            b
        };
        assert(v@.subrange(a as int, e as int) == strip_carriage_return(p[k as int]));
        r.push((a, e));
        assert(terminated.take(k + 1) == terminated.take(k as int).push(terminated[k as int]));
        k = k + 1;
    }
    assert(terminated.take(k as int) == terminated);
    let (a, b) = pieces[k];
    assert(pieces@[k as int] == (a, b));
    assert(p.last() == v@.subrange(a as int, b as int));
    if b > a {
        r.push((a, b));
    }
    r
}

/// The first index of `c` in `v[from..to]`, counted from `from`.
pub fn find_char(v: &Vec<char>, from: usize, to: usize, c: char) -> (r: Option<usize>)
    requires
        from <= to <= v.len(),
    ensures
        match r {
            Some(i) => first_index(v@.subrange(from as int, to as int), c) == i - from && from <= i < to,
            None => first_index(v@.subrange(from as int, to as int), c) < 0,
        },
    decreases to - from,
{
    if from == to {
        return None;
    }
    let ghost s = v@.subrange(from as int, to as int);
    assert(s.drop_first() == v@.subrange(from + 1, to as int));
    if v[from] == c {
        Some(from)
    } else {
        find_char(v, from + 1, to, c)
    }
}

proof fn lemma_first_index_found(s: Seq<char>, c: char)
    requires
        first_index(s, c) >= 0,
    ensures
        first_index(s, c) < s.len(),
        s[first_index(s, c)] == c,
        forall|k: int| 0 <= k < first_index(s, c) ==> s[k] != c,
    decreases s.len(),
{
    if s[0] != c {
        lemma_first_index_found(s.drop_first(), c);
        assert forall|k: int| 0 <= k < first_index(s, c) implies s[k] != c by {
            if k > 0 {
                assert(s[k] == s.drop_first()[k - 1]);
            }
        }
    }
}

proof fn lemma_split_on_nonempty(s: Seq<char>, sep: char)
    ensures
        split_on(s, sep).len() >= 1,
    decreases s.len(),
{
    if s.len() > 0 {
        lemma_split_on_nonempty(s.drop_last(), sep);
    }
}

proof fn lemma_first_index_absent(s: Seq<char>, c: char)
    requires
        first_index(s, c) < 0,
    ensures
        forall|k: int| 0 <= k < s.len() ==> s[k] != c,
    decreases s.len(),
{
    if s.len() > 0 {
        lemma_first_index_absent(s.drop_first(), c);
        assert forall|k: int| 0 <= k < s.len() implies s[k] != c by {
            if k > 0 {
                assert(s[k] == s.drop_first()[k - 1]);
            }
        }
    }
}

/// Where `first_index` finds a character, it lies within the text.
pub proof fn lemma_first_index_bounds(s: Seq<char>, c: char)
    ensures
        first_index(s, c) < s.len(),
        first_index(s, c) >= 0 ==> s[first_index(s, c)] == c,
{
    if first_index(s, c) >= 0 {
        lemma_first_index_found(s, c);
    }
}

/// Whether `c` occurs in `s`, in terms of `first_index`.
pub proof fn lemma_first_index_contains(s: Seq<char>, c: char)
    ensures
        (first_index(s, c) >= 0) == s.contains(c),
{
    if first_index(s, c) >= 0 {
        lemma_first_index_found(s, c);
    } else {
        lemma_first_index_absent(s, c);
    }
}

/// `v[from..to]` with ASCII letters in lower case.
pub fn lowercase_range(v: &Vec<char>, from: usize, to: usize) -> (out: Vec<char>)
    requires
        from <= to <= v.len(),
    ensures
        out@ == to_ascii_lowercase(v@.subrange(from as int, to as int)),
{
    let mut out: Vec<char> = Vec::new();
    let mut i = from;
    while i < to
        invariant
            from <= i <= to <= v.len(),
            out@ == to_ascii_lowercase(v@.subrange(from as int, i as int)),
        decreases to - i,
    {
        let c = v[i];
        let l = if 'A' <= c && c <= 'Z' {
            ((c as u32) + 32) as u8 as char
        } else {
            c
        };
        assert(l == ascii_lower(c));
        out.push(l);
        assert(v@.subrange(from as int, i + 1) == v@.subrange(from as int, i as int).push(c));
        assert(to_ascii_lowercase(v@.subrange(from as int, i + 1)) == to_ascii_lowercase(
            v@.subrange(from as int, i as int),
        ).push(l));
        i = i + 1;
    }
    out
}

/// Whether `needle` occurs in `hay`.
pub fn contains_chars(hay: &Vec<char>, needle: &Vec<char>) -> (b: bool)
    ensures
        b == contains_seq(hay@, needle@),
{
    if needle.len() > hay.len() {
        return false;
    }
    let mut i: usize = 0;
    while i <= hay.len() - needle.len()
        invariant
            needle.len() <= hay.len(),
            i <= hay.len() - needle.len() + 1,
            forall|k: int| 0 <= k < i ==> #[trigger] hay@.subrange(k, k + needle.len()) != needle@,
        decreases hay.len() - i,
    {
        let mut j: usize = 0;
        while j < needle.len() && hay[i + j] == needle[j]
            invariant
                i + needle.len() <= hay.len(),
                j <= needle.len(),
                forall|k: int| 0 <= k < j ==> hay@[i + k] == needle@[k],
            decreases needle.len() - j,
        {
            j = j + 1;
        }
        if j == needle.len() {
            assert(hay@.subrange(i as int, i + needle.len()) == needle@);
            return true;
        }
        assert(hay@.subrange(i as int, i + needle.len())[j as int] != needle@[j as int]);
        i = i + 1;
    }
    assert forall|k: int| 0 <= k && k + needle.len() <= hay.len() implies #[trigger] hay@.subrange(
        k,
        k + needle.len(),
    ) != needle@ by {
        assert(k < i);
    }
    false
}

/// The decimal notation of `n`.
pub fn decimal_chars(n: u64) -> (out: Vec<char>)
    ensures
        out@ == decimal(n as nat),
    decreases n,
{
    let mut out = if n >= 10 {
        decimal_chars(n / 10)
    } else {
        Vec::new()
    };
    let d = ((n % 10) as u8 + 48) as char;
    assert(d == digit_char((n % 10) as nat));
    out.push(d);
    out
}

/// Appends the decimal notation of `n` to `s`, preceded by zeros up to `width` characters.
pub fn push_decimal(s: &mut String, n: u64, width: usize)
    ensures
        final(s)@ == old(s)@ + zero_padded(decimal(n as nat), width as nat),
{
    let digits = decimal_chars(n);
    let ghost before = s@;
    let mut k: usize = digits.len();
    while k < width
        invariant
            digits@ == decimal(n as nat),
            digits.len() <= k <= width || (digits.len() >= width && k == digits.len()),
            s@ == before + Seq::new((k - digits.len()) as nat, |i: int| '0'),
        decreases width - k,
    {
        push_char(s, '0');
        assert(Seq::new((k + 1 - digits.len()) as nat, |i: int| '0') == Seq::new(
            (k - digits.len()) as nat,
            |i: int| '0',
        ).push('0'));
        k = k + 1;
    }
    push_all(s, &digits);
    if digits.len() >= width {
        assert(Seq::new(0nat, |i: int| '0') + digits@ == digits@);
    }
    assert(s@ == before + zero_padded(decimal(n as nat), width as nat));
}

/// Appends the text of `b`, `true` or `false`, to `s`.
pub fn push_bool(s: &mut String, b: bool)
    ensures
        final(s)@ == old(s)@ + bool_text(b),
{
    if b {
        s.append("true");
    } else {
        s.append("false");
    }
}

/// Whether `a` comes before `b` in the order of `str` and `String`: character by
/// character by code point (which is the order of their UTF-8 bytes), a proper prefix first.
pub open spec fn seq_less(a: Seq<char>, b: Seq<char>) -> bool
    decreases a.len(),
{
    if a.len() == 0 {
        b.len() > 0
    } else if b.len() == 0 {
        false
    } else if a[0] != b[0] {
        a[0] < b[0]
    } else {
        seq_less(a.drop_first(), b.drop_first())
    }
}

proof fn lemma_seq_less_irreflexive_asymmetric(a: Seq<char>, b: Seq<char>)
    ensures
        !seq_less(a, a),
        seq_less(a, b) ==> !seq_less(b, a),
    decreases a.len(),
{
    if a.len() > 0 {
        lemma_seq_less_irreflexive_asymmetric(a.drop_first(), a.drop_first());
        if b.len() > 0 {
            lemma_seq_less_irreflexive_asymmetric(a.drop_first(), b.drop_first());
        }
    }
}

proof fn lemma_seq_less_transitive(a: Seq<char>, b: Seq<char>, c: Seq<char>)
    ensures
        seq_less(a, b) && seq_less(b, c) ==> seq_less(a, c),
    decreases a.len(),
{
    if a.len() > 0 && b.len() > 0 && c.len() > 0 {
        lemma_seq_less_transitive(a.drop_first(), b.drop_first(), c.drop_first());
    }
}

proof fn lemma_seq_less_total(a: Seq<char>, b: Seq<char>)
    ensures
        a != b ==> seq_less(a, b) || seq_less(b, a),
    decreases a.len(),
{
    if a.len() > 0 && b.len() > 0 {
        lemma_seq_less_total(a.drop_first(), b.drop_first());
        if a[0] == b[0] && a != b {
            assert(a.drop_first() != b.drop_first()) by {
                if a.drop_first() == b.drop_first() {
                    assert(a =~= seq![a[0]] + a.drop_first());
                    assert(b =~= seq![b[0]] + b.drop_first());
                }
            }
        }
    }
    if a.len() == 0 && b.len() == 0 {
        assert(a =~= b);
    }
}

/// The order of texts is a strict total order.
pub proof fn lemma_seq_less_order(a: Seq<char>, b: Seq<char>, c: Seq<char>)
    ensures
        !seq_less(a, a),
        seq_less(a, b) ==> !seq_less(b, a),
        seq_less(a, b) && seq_less(b, c) ==> seq_less(a, c),
        a != b ==> seq_less(a, b) || seq_less(b, a),
{
    lemma_seq_less_irreflexive_asymmetric(a, b);
    lemma_seq_less_transitive(a, b, c);
    lemma_seq_less_total(a, b);
}

/// Whether `v[a..b]` comes before `w[c..d]` in the order of texts.
pub fn range_less(v: &Vec<char>, a: usize, b: usize, w: &Vec<char>, c: usize, d: usize) -> (r: bool)
    requires
        a <= b <= v.len(),
        c <= d <= w.len(),
    ensures
        r == seq_less(v@.subrange(a as int, b as int), w@.subrange(c as int, d as int)),
    decreases b - a,
{
    let ghost x = v@.subrange(a as int, b as int);
    let ghost y = w@.subrange(c as int, d as int);
    if a == b {
        return c < d;
    }
    if c == d {
        return false;
    }
    if v[a] != w[c] {
        return v[a] < w[c];
    }
    assert(x.drop_first() == v@.subrange(a + 1, b as int));
    assert(y.drop_first() == w@.subrange(c + 1, d as int));
    range_less(v, a + 1, b, w, c + 1, d)
}

/// Whether the text `a` comes before the text `b`.
pub fn text_less(a: &str, b: &str) -> (r: bool)
    ensures
        r == seq_less(a@, b@),
{
    let v = chars_of(a);
    let w = chars_of(b);
    assert(v@.subrange(0, v@.len() as int) == v@);
    assert(w@.subrange(0, w@.len() as int) == w@);
    range_less(&v, 0, v.len(), &w, 0, w.len())
}

/// Whether `s` is in strictly increasing order of texts.
pub open spec fn strictly_sorted(s: Seq<Seq<char>>) -> bool {
    forall|i: int, j: int| 0 <= i < j < s.len() ==> seq_less(#[trigger] s[i], #[trigger] s[j])
}

/// Adds `x` to the strictly sorted texts `out` unless it is among them already.
pub fn insert_sorted_distinct(out: &mut Vec<String>, x: String)
    requires
        strictly_sorted(texts(old(out)@)),
    ensures
        strictly_sorted(texts(final(out)@)),
        texts(final(out)@).to_set() == texts(old(out)@).to_set().insert(x@),
{
    let ghost t = texts(out@);
    let mut i: usize = 0;
    while i < out.len() && text_less(out[i].as_str(), x.as_str())
        invariant
            i <= out@.len(),
            t == texts(out@),
            forall|k: int| 0 <= k < i ==> seq_less(#[trigger] t[k], x@),
        decreases out.len() - i,
    {
        i = i + 1;
    }
    if i < out.len() && !text_less(x.as_str(), out[i].as_str()) {
        proof {
            lemma_seq_less_order(x@, t[i as int], x@);
            assert(t[i as int] == x@);
            assert(t.to_set().insert(x@) =~= t.to_set());
        }
        return;
    }
    let ghost old_t = t;
    out.insert(i, x);
    proof {
        let n = texts(out@);
        assert(n =~= old_t.insert(i as int, x@));
        assert forall|a: int, b: int| 0 <= a < b < n.len() implies seq_less(#[trigger] n[a], #[trigger] n[b]) by {
            if a < i && b == i {
            } else if a == i && b > i {
                lemma_seq_less_order(x@, old_t[i as int], old_t[b - 1]);
                if b - 1 > i {
                    assert(seq_less(old_t[i as int], old_t[b - 1]));
                }
            } else if a < i && b > i {
                assert(seq_less(old_t[a], old_t[b - 1]));
            } else if b < i {
            } else {
                assert(seq_less(old_t[a - 1], old_t[b - 1]));
            }
        }
        assert(n.to_set() =~= old_t.to_set().insert(x@)) by {
            assert forall|e: Seq<char>| n.to_set().contains(e) <==> old_t.to_set().insert(x@).contains(e) by {
                if n.to_set().contains(e) {
                    let k = choose|k: int| 0 <= k < n.len() && n[k] == e;
                    if k < i {
                        assert(old_t[k] == e);
                    } else if k > i {
                        assert(old_t[k - 1] == e);
                    }
                }
                if old_t.to_set().contains(e) {
                    let k = choose|k: int| 0 <= k < old_t.len() && old_t[k] == e;
                    if k < i {
                        assert(n[k] == e);
                    } else {
                        assert(n[k + 1] == e);
                    }
                }
                if e == x@ {
                    assert(n[i as int] == e);
                }
            }
        }
    }
}

/// A text without the separator is a single piece.
pub proof fn lemma_split_without_separator(a: Seq<char>, sep: char)
    requires
        !a.contains(sep),
    ensures
        split_on(a, sep) == seq![a],
    decreases a.len(),
{
    if a.len() > 0 {
        assert(!a.drop_last().contains(sep)) by {
            if a.drop_last().contains(sep) {
                let k = choose|k: int| 0 <= k < a.drop_last().len() && a.drop_last()[k] == sep;
                assert(a[k] == sep);
            }
        }
        lemma_split_without_separator(a.drop_last(), sep);
        assert(a.last() != sep) by {
            assert(a[a.len() - 1] == a.last());
        }
        assert(a.drop_last().push(a.last()) == a);
    } else {
        assert(a == Seq::<char>::empty());
    }
}

/// The pieces of two texts joined by the separator are the pieces of each, in order.
pub proof fn lemma_split_concat(x: Seq<char>, y: Seq<char>, sep: char)
    ensures
        split_on(x + seq![sep] + y, sep) == split_on(x, sep) + split_on(y, sep),
    decreases y.len(),
{
    let s = x + seq![sep] + y;
    if y.len() == 0 {
        assert(s.drop_last() == x);
        assert(s.last() == sep);
        assert(split_on(y, sep) == seq![Seq::<char>::empty()]);
    } else {
        lemma_split_concat(x, y.drop_last(), sep);
        assert(s.drop_last() == x + seq![sep] + y.drop_last());
        assert(s.last() == y.last());
        lemma_split_on_nonempty(y.drop_last(), sep);
        let p = split_on(y.drop_last(), sep);
        if y.last() == sep {
            assert(split_on(s, sep) == (split_on(x, sep) + p).push(Seq::<char>::empty()));
            assert((split_on(x, sep) + p).push(Seq::<char>::empty()) == split_on(x, sep) + p.push(
                Seq::<char>::empty(),
            ));
        } else {
            let q = split_on(x, sep) + p;
            assert(q.last() == p.last());
            assert(q.update(q.len() - 1, q.last().push(y.last())) == split_on(x, sep) + p.update(
                p.len() - 1,
                p.last().push(y.last()),
            ));
        }
    }
}

/// Appending a line and a line feed to a text that is empty or ends with a line feed adds
/// that line to its lines, where the line holds no line feed and does not end with a
/// carriage return.
pub proof fn lemma_lines_push(t: Seq<char>, line: Seq<char>)
    requires
        t.len() == 0 || t.last() == '\n',
        !line.contains('\n'),
        line.len() == 0 || line.last() != '\r',
    ensures
        lines(t + line + "\n"@) == lines(t).push(line),
        (t + line + "\n"@).last() == '\n',
{
    lemma_lines_push_stripped(t, line);
}

/// Appending a line and a line feed to a text that is empty or ends with a line feed adds
/// that line, without a final carriage return, to its lines, where the line holds no line feed.
pub proof fn lemma_lines_push_stripped(t: Seq<char>, line: Seq<char>)
    requires
        t.len() == 0 || t.last() == '\n',
        !line.contains('\n'),
    ensures
        lines(t + line + "\n"@) == lines(t).push(strip_carriage_return(line)),
        (t + line + "\n"@).last() == '\n',
{
    reveal_strlit("\n");
    assert("\n"@ == seq!['\n']);
    lemma_split_without_separator(line, '\n');
    lemma_split_concat(line, Seq::<char>::empty(), '\n');
    assert(line + seq!['\n'] + Seq::<char>::empty() == line + seq!['\n']);
    let empty_split = split_on(Seq::<char>::empty(), '\n');
    assert(empty_split == seq![Seq::<char>::empty()]);
    // the pieces of `line` and a line feed
    assert(split_on(line + seq!['\n'], '\n') == seq![line, Seq::<char>::empty()]);
    if t.len() == 0 {
        assert(t + line + "\n"@ == line + seq!['\n']);
        assert(lines(t) == Seq::<Seq<char>>::empty());
        assert(lines(line + seq!['\n']) == seq![strip_carriage_return(line)]);
    } else {
        let u = t.drop_last();
        assert(t == u + seq!['\n'] + Seq::<char>::empty());
        lemma_split_concat(u, Seq::<char>::empty(), '\n');
        assert(split_on(t, '\n') == split_on(u, '\n').push(Seq::<char>::empty()));
        assert(t + line + "\n"@ == u + seq!['\n'] + (line + seq!['\n']));
        lemma_split_concat(u, line + seq!['\n'], '\n');
        let pu = split_on(u, '\n');
        assert(split_on(t + line + "\n"@, '\n') == pu + seq![line, Seq::<char>::empty()]);
        assert((pu + seq![line, Seq::<char>::empty()]).drop_last() == pu.push(line));
        assert(split_on(t, '\n').drop_last() == pu);
        assert(pu.push(line).map_values(|p: Seq<char>| strip_carriage_return(p)) == pu.map_values(
            |p: Seq<char>| strip_carriage_return(p),
        ).push(strip_carriage_return(line)));
    }
}

/// The first occurrence of `c` in `a`, `c` and `b`, where `a` holds no `c`, is just after `a`.
pub proof fn lemma_first_index_after(a: Seq<char>, b: Seq<char>, c: char)
    requires
        !a.contains(c),
    ensures
        first_index(a + seq![c] + b, c) == a.len(),
    decreases a.len(),
{
    let s = a + seq![c] + b;
    if a.len() > 0 {
        assert(!a.drop_first().contains(c)) by {
            if a.drop_first().contains(c) {
                let k = choose|k: int| 0 <= k < a.drop_first().len() && a.drop_first()[k] == c;
                assert(a[k + 1] == c);
            }
        }
        lemma_first_index_after(a.drop_first(), b, c);
        assert(s.drop_first() == a.drop_first() + seq![c] + b);
        assert(s[0] == a[0]);
        assert(a[0] != c);
    } else {
        assert(s[0] == c);
    }
}

/// A text that neither starts nor ends with white space is its own trimmed text.
pub proof fn lemma_trim_unchanged(s: Seq<char>)
    requires
        s.len() == 0 || (!is_white_space(s[0]) && !is_white_space(s.last())),
    ensures
        trim(s) == s,
{
}

/// No piece of `s` split at `sep` holds `sep`.
pub proof fn lemma_split_pieces_lack_separator(s: Seq<char>, sep: char)
    ensures
        forall|i: int| 0 <= i < split_on(s, sep).len() ==> !(#[trigger] split_on(s, sep)[i]).contains(sep),
    decreases s.len(),
{
    if s.len() > 0 {
        lemma_split_pieces_lack_separator(s.drop_last(), sep);
        lemma_split_on_nonempty(s.drop_last(), sep);
        let p = split_on(s.drop_last(), sep);
        if s.last() != sep {
            let q = p.update(p.len() - 1, p.last().push(s.last()));
            assert forall|i: int| 0 <= i < q.len() implies !(#[trigger] q[i]).contains(sep) by {
                if i == p.len() - 1 {
                    assert(!p[i].contains(sep));
                    if q[i].contains(sep) {
                        let k = choose|k: int| 0 <= k < q[i].len() && q[i][k] == sep;
                        if k < p[i].len() {
                            assert(p[i][k] == sep);
                        }
                    }
                } else {
                    assert(q[i] == p[i]);
                }
            }
        } else {
            let q = p.push(Seq::<char>::empty());
            assert forall|i: int| 0 <= i < q.len() implies !(#[trigger] q[i]).contains(sep) by {
                if i < p.len() {
                    assert(q[i] == p[i]);
                }
            }
        }
    }
}

/// No line of a text holds a line feed.
pub proof fn lemma_lines_lack_line_feed(s: Seq<char>)
    ensures
        forall|i: int| 0 <= i < lines(s).len() ==> !(#[trigger] lines(s)[i]).contains('\n'),
{
    lemma_split_pieces_lack_separator(s, '\n');
    lemma_split_on_nonempty(s, '\n');
    let pieces = split_on(s, '\n');
    let ls = lines(s);
    assert forall|i: int| 0 <= i < ls.len() implies !(#[trigger] ls[i]).contains('\n') by {
        if i < pieces.len() - 1 {
            let p = pieces[i];
            assert(ls[i] == strip_carriage_return(p));
            assert(!p.contains('\n'));
            if ls[i].contains('\n') {
                let k = choose|k: int| 0 <= k < ls[i].len() && ls[i][k] == '\n';
                assert(p[k] == '\n');
            }
        } else {
            assert(ls[i] == pieces.last());
        }
    }
}

} // verus!
