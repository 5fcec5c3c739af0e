//! The values of configuration lines: how a text value is read as a string, a boolean or
//! a bounded number, and how a string is made safe to write back on one line.
use vstd::prelude::*;

use crate::text::{
    bool_text, chars_of, decimal, digit_char, is_white_space, lemma_trim_unchanged, string_of, trim, trim_bounds,
};

verus! {

/// The first `n` characters of `s`, or all of them when there are fewer.
pub open spec fn first_chars(s: Seq<char>, n: nat) -> Seq<char> {
    if s.len() <= n {
        s
    } else {
        s.take(n as int)
    }
}

/// A setting value as it is kept: white space trimmed, at most 256 characters.
pub open spec fn clean_text(v: Seq<char>) -> Seq<char> {
    first_chars(trim(v), 256)
}

/// Whether `c` would break the `key=value` line structure of a configuration file.
pub open spec fn is_config_delimiter(c: char) -> bool {
    c == '\n' || c == '\r' || c == '='
}

/// `s` without the characters that would break the line structure of a configuration file.
pub open spec fn without_delimiters(s: Seq<char>) -> Seq<char>
    decreases s.len(),
{
    if s.len() == 0 {
        s
    } else if is_config_delimiter(s.last()) {
        without_delimiters(s.drop_last())
    } else {
        without_delimiters(s.drop_last()).push(s.last())
    }
}

/// A value as it is written to a configuration file: delimiters removed, at most 256 characters.
pub open spec fn single_line_text(v: Seq<char>) -> Seq<char> {
    first_chars(without_delimiters(v), 256)
}

/// The boolean that a configuration value denotes, or `fallback`.
pub open spec fn parse_bool_text(v: Seq<char>, fallback: bool) -> bool {
    if trim(v) == "true"@ {
        true
    } else if trim(v) == "false"@ {
        false
    } else {
        fallback
    }
}

pub open spec fn is_ascii_digit(c: char) -> bool {
    '0' <= c && c <= '9'
}

pub open spec fn digit_value(c: char) -> nat {
    ((c as u32) - 48) as nat
}

/// The number that the decimal digits `s` denote.
pub open spec fn digits_value(s: Seq<char>) -> nat
    decreases s.len(),
{
    if s.len() == 0 {
        0
    } else {
        digits_value(s.drop_last()) * 10 + digit_value(s.last())
    }
}

/// The digits of an unsigned number text: the text without one leading `+`.
pub open spec fn unsigned_digits(t: Seq<char>) -> Seq<char> {
    if t.len() > 0 && t[0] == '+' {
        t.drop_first()
    } else {
        t
    }
}

/// Whether `t` is a text that `str::parse::<usize>` reads as a number: an optional `+`
/// and at least one decimal digit (the check of the range of `usize` aside).
pub open spec fn is_unsigned_text(t: Seq<char>) -> bool {
    let d = unsigned_digits(t);
    d.len() > 0 && forall|i: int| 0 <= i < d.len() ==> is_ascii_digit(#[trigger] d[i])
}

/// The number that a configuration value denotes when it is at most `maximum`, else `fallback`.
pub open spec fn parse_usize_text(v: Seq<char>, fallback: nat, maximum: nat) -> nat {
    let t = trim(v);
    if is_unsigned_text(t) && digits_value(unsigned_digits(t)) <= maximum {
        digits_value(unsigned_digits(t))
    } else {
        fallback
    }
}

/// The characters `v[from..to]` trimmed and cut to 256 characters.
pub fn clean_range(v: &Vec<char>, from: usize, to: usize) -> (out: String)
    requires
        from <= to <= v.len(),
    ensures
        out@ == clean_text(v@.subrange(from as int, to as int)),
{
    let (a, b) = trim_bounds(v, from, to);
    let e = if b - a > 256 {
        a + 256
    } else {
        b
    };
    let out = string_of(v, a, e);
    assert(out@ == first_chars(v@.subrange(a as int, b as int), 256));
    out
}

/// `value` without leading and trailing white space.
pub fn trimmed(value: &str) -> (out: String)
    ensures
        out@ == trim(value@),
{
    let v = chars_of(value);
    assert(v@.subrange(0, v.len() as int) == v@);
    let (a, b) = trim_bounds(&v, 0, v.len());
    string_of(&v, a, b)
}

/// A setting value as it is kept: white space trimmed, at most 256 characters.
pub fn clean(value: &str) -> (out: String)
    ensures
        out@ == clean_text(value@),
{
    let v = chars_of(value);
    assert(v@.subrange(0, v.len() as int) == v@);
    clean_range(&v, 0, v.len())
}

/// A value as it is written to a configuration file: line feeds, carriage returns and
/// equals signs removed, at most 256 characters.
pub fn single_line(value: &str) -> (out: String)
    ensures
        out@ == single_line_text(value@),
{
    let v = chars_of(value);
    let mut kept: Vec<char> = Vec::new();
    let mut i: usize = 0;
    while i < v.len()
        invariant
            i <= v.len(),
            kept@ == without_delimiters(v@.take(i as int)),
        decreases v.len() - i,
    {
        let c = v[i];
        assert(v@.take(i + 1).drop_last() == v@.take(i as int));
        if !(c == '\n' || c == '\r' || c == '=') {
            kept.push(c);
        }
        i = i + 1;
    }
    assert(v@.take(v.len() as int) == value@);
    let e = if kept.len() > 256 {
        256
    } else {
        kept.len()
    };
    string_of(&kept, 0, e)
}

/// Whether `v[from..to]` is the text `lit`.
pub fn range_is(v: &Vec<char>, from: usize, to: usize, lit: &str) -> (b: bool)
    requires
        from <= to <= v.len(),
    ensures
        b == (v@.subrange(from as int, to as int) == lit@),
{
    let l = chars_of(lit);
    if l.len() != to - from {
        return false;
    }
    let mut i: usize = 0;
    while i < l.len()
        invariant
            l@ == lit@,
            l.len() == to - from,
            from <= to <= v.len(),
            i <= l.len(),
            forall|k: int| 0 <= k < i ==> v@[from + k] == l@[k],
        decreases l.len() - i,
    {
        if v[from + i] != l[i] {
            assert(v@.subrange(from as int, to as int)[i as int] != lit@[i as int]);
            return false;
        }
        i = i + 1;
    }
    assert(v@.subrange(from as int, to as int) == lit@);
    true
}

/// Whether `s` is the text `lit`.
pub fn text_is(s: &str, lit: &str) -> (b: bool)
    ensures
        b == (s@ == lit@),
{
    let v = chars_of(s);
    assert(v@.subrange(0, v.len() as int) == s@);
    range_is(&v, 0, v.len(), lit)
}

/// The boolean that `v[from..to]` denotes, or `fallback`.
pub fn parse_bool_range(v: &Vec<char>, from: usize, to: usize, fallback: bool) -> (b: bool)
    requires
        from <= to <= v.len(),
    ensures
        b == parse_bool_text(v@.subrange(from as int, to as int), fallback),
{
    let (a, e) = trim_bounds(v, from, to);
    if range_is(v, a, e, "true") {
        true
    } else if range_is(v, a, e, "false") {
        false
    } else {
        fallback
    }
}

/// `true` or `false` as a configuration value says, else `fallback`.
pub fn parse_bool(value: &str, fallback: bool) -> (b: bool)
    ensures
        b == parse_bool_text(value@, fallback),
{
    let v = chars_of(value);
    assert(v@.subrange(0, v.len() as int) == v@);
    parse_bool_range(&v, 0, v.len(), fallback)
}

/// The number that `v[from..to]` denotes when it is at most `maximum`, else `fallback`.
pub fn parse_usize_range(v: &Vec<char>, from: usize, to: usize, fallback: usize, maximum: usize) -> (n: usize)
    requires
        from <= to <= v.len(),
    ensures
        n == parse_usize_text(v@.subrange(from as int, to as int), fallback as nat, maximum as nat),
{
    let (a, e) = trim_bounds(v, from, to);
    let ghost t = v@.subrange(a as int, e as int);
    let start = if a < e && v[a] == '+' {
        a + 1
    } else {
        a
    };
    assert(unsigned_digits(t) == v@.subrange(start as int, e as int));
    if start == e {
        return fallback;
    }
    let mut value: u128 = 0;
    let mut over = false;
    let mut i = start;
    while i < e
        invariant
            start <= i <= e <= v.len(),
            from <= to <= v.len(),
            t == v@.subrange(a as int, e as int),
            trim(v@.subrange(from as int, to as int)) == t,
            unsigned_digits(t) == v@.subrange(start as int, e as int),
            forall|k: int| start <= k < i ==> is_ascii_digit(#[trigger] v@[k]),
            !over ==> value == digits_value(v@.subrange(start as int, i as int)) && value <= maximum,
            over ==> digits_value(v@.subrange(start as int, i as int)) > maximum,
        decreases e - i,
    {
        let c = v[i];
        if !('0' <= c && c <= '9') {
            assert(!is_ascii_digit(unsigned_digits(t)[i - start]));
            return fallback;
        }
        assert(v@.subrange(start as int, i + 1).drop_last() == v@.subrange(start as int, i as int));
        if !over {
            value = value * 10 + ((c as u32) - 48) as u128;
            if value > maximum as u128 {
                over = true;
            }
        }
        i = i + 1;
    }
    assert forall|k: int| 0 <= k < unsigned_digits(t).len() implies is_ascii_digit(
        #[trigger] unsigned_digits(t)[k],
    ) by {
        assert(unsigned_digits(t)[k] == v@[start + k]);
    }
    if over {
        fallback
    } else {
        value as usize
    }
}

/// The number that a configuration value denotes when it is at most `maximum`, else `fallback`.
pub fn parse_usize(value: &str, fallback: usize, maximum: usize) -> (n: usize)
    ensures
        n == parse_usize_text(value@, fallback as nat, maximum as nat),
{
    let v = chars_of(value);
    assert(v@.subrange(0, v.len() as int) == v@);
    parse_usize_range(&v, 0, v.len(), fallback, maximum)
}

/// Whether the text `v` is written and read back unchanged: at most 256 characters, none
/// of them a line feed, carriage return or equals sign, and no white space at either end.
pub open spec fn is_storable_text(v: Seq<char>) -> bool {
    &&& v.len() <= 256
    &&& forall|i: int| 0 <= i < v.len() ==> !is_config_delimiter(#[trigger] v[i])
    &&& trim(v) == v
}

proof fn lemma_without_delimiters_unchanged(v: Seq<char>)
    requires
        forall|i: int| 0 <= i < v.len() ==> !is_config_delimiter(#[trigger] v[i]),
    ensures
        without_delimiters(v) == v,
    decreases v.len(),
{
    if v.len() > 0 {
        assert forall|i: int| 0 <= i < v.drop_last().len() implies !is_config_delimiter(#[trigger] v.drop_last()[i]) by {
            assert(v.drop_last()[i] == v[i]);
        }
        lemma_without_delimiters_unchanged(v.drop_last());
        assert(!is_config_delimiter(v[v.len() - 1]));
        assert(v.drop_last().push(v.last()) == v);
    }
}

proof fn lemma_without_delimiters_clean(v: Seq<char>)
    ensures
        forall|i: int| 0 <= i < without_delimiters(v).len() ==> !is_config_delimiter(
            #[trigger] without_delimiters(v)[i],
        ),
        without_delimiters(v).len() <= v.len(),
    decreases v.len(),
{
    if v.len() > 0 {
        lemma_without_delimiters_clean(v.drop_last());
        let w = without_delimiters(v.drop_last());
        if !is_config_delimiter(v.last()) {
            assert forall|i: int| 0 <= i < w.push(v.last()).len() implies !is_config_delimiter(
                #[trigger] w.push(v.last())[i],
            ) by {
                if i < w.len() {
                    assert(w.push(v.last())[i] == w[i]);
                }
            }
        }
    }
}

/// Whether `f` maps the positions of `a`, in increasing order, to positions of `b` that
/// hold the same characters.
pub open spec fn embeds(f: spec_fn(int) -> int, a: Seq<char>, b: Seq<char>) -> bool {
    &&& forall|i: int| 0 <= i < a.len() ==> 0 <= #[trigger] f(i) < b.len() && a[i] == b[f(i)]
    &&& forall|i: int, j: int| 0 <= i < j < a.len() ==> #[trigger] f(i) < #[trigger] f(j)
}

/// Whether `a` is `b` with some characters left out.
pub open spec fn is_subsequence(a: Seq<char>, b: Seq<char>) -> bool {
    exists|f: spec_fn(int) -> int| #[trigger] embeds(f, a, b)
}

proof fn lemma_without_delimiters_embeds(v: Seq<char>) -> (f: spec_fn(int) -> int)
    ensures
        embeds(f, without_delimiters(v), v),
    decreases v.len(),
{
    if v.len() == 0 {
        |i: int| i
    } else {
        let g = lemma_without_delimiters_embeds(v.drop_last());
        let w = without_delimiters(v.drop_last());
        assert forall|i: int| 0 <= i < w.len() implies 0 <= #[trigger] g(i) < v.len() && w[i] == v[g(i)] by {
            assert(v.drop_last()[g(i)] == v[g(i)]);
        }
        if is_config_delimiter(v.last()) {
            g
        } else {
            let last = v.len() - 1;
            let h = |i: int| if i < w.len() { g(i) } else { last };
            let x = w.push(v.last());
            assert forall|i: int| 0 <= i < x.len() implies 0 <= #[trigger] h(i) < v.len() && x[i] == v[h(i)] by {
                if i < w.len() {
                    assert(x[i] == w[i]);
                }
            }
            assert forall|i: int, j: int| 0 <= i < j < x.len() implies #[trigger] h(i) < #[trigger] h(j) by {
                if j < w.len() {
                    assert(g(i) < g(j));
                } else {
                    assert(g(i) < v.drop_last().len());
                }
            }
            h
        }
    }
}

/// A value written to a configuration file holds no line feed, carriage return or equals
/// sign, has at most 256 characters, is written unchanged a second time, and is the value
/// with some characters left out.
pub proof fn lemma_single_line_is_clean(v: Seq<char>)
    ensures
        is_subsequence(single_line_text(v), v),
        forall|i: int| 0 <= i < single_line_text(v).len() ==> !is_config_delimiter(#[trigger] single_line_text(v)[i]),
        single_line_text(v).len() <= 256,
        single_line_text(single_line_text(v)) == single_line_text(v),
{
    lemma_without_delimiters_clean(v);
    let w = without_delimiters(v);
    let t = single_line_text(v);
    assert forall|i: int| 0 <= i < t.len() implies !is_config_delimiter(#[trigger] t[i]) by {
        assert(t[i] == w[i]);
    }
    lemma_without_delimiters_unchanged(t);
    let f = lemma_without_delimiters_embeds(v);
    assert(embeds(f, t, v));
}

/// A storable text is written as it is and read back as it was written.
pub proof fn lemma_storable_text_round_trip(v: Seq<char>)
    requires
        is_storable_text(v),
    ensures
        single_line_text(v) == v,
        clean_text(single_line_text(v)) == v,
{
    lemma_without_delimiters_unchanged(v);
}

/// A boolean is read back as it is written.
pub proof fn lemma_bool_round_trip(b: bool, fallback: bool)
    ensures
        parse_bool_text(bool_text(b), fallback) == b,
{
    reveal_strlit("true");
    reveal_strlit("false");
    lemma_trim_unchanged("true"@);
    lemma_trim_unchanged("false"@);
    assert("true"@ != "false"@) by {
        assert("true"@.len() != "false"@.len());
    }
}

/// The decimal notation of a number is a nonempty run of digits that denotes it.
pub proof fn lemma_decimal_digits(n: nat)
    ensures
        decimal(n).len() > 0,
        forall|i: int| 0 <= i < decimal(n).len() ==> is_ascii_digit(#[trigger] decimal(n)[i]),
        digits_value(decimal(n)) == n,
    decreases n,
{
    let d = digit_char(n % 10);
    assert(digit_value(d) == n % 10);
    assert(is_ascii_digit(d));
    if n >= 10 {
        lemma_decimal_digits(n / 10);
        let s = decimal(n);
        assert(s.drop_last() == decimal(n / 10));
        assert(s.last() == d);
        assert(digits_value(s) == digits_value(s.drop_last()) * 10 + digit_value(s.last()));
        assert(n == (n / 10) * 10 + n % 10);
        assert forall|i: int| 0 <= i < s.len() implies is_ascii_digit(#[trigger] s[i]) by {
            if i < s.len() - 1 {
                assert(s[i] == decimal(n / 10)[i]);
            }
        }
    } else {
        let s = decimal(n);
        assert(s == seq![d]);
        assert(s.drop_last() == Seq::<char>::empty());
        assert(digits_value(s) == digits_value(s.drop_last()) * 10 + digit_value(s.last()));
    }
}

/// A number up to the maximum is read back as it is written.
pub proof fn lemma_number_round_trip(n: nat, fallback: nat, maximum: nat)
    requires
        n <= maximum,
    ensures
        parse_usize_text(decimal(n), fallback, maximum) == n,
{
    lemma_decimal_digits(n);
    let s = decimal(n);
    assert(!is_white_space(s[0]));
    assert(!is_white_space(s.last())) by {
        assert(s.last() == s[s.len() - 1]);
    }
    lemma_trim_unchanged(s);
    assert(s[0] != '+');
    assert(unsigned_digits(s) == s);
}

} // verus!
