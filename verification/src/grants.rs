//! The capabilities granted to applications, as the grants database lists them: one grant
//! per line, with the executable, a digest and the capability separated by tabs.
use vstd::prelude::*;

use crate::text::{
    chars_of, lemma_lines_lack_line_feed, lemma_lines_push_stripped, strip_carriage_return, insert_sorted_distinct, line_bounds, lines, slices, split_bounds, split_on, string_of,
    strictly_sorted, texts,
};
use crate::values::range_is;

verus! {

/// The capability that the grant line `line` gives to `executable`, if it gives one: its
/// third field, when its first field is `executable`.
pub open spec fn grant_of_line(line: Seq<char>, executable: Seq<char>) -> Option<Seq<char>> {
    let f = split_on(line, '\t');
    if f[0] == executable && f.len() >= 3 {
        Some(f[2])
    } else {
        None
    }
}

/// Whether one of the lines `ls` grants `capability` to `executable`.
pub open spec fn granted(ls: Seq<Seq<char>>, executable: Seq<char>, capability: Seq<char>) -> bool {
    exists|i: int| 0 <= i < ls.len() && grant_of_line(#[trigger] ls[i], executable) == Some(capability)
}

/// Whether the grant line `line` belongs to `executable`: its first field is `executable`.
pub open spec fn belongs_to(line: Seq<char>, executable: Seq<char>) -> bool {
    split_on(line, '\t')[0] == executable
}

/// The number of lines of `ls` that are not empty.
pub open spec fn nonempty_count(ls: Seq<Seq<char>>) -> nat
    decreases ls.len(),
{
    if ls.len() == 0 {
        0
    } else {
        nonempty_count(ls.drop_last()) + if ls.last().len() > 0 { 1nat } else { 0nat }
    }
}

/// The text of the grant lines `ls` that do not belong to `executable`, each ended by a line feed.
pub open spec fn kept_grants(ls: Seq<Seq<char>>, executable: Seq<char>) -> Seq<char>
    decreases ls.len(),
{
    if ls.len() == 0 {
        seq![]
    } else if belongs_to(ls.last(), executable) {
        kept_grants(ls.drop_last(), executable)
    } else {
        kept_grants(ls.drop_last(), executable) + ls.last() + "\n"@
    }
}

/// The number of grant lines of `ls` that belong to `executable`.
pub open spec fn removed_grants(ls: Seq<Seq<char>>, executable: Seq<char>) -> nat
    decreases ls.len(),
{
    if ls.len() == 0 {
        0
    } else {
        removed_grants(ls.drop_last(), executable) + if belongs_to(ls.last(), executable) { 1nat } else { 0nat }
    }
}

proof fn lemma_split_nonempty(s: Seq<char>, sep: char)
    ensures
        split_on(s, sep).len() >= 1,
    decreases s.len(),
{
    if s.len() > 0 {
        lemma_split_nonempty(s.drop_last(), sep);
    }
}

/// The fields of the grant line `v[a..b]`, and whether it belongs to `executable`.
fn line_fields(v: &Vec<char>, a: usize, b: usize, executable: &str) -> (r: (Vec<(usize, usize)>, bool))
    requires
        a <= b <= v.len(),
    ensures
        slices(v@, r.0@) == split_on(v@.subrange(a as int, b as int), '\t'),
        forall|k: int| 0 <= k < r.0@.len() ==> a <= (#[trigger] r.0@[k]).0 <= r.0@[k].1 <= b,
        r.0@.len() >= 1,
        r.1 == belongs_to(v@.subrange(a as int, b as int), executable@),
{
    let fields = split_bounds(v, a, b, '\t');
    proof {
        lemma_split_nonempty(v@.subrange(a as int, b as int), '\t');
    }
    let (f0, f1) = fields[0];
    assert(fields@[0] == (f0, f1));
    let mine = range_is(v, f0, f1, executable);
    (fields, mine)
}

/// The capabilities that the grants database `text` gives to `executable`, each once, in
/// the order of texts.
pub fn application_grants(text: &str, executable: &str) -> (grants: Vec<String>)
    ensures
        strictly_sorted(texts(grants@)),
        forall|g: Seq<char>| texts(grants@).contains(g) <==> granted(lines(text@), executable@, g),
{
    let v = chars_of(text);
    assert(v@.subrange(0, v@.len() as int) == v@);
    let ls = line_bounds(&v, 0, v.len());
    let ghost all = lines(text@);
    let mut grants: Vec<String> = Vec::new();
    let mut k: usize = 0;
    while k < ls.len()
        invariant
            v@ == text@,
            all == lines(text@),
            slices(v@, ls@) == all,
            forall|j: int| 0 <= j < ls@.len() ==> 0 <= (#[trigger] ls@[j]).0 <= ls@[j].1 <= v@.len(),
            k <= ls.len(),
            strictly_sorted(texts(grants@)),
            forall|g: Seq<char>| #[trigger] texts(grants@).contains(g) <==> granted(all.take(k as int), executable@, g),
        decreases ls.len() - k,
    {
        let (a, b) = ls[k];
        assert(ls@[k as int] == (a, b));
        let ghost line = v@.subrange(a as int, b as int);
        assert(all[k as int] == line);
        let ghost before = texts(grants@);
        let (fields, mine) = line_fields(&v, a, b, executable);
        let ghost f = split_on(line, '\t');
        let found: Option<String> = if mine && fields.len() >= 3 {
            let (c0, c1) = fields[2];
            assert(fields@[2] == (c0, c1));
            assert(f[2] == v@.subrange(c0 as int, c1 as int));
            Some(string_of(&v, c0, c1))
        } else {
            None
        };
        assert(match found { Some(s) => grant_of_line(line, executable@) == Some(s@), None => grant_of_line(line, executable@) is None });
        match found {
            Some(s) => {
                insert_sorted_distinct(&mut grants, s);
            },
            None => {},
        }
        proof {
            let now = all.take(k + 1);
            let prev = all.take(k as int);
            assert forall|g: Seq<char>| #[trigger] texts(grants@).contains(g) <==> granted(now, executable@, g) by {
                assert(texts(grants@).to_set().contains(g) == texts(grants@).contains(g));
                assert(before.to_set().contains(g) == before.contains(g));
                if granted(prev, executable@, g) {
                    let i = choose|i: int| 0 <= i < prev.len() && grant_of_line(#[trigger] prev[i], executable@) == Some(g);
                    assert(now[i] == prev[i]);
                }
                if granted(now, executable@, g) {
                    let i = choose|i: int| 0 <= i < now.len() && grant_of_line(#[trigger] now[i], executable@) == Some(g);
                    if i < k {
                        assert(prev[i] == now[i]);
                    }
                }
                if grant_of_line(line, executable@) == Some(g) {
                    assert(now[k as int] == line);
                }
            }
        }
        k = k + 1;
    }
    assert(all.take(ls.len() as int) == all);
    grants
}

/// The number of grants that the grants database `text` holds: its lines that are not empty.
pub fn persistent_grant_count(text: &str) -> (n: usize)
    ensures
        n == nonempty_count(lines(text@)),
{
    let v = chars_of(text);
    assert(v@.subrange(0, v@.len() as int) == v@);
    let ls = line_bounds(&v, 0, v.len());
    let ghost all = lines(text@);
    let mut n: usize = 0;
    let mut k: usize = 0;
    while k < ls.len()
        invariant
            all == lines(text@),
            slices(v@, ls@) == all,
            forall|j: int| 0 <= j < ls@.len() ==> 0 <= (#[trigger] ls@[j]).0 <= ls@[j].1 <= v@.len(),
            k <= ls.len(),
            n <= k,
            n == nonempty_count(all.take(k as int)),
        decreases ls.len() - k,
    {
        let (a, b) = ls[k];
        assert(ls@[k as int] == (a, b));
        assert(all[k as int] == v@.subrange(a as int, b as int));
        assert(all.take(k + 1).drop_last() == all.take(k as int));
        assert(all.take(k + 1).last() == all[k as int]);
        if b > a {
            n = n + 1;
        }
        k = k + 1;
    }
    assert(all.take(ls.len() as int) == all);
    n
}

/// The grants database `text` without the grants of `executable`, and how many lines were removed.
pub fn revoke_grants(text: &str, executable: &str) -> (r: (String, usize))
    ensures
        r.0@ == kept_grants(lines(text@), executable@),
        r.1 == removed_grants(lines(text@), executable@),
{
    let v = chars_of(text);
    assert(v@.subrange(0, v@.len() as int) == v@);
    let ls = line_bounds(&v, 0, v.len());
    let ghost all = lines(text@);
    let mut kept = String::new();
    let mut removed: usize = 0;
    let mut k: usize = 0;
    while k < ls.len()
        invariant
            v@ == text@,
            all == lines(text@),
            slices(v@, ls@) == all,
            forall|j: int| 0 <= j < ls@.len() ==> 0 <= (#[trigger] ls@[j]).0 <= ls@[j].1 <= v@.len(),
            k <= ls.len(),
            removed <= k,
            kept@ == kept_grants(all.take(k as int), executable@),
            removed == removed_grants(all.take(k as int), executable@),
        decreases ls.len() - k,
    {
        let (a, b) = ls[k];
        assert(ls@[k as int] == (a, b));
        let ghost line = v@.subrange(a as int, b as int);
        assert(all[k as int] == line);
        assert(all.take(k + 1).drop_last() == all.take(k as int));
        assert(all.take(k + 1).last() == line);
        let (_fields, mine) = line_fields(&v, a, b, executable);
        if mine {
            removed = removed + 1;
        } else {
            let piece = string_of(&v, a, b);
            kept.append(piece.as_str());
            kept.append("\n");
        }
        k = k + 1;
    }
    assert(all.take(ls.len() as int) == all);
    (kept, removed)
}

/// A grant line that does not belong to `executable` grants it nothing, also once a final
/// carriage return is removed from it.
proof fn lemma_stripped_line_grants_nothing(l: Seq<char>, e: Seq<char>)
    requires
        !belongs_to(l, e),
    ensures
        grant_of_line(strip_carriage_return(l), e) is None,
{
    if l.len() > 0 && l.last() == '\r' {
        let m = l.drop_last();
        lemma_split_nonempty(m, '\t');
        let p = split_on(m, '\t');
        assert(split_on(l, '\t') == p.update(p.len() - 1, p.last().push('\r')));
        if p.len() >= 3 {
            assert(split_on(l, '\t')[0] == p[0]);
        }
    }
}

proof fn lemma_kept_grants_grant_nothing(ls: Seq<Seq<char>>, e: Seq<char>)
    requires
        forall|i: int| 0 <= i < ls.len() ==> !(#[trigger] ls[i]).contains('\n'),
    ensures
        kept_grants(ls, e).len() == 0 || kept_grants(ls, e).last() == '\n',
        forall|c: Seq<char>| !granted(lines(kept_grants(ls, e)), e, c),
    decreases ls.len(),
{
    if ls.len() == 0 {
        reveal_strlit("");
        assert(lines(Seq::<char>::empty()).len() == 0);
    } else {
        assert forall|i: int| 0 <= i < ls.drop_last().len() implies !(#[trigger] ls.drop_last()[i]).contains('\n') by {
            assert(ls.drop_last()[i] == ls[i]);
        }
        lemma_kept_grants_grant_nothing(ls.drop_last(), e);
        let t = kept_grants(ls.drop_last(), e);
        let l = ls.last();
        if !belongs_to(l, e) {
            assert(!l.contains('\n')) by {
                assert(l == ls[ls.len() - 1]);
            }
            lemma_lines_push_stripped(t, l);
            lemma_stripped_line_grants_nothing(l, e);
            let nl = lines(t).push(strip_carriage_return(l));
            assert forall|c: Seq<char>| !granted(nl, e, c) by {
                if granted(nl, e, c) {
                    let i = choose|i: int| 0 <= i < nl.len() && grant_of_line(#[trigger] nl[i], e) == Some(c);
                    if i < lines(t).len() {
                        assert(nl[i] == lines(t)[i]);
                        assert(granted(lines(t), e, c));
                    }
                }
            }
        }
    }
}

/// After the grants of `executable` are revoked from the grants database `text`, what is
/// left gives it no capability at all.
pub proof fn lemma_revoke_leaves_no_grant(text: Seq<char>, executable: Seq<char>, capability: Seq<char>)
    ensures
        !granted(lines(kept_grants(lines(text), executable)), executable, capability),
{
    lemma_lines_lack_line_feed(text);
    lemma_kept_grants_grant_nothing(lines(text), executable);
}

} // verus!
