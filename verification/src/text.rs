//! Character-level text utilities: conversion between strings and character
//! vectors, splitting on a separator, trimming, tab expansion, joining, and
//! decimal rendering of counts.

use vstd::prelude::*;
use vstd::string::StrSliceExecFns;

verus! {

/// How often `c` occurs in `text`.
pub open spec fn spec_count(text: Seq<char>, c: char) -> nat
    decreases text.len(),
{
    if text.len() == 0 {
        0
    } else {
        spec_count(text.drop_last(), c) + if text.last() == c {
            1nat
        } else {
            0nat
        }
    }
}

/// `text` split at every occurrence of `sep`; the separators themselves are
/// dropped. The empty sequence yields one empty field, so the result always
/// holds one more field than `text` holds separators.
pub open spec fn spec_split(text: Seq<char>, sep: char) -> Seq<Seq<char>>
    decreases text.len(),
{
    if text.len() == 0 {
        seq![Seq::<char>::empty()]
    } else if text.last() == sep {
        spec_split(text.drop_last(), sep).push(Seq::<char>::empty())
    } else {
        let parts = spec_split(text.drop_last(), sep);
        parts.update(parts.len() - 1, parts.last().push(text.last()))
    }
}

pub proof fn lemma_split_len(text: Seq<char>, sep: char)
    ensures
        spec_split(text, sep).len() == spec_count(text, sep) + 1,
    decreases text.len(),
{
    if text.len() > 0 {
        lemma_split_len(text.drop_last(), sep);
    }
}

/// The characters of `s`, as a vector.
pub fn to_chars(s: &str) -> (r: Vec<char>)
    ensures
        r@ == s@,
{
    let n = s.unicode_len();
    let mut r: Vec<char> = Vec::new();
    let mut i: usize = 0;
    while i < n
        invariant
            i <= n,
            n == s@.len(),
            r@ == s@.take(i as int),
        decreases n - i,
    {
        r.push(s.get_char(i));
        proof {
            assert(s@.take(i + 1 as int) =~= s@.take(i as int).push(s@[i as int]));
        }
        i = i + 1;
    }
    proof {
        assert(s@.take(n as int) =~= s@);
    }
    r
}

/// Relies on `String::push`: appends exactly the given character.
#[verifier::external_body]
pub(crate) fn push_char(s: &mut String, c: char)
    ensures
        final(s)@ == old(s)@.push(c),
{
    s.push(c);
}

/// A string holding exactly the characters of `v`.
pub fn from_chars(v: &Vec<char>) -> (r: String)
    ensures
        r@ == v@,
{
    let mut r = String::new();
    let mut i: usize = 0;
    while i < v.len()
        invariant
            i <= v.len(),
            r@ == v@.take(i as int),
        decreases v.len() - i,
    {
        push_char(&mut r, v[i]);
        proof {
            assert(v@.take(i + 1 as int) =~= v@.take(i as int).push(v@[i as int]));
        }
        i = i + 1;
    }
    proof {
        assert(v@.take(v.len() as int) =~= v@);
    }
    r
}

/// The characters of `v` between `from` (inclusive) and `to` (exclusive).
pub fn copy_range(v: &Vec<char>, from: usize, to: usize) -> (r: Vec<char>)
    requires
        from <= to <= v.len(),
    ensures
        r@ == v@.subrange(from as int, to as int),
{
    let mut r: Vec<char> = Vec::new();
    let mut i: usize = from;
    while i < to
        invariant
            from <= i <= to <= v.len(),
            r@ == v@.subrange(from as int, i as int),
        decreases to - i,
    {
        r.push(v[i]);
        proof {
            assert(v@.subrange(from as int, i + 1 as int) =~= v@.subrange(
                from as int,
                i as int,
            ).push(v@[i as int]));
        }
        i = i + 1;
    }
    r
}

/// Splits `v` at every occurrence of `sep`.
pub fn split_all(v: &Vec<char>, sep: char) -> (r: Vec<Vec<char>>)
    ensures
        r.deep_view() == spec_split(v@, sep),
        r.len() > 0,
{
    let mut done: Vec<Vec<char>> = Vec::new();
    let mut cur: Vec<char> = Vec::new();
    let mut k: usize = 0;
    while k < v.len()
        invariant
            k <= v.len(),
            spec_split(v@.take(k as int), sep) == done.deep_view().push(cur@),
        decreases v.len() - k,
    {
        let c = v[k];
        proof {
            assert(v@.take(k + 1 as int).drop_last() =~= v@.take(k as int));
            assert(v@.take(k + 1 as int).last() == v@[k as int]);
        }
        if c == sep {
            let ghost old_done = done.deep_view();
            let ghost old_cur = cur@;
            done.push(cur);
            cur = Vec::new();
            proof {
                assert(spec_split(v@.take(k + 1 as int), sep) =~= done.deep_view().push(cur@)) by {
                    assert(done.deep_view() =~~= old_done.push(old_cur));
                }
            }
        } else {
            let ghost old_cur = cur@;
            cur.push(c);
            proof {
                let parts = spec_split(v@.take(k as int), sep);
                assert(spec_split(v@.take(k + 1 as int), sep) == parts.update(
                    parts.len() - 1,
                    parts.last().push(c),
                ));
                assert(parts.update(parts.len() - 1, parts.last().push(c))
                    =~= done.deep_view().push(cur@));
            }
        }
        k = k + 1;
    }
    proof {
        assert(v@.take(v.len() as int) =~= v@);
    }
    let ghost old_done = done.deep_view();
    let ghost old_cur = cur@;
    done.push(cur);
    proof {
        assert(done.deep_view() =~~= old_done.push(old_cur));
    }
    done
}

/// A sequence without the separator splits into the single field it is.
pub proof fn lemma_split_no_sep(s: Seq<char>, sep: char)
    requires
        forall|k: int| 0 <= k < s.len() ==> s[k] != sep,
    ensures
        spec_split(s, sep) == seq![s],
    decreases s.len(),
{
    if s.len() == 0 {
        assert(spec_split(s, sep) =~~= seq![s]);
    } else {
        lemma_split_no_sep(s.drop_last(), sep);
        let parts = spec_split(s.drop_last(), sep);
        assert(parts.update(parts.len() - 1, parts.last().push(s.last())) =~~= seq![s]);
    }
}

/// How a split decomposes over concatenation: the last field of the left part
/// and the first field of the right part fuse; all other fields survive.
pub proof fn lemma_split_concat(u: Seq<char>, v: Seq<char>, sep: char)
    ensures
        spec_split(u + v, sep) == spec_split(u, sep).drop_last() + seq![
            spec_split(u, sep).last() + spec_split(v, sep).first(),
        ] + spec_split(v, sep).drop_first(),
    decreases v.len(),
{
    lemma_split_len(u, sep);
    lemma_split_len(v, sep);
    let su = spec_split(u, sep);
    if v.len() == 0 {
        assert(u + v =~= u);
        assert(spec_split(v, sep) == seq![Seq::<char>::empty()]);
        assert(su.last() + Seq::<char>::empty() =~= su.last());
        assert(su.drop_last() + seq![su.last() + spec_split(v, sep).first()] + spec_split(
            v,
            sep,
        ).drop_first() =~= su);
    } else {
        let w = v.drop_last();
        let c = v.last();
        lemma_split_concat(u, w, sep);
        lemma_split_len(w, sep);
        let sw = spec_split(w, sep);
        let sv = spec_split(v, sep);
        let fused = su.drop_last() + seq![su.last() + sw.first()] + sw.drop_first();
        assert((u + v).drop_last() =~= u + w);
        assert((u + v).last() == c);
        if c == sep {
            assert(sv == sw.push(Seq::<char>::empty()));
            assert(sv.first() == sw.first());
            assert(spec_split(u + v, sep) == fused.push(Seq::<char>::empty()));
            assert(fused.push(Seq::<char>::empty()) =~= su.drop_last() + seq![
                su.last() + sv.first(),
            ] + sv.drop_first());
        } else {
            assert(sv == sw.update(sw.len() - 1, sw.last().push(c)));
            assert(spec_split(u + v, sep) == fused.update(fused.len() - 1, fused.last().push(c)));
            if sw.len() == 1 {
                assert(sv.first() == sw.first().push(c));
                assert(fused.last() == su.last() + sw.first());
                assert((su.last() + sw.first()).push(c) =~= su.last() + sw.first().push(c));
                assert(fused.update(fused.len() - 1, fused.last().push(c)) =~= su.drop_last()
                    + seq![su.last() + sv.first()] + sv.drop_first());
            } else {
                assert(sv.first() == sw.first());
                assert(fused.last() == sw.last());
                assert(fused.update(fused.len() - 1, fused.last().push(c)) =~= su.drop_last()
                    + seq![su.last() + sv.first()] + sv.drop_first());
            }
        }
    }
}

/// Joining the fields of a split restores the original sequence.
pub proof fn lemma_join_split(s: Seq<char>, sep: char)
    ensures
        spec_join(spec_split(s, sep), sep) == s,
    decreases s.len(),
{
    if s.len() == 0 {
    } else {
        let w = s.drop_last();
        let c = s.last();
        lemma_join_split(w, sep);
        lemma_split_len(w, sep);
        let parts = spec_split(w, sep);
        if c == sep {
            assert(spec_join(parts.push(Seq::<char>::empty()), sep) == spec_join(
                parts.push(Seq::<char>::empty()).drop_last(),
                sep,
            ) + seq![sep] + Seq::<char>::empty());
            assert(parts.push(Seq::<char>::empty()).drop_last() =~= parts);
            assert(spec_join(parts, sep) + seq![sep] + Seq::<char>::empty() =~= s);
        } else {
            let upd = parts.update(parts.len() - 1, parts.last().push(c));
            if parts.len() == 1 {
                assert(spec_join(upd, sep) == upd[0]);
                assert(upd[0] =~= s);
            } else {
                assert(upd.drop_last() =~= parts.drop_last());
                assert(spec_join(upd, sep) == spec_join(parts.drop_last(), sep) + seq![sep]
                    + parts.last().push(c));
                assert(spec_join(parts.drop_last(), sep) + seq![sep] + parts.last().push(c) =~= (
                spec_join(parts.drop_last(), sep) + seq![sep] + parts.last()).push(c));
                assert((spec_join(parts.drop_last(), sep) + seq![sep] + parts.last()).push(c)
                    =~= s);
            }
        }
    }
}

/// The records, each followed by a terminating newline.
pub open spec fn spec_unlines(records: Seq<Seq<char>>) -> Seq<char>
    decreases records.len(),
{
    if records.len() == 0 {
        Seq::empty()
    } else {
        spec_unlines(records.drop_last()) + records.last() + seq!['\n']
    }
}

/// Splitting a newline-terminated assembly of newline-free records yields the
/// records, plus the empty field the final newline opens.
pub proof fn lemma_split_unlines(records: Seq<Seq<char>>)
    requires
        forall|i: int| 0 <= i < records.len() ==> !records[i].contains('\n'),
    ensures
        spec_split(spec_unlines(records), '\n') == records.push(Seq::<char>::empty()),
    decreases records.len(),
{
    if records.len() == 0 {
        assert(spec_split(spec_unlines(records), '\n') =~~= records.push(Seq::<char>::empty()));
    } else {
        let w = records.drop_last();
        let l = records.last();
        lemma_split_unlines(w);
        assert(forall|k: int| 0 <= k < l.len() ==> l[k] != '\n') by {
            assert(!l.contains('\n'));
        }
        lemma_split_no_sep(l, '\n');
        assert(spec_unlines(records) =~= spec_unlines(w) + (l + seq!['\n']));
        lemma_split_concat(spec_unlines(w), l + seq!['\n'], '\n');
        assert((l + seq!['\n']).drop_last() =~= l);
        assert(spec_split(l + seq!['\n'], '\n') == spec_split(l, '\n').push(Seq::<char>::empty()));
        let sw = spec_split(spec_unlines(w), '\n');
        assert(sw.last() + l =~= l) by {
            assert(sw == w.push(Seq::<char>::empty()));
        }
        assert(spec_split(spec_unlines(records), '\n') =~= records.push(Seq::<char>::empty()));
    }
}

/// The characters that trimming removes from either end of a field: the
/// Unicode white-space set, as `str::trim` removes it.
pub open spec fn is_blank(c: char) -> bool {
    c == '\u{0009}' || c == '\u{000A}' || c == '\u{000B}' || c == '\u{000C}' || c == '\u{000D}'
        || c == '\u{0020}' || c == '\u{0085}' || c == '\u{00A0}' || c == '\u{1680}' || c
        == '\u{2000}' || c == '\u{2001}' || c == '\u{2002}' || c == '\u{2003}' || c == '\u{2004}'
        || c == '\u{2005}' || c == '\u{2006}' || c == '\u{2007}' || c == '\u{2008}' || c
        == '\u{2009}' || c == '\u{200A}' || c == '\u{2028}' || c == '\u{2029}' || c == '\u{202F}'
        || c == '\u{205F}' || c == '\u{3000}'
}

fn blank(c: char) -> (b: bool)
    ensures
        b == is_blank(c),
{
    c == '\u{0009}' || c == '\u{000A}' || c == '\u{000B}' || c == '\u{000C}' || c == '\u{000D}'
        || c == '\u{0020}' || c == '\u{0085}' || c == '\u{00A0}' || c == '\u{1680}' || c
        == '\u{2000}' || c == '\u{2001}' || c == '\u{2002}' || c == '\u{2003}' || c == '\u{2004}'
        || c == '\u{2005}' || c == '\u{2006}' || c == '\u{2007}' || c == '\u{2008}' || c
        == '\u{2009}' || c == '\u{200A}' || c == '\u{2028}' || c == '\u{2029}' || c == '\u{202F}'
        || c == '\u{205F}' || c == '\u{3000}'
}

/// `s` without its leading blanks.
pub open spec fn spec_trim_start(s: Seq<char>) -> Seq<char>
    decreases s.len(),
{
    if s.len() > 0 && is_blank(s.first()) {
        spec_trim_start(s.drop_first())
    } else {
        s
    }
}

/// `s` without its trailing blanks.
pub open spec fn spec_trim_end(s: Seq<char>) -> Seq<char>
    decreases s.len(),
{
    if s.len() > 0 && is_blank(s.last()) {
        spec_trim_end(s.drop_last())
    } else {
        s
    }
}

/// `s` without leading and trailing blanks.
pub open spec fn spec_trim(s: Seq<char>) -> Seq<char> {
    spec_trim_end(spec_trim_start(s))
}

proof fn lemma_trim_start_skip(s: Seq<char>, i: int)
    requires
        0 <= i <= s.len(),
        forall|k: int| 0 <= k < i ==> is_blank(s[k]),
        i < s.len() ==> !is_blank(s[i]),
    ensures
        spec_trim_start(s) == s.skip(i),
    decreases i,
{
    if i == 0 {
        assert(s.skip(0) =~= s);
    } else {
        lemma_trim_start_skip(s.drop_first(), i - 1);
        assert(s.drop_first().skip(i - 1) =~= s.skip(i));
    }
}

proof fn lemma_trim_end_take(s: Seq<char>, j: int)
    requires
        0 <= j <= s.len(),
        forall|k: int| j <= k < s.len() ==> is_blank(s[k]),
        j > 0 ==> !is_blank(s[j - 1]),
    ensures
        spec_trim_end(s) == s.take(j),
    decreases s.len() - j,
{
    if j == s.len() {
        assert(s.take(j) =~= s);
    } else {
        lemma_trim_end_take(s.drop_last(), j);
        assert(s.drop_last().take(j) =~= s.take(j));
    }
}

/// `v` without leading and trailing blanks.
pub fn trim_chars(v: &Vec<char>) -> (r: Vec<char>)
    ensures
        r@ == spec_trim(v@),
{
    let n = v.len();
    let mut lo: usize = 0;
    while lo < n && blank(v[lo])
        invariant
            lo <= n,
            n == v.len(),
            forall|k: int| 0 <= k < lo ==> is_blank(v@[k]),
        decreases n - lo,
    {
        lo = lo + 1;
    }
    proof {
        lemma_trim_start_skip(v@, lo as int);
    }
    let mut hi: usize = n;
    while hi > lo && blank(v[hi - 1])
        invariant
            lo <= hi <= n,
            n == v.len(),
            forall|k: int| hi <= k < n ==> is_blank(v@[k]),
        decreases hi,
    {
        hi = hi - 1;
    }
    proof {
        lemma_trim_end_take(v@.skip(lo as int), hi - lo as int);
        assert(v@.skip(lo as int).take(hi - lo as int) =~= v@.subrange(lo as int, hi as int));
    }
    copy_range(v, lo, hi)
}

/// A field in its display form: trimmed, with every remaining tab expanded
/// to a run of four spaces.
pub open spec fn spec_clean(s: Seq<char>) -> Seq<char> {
    spec_expand_tabs(spec_trim(s))
}

/// `s` with every tab replaced by a run of four spaces.
pub open spec fn spec_expand_tabs(s: Seq<char>) -> Seq<char>
    decreases s.len(),
{
    if s.len() == 0 {
        Seq::empty()
    } else {
        spec_expand_tabs(s.drop_last()) + (if s.last() == '\t' {
            seq![' ', ' ', ' ', ' ']
        } else {
            seq![s.last()]
        })
    }
}

/// Tab expansion leaves no tab behind.
pub proof fn lemma_expand_tabs_no_tab(s: Seq<char>)
    ensures
        forall|i: int|
            0 <= i < spec_expand_tabs(s).len() ==> spec_expand_tabs(s)[i] != '\t',
    decreases s.len(),
{
    if s.len() > 0 {
        lemma_expand_tabs_no_tab(s.drop_last());
        let p = spec_expand_tabs(s.drop_last());
        let t = if s.last() == '\t' {
            seq![' ', ' ', ' ', ' ']
        } else {
            seq![s.last()]
        };
        assert(spec_expand_tabs(s) == p + t);
        assert forall|i: int| 0 <= i < spec_expand_tabs(s).len() implies spec_expand_tabs(s)[i]
            != '\t' by {
            if i < p.len() {
                assert(spec_expand_tabs(s)[i] == p[i]);
            } else {
                assert(spec_expand_tabs(s)[i] == t[i - p.len()]);
            }
        }
    }
}

/// `v` with every tab replaced by a run of four spaces.
pub fn expand_tabs(v: &Vec<char>) -> (r: Vec<char>)
    ensures
        r@ == spec_expand_tabs(v@),
{
    let mut r: Vec<char> = Vec::new();
    let mut i: usize = 0;
    while i < v.len()
        invariant
            i <= v.len(),
            r@ == spec_expand_tabs(v@.take(i as int)),
        decreases v.len() - i,
    {
        proof {
            assert(v@.take(i + 1 as int).drop_last() =~= v@.take(i as int));
            assert(v@.take(i + 1 as int).last() == v@[i as int]);
        }
        let ghost prev = r@;
        if v[i] == '\t' {
            r.push(' ');
            r.push(' ');
            r.push(' ');
            r.push(' ');
            proof {
                assert(r@ =~= prev + seq![' ', ' ', ' ', ' ']);
            }
        } else {
            r.push(v[i]);
            proof {
                assert(r@ =~= prev + seq![v@[i as int]]);
            }
        }
        i = i + 1;
    }
    proof {
        assert(v@.take(v.len() as int) =~= v@);
    }
    r
}

/// The fields of `parts`, joined with `sep` between neighbours.
pub open spec fn spec_join(parts: Seq<Seq<char>>, sep: char) -> Seq<char>
    decreases parts.len(),
{
    if parts.len() == 0 {
        Seq::empty()
    } else if parts.len() == 1 {
        parts[0]
    } else {
        spec_join(parts.drop_last(), sep) + seq![sep] + parts.last()
    }
}

/// Appends all of `v` to `r`.
pub fn push_all(r: &mut Vec<char>, v: &Vec<char>)
    ensures
        final(r)@ == old(r)@ + v@,
{
    let mut j: usize = 0;
    while j < v.len()
        invariant
            j <= v.len(),
            r@ == old(r)@ + v@.take(j as int),
        decreases v.len() - j,
    {
        r.push(v[j]);
        proof {
            assert(old(r)@ + v@.take(j + 1 as int) =~= (old(r)@ + v@.take(j as int)).push(
                v@[j as int],
            ));
        }
        j = j + 1;
    }
    proof {
        assert(v@.take(v.len() as int) =~= v@);
    }
}

/// The fields of `fields` from index `from` on, joined with `sep`.
pub fn join_from(fields: &Vec<Vec<char>>, from: usize, sep: char) -> (r: Vec<char>)
    requires
        from <= fields.len(),
    ensures
        r@ == spec_join(fields.deep_view().skip(from as int), sep),
{
    let mut r: Vec<char> = Vec::new();
    let mut i: usize = from;
    while i < fields.len()
        invariant
            from <= i <= fields.len(),
            r@ == spec_join(fields.deep_view().subrange(from as int, i as int), sep),
        decreases fields.len() - i,
    {
        let ghost pre = fields.deep_view().subrange(from as int, i as int);
        let ghost post = fields.deep_view().subrange(from as int, i + 1 as int);
        proof {
            assert(post.drop_last() =~= pre);
            assert(post.last() =~= fields@[i as int]@);
        }
        if i > from {
            r.push(sep);
            push_all(&mut r, &fields[i]);
            proof {
                assert(r@ =~= spec_join(pre, sep) + seq![sep] + fields@[i as int]@);
            }
        } else {
            push_all(&mut r, &fields[i]);
            proof {
                assert(r@ =~= fields@[i as int]@);
            }
        }
        i = i + 1;
    }
    proof {
        assert(fields.deep_view().subrange(from as int, fields.len() as int) =~= fields.deep_view()
            .skip(from as int));
    }
    r
}

/// The decimal digit for a value below ten.
pub open spec fn spec_digit(d: nat) -> char {
    if d == 0 {
        '0'
    } else if d == 1 {
        '1'
    } else if d == 2 {
        '2'
    } else if d == 3 {
        '3'
    } else if d == 4 {
        '4'
    } else if d == 5 {
        '5'
    } else if d == 6 {
        '6'
    } else if d == 7 {
        '7'
    } else if d == 8 {
        '8'
    } else {
        '9'
    }
}

/// The decimal rendering of `n`, most significant digit first, no leading zeros
/// (a lone zero for zero itself).
pub open spec fn spec_dec(n: nat) -> Seq<char>
    decreases n,
{
    if n < 10 {
        seq![spec_digit(n)]
    } else {
        spec_dec(n / 10).push(spec_digit(n % 10))
    }
}

fn digit_char(d: usize) -> (c: char)
    requires
        d < 10,
    ensures
        c == spec_digit(d as nat),
{
    if d == 0 {
        '0'
    } else if d == 1 {
        '1'
    } else if d == 2 {
        '2'
    } else if d == 3 {
        '3'
    } else if d == 4 {
        '4'
    } else if d == 5 {
        '5'
    } else if d == 6 {
        '6'
    } else if d == 7 {
        '7'
    } else if d == 8 {
        '8'
    } else {
        '9'
    }
}

fn push_dec_digits(n: usize, r: &mut Vec<char>)
    ensures
        final(r)@ == old(r)@ + spec_dec(n as nat),
    decreases n,
{
    if n >= 10 {
        push_dec_digits(n / 10, r);
    }
    r.push(digit_char(n % 10));
    proof {
        if n >= 10 {
            assert(spec_dec(n as nat) == spec_dec(n as nat / 10).push(spec_digit(n as nat % 10)));
            assert(r@ =~= old(r)@ + spec_dec(n as nat));
        } else {
            assert(spec_dec(n as nat) =~= seq![spec_digit(n as nat)]);
            assert(r@ =~= old(r)@ + spec_dec(n as nat));
        }
    }
}

/// The decimal rendering of `n` as a string.
pub fn dec_string(n: usize) -> (r: String)
    ensures
        r@ == spec_dec(n as nat),
{
    let mut v: Vec<char> = Vec::new();
    push_dec_digits(n, &mut v);
    from_chars(&v)
}

/// The lines of `text`: fields split at newlines, except that a final newline
/// terminates the last line rather than opening an empty one.
pub open spec fn spec_lines(text: Seq<char>) -> Seq<Seq<char>> {
    if text.len() == 0 {
        Seq::empty()
    } else if text.last() == '\n' {
        spec_split(text, '\n').drop_last()
    } else {
        spec_split(text, '\n')
    }
}

/// The lines of `v`, split at newlines.
pub fn split_lines(v: &Vec<char>) -> (r: Vec<Vec<char>>)
    ensures
        r.deep_view() == spec_lines(v@),
{
    if v.len() == 0 {
        let r: Vec<Vec<char>> = Vec::new();
        proof {
            assert(r.deep_view() =~= spec_lines(v@));
        }
        return r;
    }
    let mut parts = split_all(v, '\n');
    if v[v.len() - 1] == '\n' {
        let ghost pre = parts.deep_view();
        parts.pop();
        proof {
            assert(parts.deep_view() =~~= pre.drop_last());
        }
    }
    parts
}

} // verus!
