//! Scanning of text as character sequences: prefixes, searches, lines,
//! trimming and decimal numbers, with the meaning `str`'s methods give
//! them.

use vstd::prelude::*;

use crate::text::{join_with, lemma_join_push, push_char};

verus! {

/// Whether `p` occurs in `s` at position `i`.
pub open spec fn occurs_at(s: Seq<char>, p: Seq<char>, i: int) -> bool {
    0 <= i && i + p.len() <= s.len() && s.subrange(i, i + p.len()) == p
}

/// Whether `s` starts with `p`.
pub open spec fn has_prefix(s: Seq<char>, p: Seq<char>) -> bool {
    occurs_at(s, p, 0)
}

/// First occurrence of `p` in `s` at or after `k`.
pub open spec fn find_from(s: Seq<char>, p: Seq<char>, k: int) -> Option<int>
    decreases s.len() + 1 - k,
{
    if k < 0 || k + p.len() > s.len() {
        None
    } else if occurs_at(s, p, k) {
        Some(k)
    } else {
        find_from(s, p, k + 1)
    }
}

/// First occurrence of `p` in `s`.
pub open spec fn find(s: Seq<char>, p: Seq<char>) -> Option<int> {
    find_from(s, p, 0)
}

/// Last occurrence of `p` in `s` at or before `k`.
pub open spec fn rfind_upto(s: Seq<char>, p: Seq<char>, k: int) -> Option<int>
    decreases k + 1,
{
    if k < 0 {
        None
    } else if occurs_at(s, p, k) {
        Some(k)
    } else {
        rfind_upto(s, p, k - 1)
    }
}

/// Last occurrence of `p` in `s`.
pub open spec fn rfind(s: Seq<char>, p: Seq<char>) -> Option<int> {
    rfind_upto(s, p, s.len() - p.len())
}

/// Whether `p` occurs in `s`.
pub open spec fn contains(s: Seq<char>, p: Seq<char>) -> bool {
    find(s, p) is Some
}

/// A found position is an occurrence at or after the start.
pub proof fn lemma_find_from_bounds(s: Seq<char>, p: Seq<char>, k: int)
    ensures
        find_from(s, p, k) matches Some(i) ==> k <= i && occurs_at(s, p, i),
    decreases s.len() + 1 - k,
{
    if !(k < 0 || k + p.len() > s.len()) && !occurs_at(s, p, k) {
        lemma_find_from_bounds(s, p, k + 1);
    }
}

/// A found last position is an occurrence at or before the bound.
pub proof fn lemma_rfind_upto_bounds(s: Seq<char>, p: Seq<char>, k: int)
    ensures
        rfind_upto(s, p, k) matches Some(i) ==> i <= k && occurs_at(s, p, i),
    decreases k + 1,
{
    if k >= 0 && !occurs_at(s, p, k) {
        lemma_rfind_upto_bounds(s, p, k - 1);
    }
}

/// Whether `p` occurs in `v` at position `i`.
pub fn occurs(v: &[char], p: &[char], i: usize) -> (b: bool)
    ensures
        b == occurs_at(v@, p@, i as int),
{
    let n = v.len();
    let m = p.len();
    if m > n || i > n - m {
        return false;
    }
    let mut k: usize = 0;
    while k < m
        invariant
            n == v@.len(),
            m == p@.len(),
            i + m <= n,
            k <= m,
            v@.subrange(i as int, i + k) == p@.take(k as int),
        decreases m - k,
    {
        if v[i + k] != p[k] {
            assert(v@.subrange(i as int, i + m)[k as int] != p@[k as int]);
            return false;
        }
        assert(v@.subrange(i as int, i + k + 1) =~= v@.subrange(i as int, i + k).push(v@[i + k]));
        assert(p@.take(k + 1) =~= p@.take(k as int).push(p@[k as int]));
        k = k + 1;
    }
    assert(p@.take(m as int) =~= p@);
    true
}

/// Whether `v` starts with `p`.
pub fn starts_with(v: &[char], p: &[char]) -> (b: bool)
    ensures
        b == has_prefix(v@, p@),
{
    occurs(v, p, 0)
}

/// First occurrence of `p` in `v` (see `find`).
pub fn find_in(v: &[char], p: &[char]) -> (r: Option<usize>)
    ensures
        r matches Some(i) ==> find(v@, p@) == Some(i as int),
        r is None ==> find(v@, p@) is None,
{
    if p.len() > v.len() {
        return None;
    }
    let last = v.len() - p.len();
    let mut k: usize = 0;
    while k <= last
        invariant
            last == v@.len() - p@.len(),
            k <= last + 1,
            find_from(v@, p@, k as int) == find(v@, p@),
        decreases last + 1 - k,
    {
        if occurs(v, p, k) {
            return Some(k);
        }
        if k == last {
            assert(find_from(v@, p@, k + 1) is None);
            return None;
        }
        k = k + 1;
    }
    None
}

/// Last occurrence of `p` in `v` (see `rfind`).
pub fn rfind_in(v: &[char], p: &[char]) -> (r: Option<usize>)
    ensures
        r matches Some(i) ==> rfind(v@, p@) == Some(i as int),
        r is None ==> rfind(v@, p@) is None,
{
    if p.len() > v.len() {
        return None;
    }
    let mut k: usize = v.len() - p.len();
    loop
        invariant
            k <= v@.len() - p@.len(),
            rfind_upto(v@, p@, k as int) == rfind(v@, p@),
        decreases k,
    {
        if occurs(v, p, k) {
            return Some(k);
        }
        if k == 0 {
            assert(rfind_upto(v@, p@, -1) is None);
            return None;
        }
        k = k - 1;
    }
}

/// Whether `p` occurs in `v`.
pub fn contains_in(v: &[char], p: &[char]) -> (b: bool)
    ensures
        b == contains(v@, p@),
{
    find_in(v, p).is_some()
}

/// The characters `str::trim` and its relatives remove: Unicode white
/// space.
pub open spec fn is_space(c: char) -> bool {
    c == ' ' || ('\t' <= c <= '\r') || c == '\u{85}' || c == '\u{a0}' || c == '\u{1680}'
        || ('\u{2000}' <= c <= '\u{200a}') || c == '\u{2028}' || c == '\u{2029}' || c == '\u{202f}'
        || c == '\u{205f}' || c == '\u{3000}'
}

fn space(c: char) -> (b: bool)
    ensures
        b == is_space(c),
{
    c == ' ' || ('\t' <= c && c <= '\r') || c == '\u{85}' || c == '\u{a0}' || c == '\u{1680}'
        || ('\u{2000}' <= c && c <= '\u{200a}') || c == '\u{2028}' || c == '\u{2029}' || c == '\u{202f}'
        || c == '\u{205f}' || c == '\u{3000}'
}

/// Number of leading white-space characters of `s` from `k` on.
pub open spec fn lead_from(s: Seq<char>, k: int) -> int
    decreases s.len() - k,
{
    if k < 0 || k >= s.len() || !is_space(s[k]) { k } else { lead_from(s, k + 1) }
}

/// End of `s` without trailing white space, scanning down from `k`.
pub open spec fn trail_upto(s: Seq<char>, k: int) -> int
    decreases k,
{
    if k <= 0 || !is_space(s[k - 1]) { k } else { trail_upto(s, k - 1) }
}

/// `s` without leading white space.
pub open spec fn trim_start(s: Seq<char>) -> Seq<char> {
    s.skip(lead_from(s, 0))
}

/// `s` without trailing white space.
pub open spec fn trim_end(s: Seq<char>) -> Seq<char> {
    s.take(trail_upto(s, s.len() as int))
}

/// `s` without leading or trailing white space.
pub open spec fn trim(s: Seq<char>) -> Seq<char> {
    trim_end(trim_start(s))
}

proof fn lemma_lead_from(s: Seq<char>, k: int)
    requires
        0 <= k <= s.len(),
    ensures
        k <= lead_from(s, k) <= s.len(),
    decreases s.len() - k,
{
    if k < s.len() && is_space(s[k]) {
        lemma_lead_from(s, k + 1);
    }
}

proof fn lemma_trail_upto(s: Seq<char>, k: int)
    requires
        0 <= k <= s.len(),
    ensures
        0 <= trail_upto(s, k) <= k,
    decreases k,
{
    if k > 0 && is_space(s[k - 1]) {
        lemma_trail_upto(s, k - 1);
    }
}

/// Trimming never lengthens.
pub proof fn lemma_trim_len(s: Seq<char>)
    ensures
        trim(s).len() <= s.len(),
{
    lemma_lead_from(s, 0);
    let t = trim_start(s);
    lemma_trail_upto(t, t.len() as int);
}

/// `v` without leading white space.
pub fn trim_start_of(v: &[char]) -> (r: Vec<char>)
    ensures
        r@ == trim_start(v@),
{
    let mut k: usize = 0;
    while k < v.len() && space(v[k])
        invariant
            k <= v@.len(),
            lead_from(v@, k as int) == lead_from(v@, 0),
        decreases v@.len() - k,
    {
        k = k + 1;
    }
    let r = slice_of(v, k, v.len());
    assert(r@ =~= trim_start(v@));
    r
}

/// `v` without trailing white space.
pub fn trim_end_of(v: &[char]) -> (r: Vec<char>)
    ensures
        r@ == trim_end(v@),
{
    let mut k: usize = v.len();
    while k > 0 && space(v[k - 1])
        invariant
            k <= v@.len(),
            trail_upto(v@, k as int) == trail_upto(v@, v@.len() as int),
        decreases k,
    {
        k = k - 1;
    }
    let r = slice_of(v, 0, k);
    assert(r@ =~= trim_end(v@));
    r
}

/// `v` without leading or trailing white space.
pub fn trim_of(v: &[char]) -> (r: Vec<char>)
    ensures
        r@ == trim(v@),
{
    let a = trim_start_of(v);
    trim_end_of(a.as_slice())
}

/// The characters of `v` from `a` to `b`.
pub fn slice_of(v: &[char], a: usize, b: usize) -> (r: Vec<char>)
    requires
        a <= b <= v@.len(),
    ensures
        r@ == v@.subrange(a as int, b as int),
{
    let mut r: Vec<char> = Vec::new();
    let mut k: usize = a;
    while k < b
        invariant
            a <= k <= b <= v@.len(),
            r@ == v@.subrange(a as int, k as int),
        decreases b - k,
    {
        r.push(v[k]);
        assert(v@.subrange(a as int, k + 1) =~= v@.subrange(a as int, k as int).push(v@[k as int]));
        k = k + 1;
    }
    r
}

/// `s` with every trailing `c` removed.
pub open spec fn trim_end_char(s: Seq<char>, c: char) -> Seq<char>
    decreases s.len(),
{
    if s.len() > 0 && s.last() == c { trim_end_char(s.drop_last(), c) } else { s }
}

/// `v` with every trailing `c` removed.
pub fn trim_end_char_of(v: &[char], c: char) -> (r: Vec<char>)
    ensures
        r@ == trim_end_char(v@, c),
{
    let mut k: usize = v.len();
    assert(v@.take(k as int) =~= v@);
    while k > 0 && v[k - 1] == c
        invariant
            k <= v@.len(),
            trim_end_char(v@.take(k as int), c) == trim_end_char(v@, c),
        decreases k,
    {
        assert(v@.take(k as int).drop_last() =~= v@.take(k - 1));
        k = k - 1;
    }
    let r = slice_of(v, 0, k);
    assert(r@ =~= v@.take(k as int));
    r
}

/// `s` without a single `\r` at its end.
pub open spec fn strip_cr(s: Seq<char>) -> Seq<char> {
    if s.len() > 0 && s.last() == '\r' { s.drop_last() } else { s }
}

/// The lines of a text as `str::lines` gives them: split at `\n`, with a
/// `\r` right before the `\n` dropped and no empty line after a final
/// `\n`.
pub open spec fn lines_of(s: Seq<char>) -> Seq<Seq<char>>
    decreases s.len(),
{
    if s.len() == 0 {
        Seq::empty()
    } else {
        match find(s, seq!['\n']) {
            Some(p) => {
                proof { lemma_find_from_bounds(s, seq!['\n'], 0); }
                seq![strip_cr(s.take(p))] + lines_of(s.skip(p + 1))
            },
            None => seq![s],
        }
    }
}

proof fn lemma_find_newline(s: Seq<char>, start: int, j: int)
    requires
        0 <= start <= j < s.len(),
        s[j] == '\n',
        forall|k: int| start <= k < j ==> s[k] != '\n',
    ensures
        find(s.skip(start), seq!['\n']) == Some(j - start),
{
    let r = s.skip(start);
    let nl = seq!['\n'];
    assert forall|k: int| 0 <= k < j - start implies !occurs_at(r, nl, k) by {
        assert(r.subrange(k, k + 1)[0] == s[start + k]);
    }
    assert(r.subrange(j - start, j - start + 1) =~= nl);
    lemma_find_scan(r, nl, 0, j - start);
}

proof fn lemma_find_scan(s: Seq<char>, p: Seq<char>, k: int, i: int)
    requires
        0 <= k <= i,
        occurs_at(s, p, i),
        forall|q: int| k <= q < i ==> !occurs_at(s, p, q),
    ensures
        find_from(s, p, k) == Some(i),
    decreases i - k,
{
    if k < i {
        lemma_find_scan(s, p, k + 1, i);
    }
}

proof fn lemma_no_newline(s: Seq<char>, start: int)
    requires
        0 <= start <= s.len(),
        forall|k: int| start <= k < s.len() ==> s[k] != '\n',
    ensures
        find(s.skip(start), seq!['\n']) is None,
{
    let r = s.skip(start);
    let nl = seq!['\n'];
    assert forall|k: int| 0 <= k < r.len() implies !occurs_at(r, nl, k) by {
        assert(r.subrange(k, k + 1)[0] == s[start + k]);
    }
    lemma_find_none(r, nl, 0);
}

proof fn lemma_find_none(s: Seq<char>, p: Seq<char>, k: int)
    requires
        0 <= k,
        forall|q: int| k <= q ==> !occurs_at(s, p, q),
    ensures
        find_from(s, p, k) is None,
    decreases s.len() + 1 - k,
{
    if k + p.len() <= s.len() {
        lemma_find_none(s, p, k + 1);
    }
}

/// The lines of `v` (see `lines_of`).
pub fn lines(v: &[char]) -> (r: Vec<Vec<char>>)
    ensures
        r@.map_values(|l: Vec<char>| l@) == lines_of(v@),
{
    let mut out: Vec<Vec<char>> = Vec::new();
    let mut start: usize = 0;
    let n = v.len();
    assert(v@.skip(0) =~= v@);
    while start < n
        invariant
            n == v@.len(),
            start <= n,
            out@.map_values(|l: Vec<char>| l@) + lines_of(v@.skip(start as int)) == lines_of(v@),
        decreases n - start,
    {
        let mut j: usize = start;
        while j < n && v[j] != '\n'
            invariant
                start <= j <= n == v@.len(),
                forall|k: int| start <= k < j ==> v@[k] != '\n',
            decreases n - j,
        {
            j = j + 1;
        }
        let ghost rest = v@.skip(start as int);
        let ghost before = out@;
        if j < n {
            proof { lemma_find_newline(v@, start as int, j as int); }
            let mut line = slice_of(v, start, j);
            if line.len() > 0 && line[line.len() - 1] == '\r' {
                line.pop();
            }
            proof {
                assert(rest.take(j - start) =~= v@.subrange(start as int, j as int));
                assert(rest.skip(j - start + 1) =~= v@.skip(j + 1));
                assert(line@ == strip_cr(rest.take(j - start)));
            }
            out.push(line);
            assert(out@.map_values(|l: Vec<char>| l@) =~= before.map_values(|l: Vec<char>| l@).push(line@));
            start = j + 1;
        } else {
            proof { lemma_no_newline(v@, start as int); }
            let line = slice_of(v, start, n);
            assert(line@ =~= rest);
            out.push(line);
            assert(out@.map_values(|l: Vec<char>| l@) =~= before.map_values(|l: Vec<char>| l@).push(line@));
            start = n;
            assert(v@.skip(n as int) =~= Seq::<char>::empty());
        }
    }
    assert(v@.skip(n as int) =~= Seq::<char>::empty());
    out
}

/// The parts joined with `sep` (see `join_with`).
pub fn join_of(parts: &Vec<Vec<char>>, sep: &[char]) -> (r: Vec<char>)
    ensures
        r@ == join_with(parts@.map_values(|l: Vec<char>| l@), sep@),
{
    let ghost all = parts@.map_values(|l: Vec<char>| l@);
    let mut r: Vec<char> = Vec::new();
    let mut i: usize = 0;
    while i < parts.len()
        invariant
            i <= parts@.len(),
            all == parts@.map_values(|l: Vec<char>| l@),
            r@ == join_with(all.take(i as int), sep@),
        decreases parts@.len() - i,
    {
        let ghost before = r@;
        if i > 0 {
            append(&mut r, sep);
        }
        append(&mut r, parts[i].as_slice());
        proof {
            assert(all.take(i + 1) =~= all.take(i as int).push(all[i as int]));
            lemma_join_push(all.take(i as int), sep@, all[i as int]);
        }
        i = i + 1;
    }
    assert(all.take(all.len() as int) =~= all);
    r
}

/// Appends the characters of `w` to `r`.
pub fn append(r: &mut Vec<char>, w: &[char])
    ensures
        final(r)@ == old(r)@ + w@,
{
    let mut k: usize = 0;
    while k < w.len()
        invariant
            k <= w@.len(),
            r@ == old(r)@ + w@.take(k as int),
        decreases w@.len() - k,
    {
        r.push(w[k]);
        assert(w@.take(k + 1) =~= w@.take(k as int).push(w@[k as int]));
        k = k + 1;
    }
    assert(w@.take(w@.len() as int) =~= w@);
}

/// A string of the characters of `v`.
pub fn string_of(v: &[char]) -> (s: String)
    ensures
        s@ == v@,
{
    let mut s = String::new();
    let mut k: usize = 0;
    while k < v.len()
        invariant
            k <= v@.len(),
            s@ == v@.take(k as int),
        decreases v@.len() - k,
    {
        push_char(&mut s, v[k]);
        assert(v@.take(k + 1) =~= v@.take(k as int).push(v@[k as int]));
        k = k + 1;
    }
    assert(v@.take(v@.len() as int) =~= v@);
    s
}

/// Value of a decimal digit character.
pub open spec fn digit_value(c: char) -> int {
    c as int - '0' as int
}

/// Whether `c` is an ASCII digit.
pub open spec fn is_digit(c: char) -> bool {
    '0' <= c <= '9'
}

/// Whether every character of `d` is a decimal digit.
pub open spec fn all_digits(d: Seq<char>) -> bool {
    forall|i: int| 0 <= i < d.len() ==> is_digit(#[trigger] d[i])
}

/// Value of a string of decimal digits.
pub open spec fn digits_value(s: Seq<char>) -> nat
    decreases s.len(),
{
    if s.len() == 0 { 0 } else { (digits_value(s.drop_last()) * 10 + digit_value(s.last())) as nat }
}

/// The number `usize`'s `parse` reads from `s`: an optional `+` then one
/// or more decimal digits, with a value that fits.
pub open spec fn parse_usize(s: Seq<char>) -> Option<usize> {
    let d = if s.len() > 0 && s[0] == '+' { s.drop_first() } else { s };
    if d.len() > 0 && all_digits(d) && digits_value(d) <= usize::MAX {
        Some(digits_value(d) as usize)
    } else {
        None
    }
}

proof fn lemma_digits_value_mono(s: Seq<char>, k: int)
    requires
        0 <= k <= s.len(),
        forall|i: int| 0 <= i < s.len() ==> is_digit(#[trigger] s[i]),
    ensures
        digits_value(s.take(k)) <= digits_value(s),
    decreases s.len() - k,
{
    if k < s.len() {
        lemma_digits_value_mono(s, k + 1);
        assert(s.take(k + 1).drop_last() =~= s.take(k));
    } else {
        assert(s.take(k) =~= s);
    }
}

/// Parse a decimal `usize` (see `parse_usize`).
pub fn parse_usize_of(v: &[char]) -> (r: Option<usize>)
    ensures
        r == parse_usize(v@),
{
    let start: usize = if v.len() > 0 && v[0] == '+' { 1 } else { 0 };
    let ghost d = if v@.len() > 0 && v@[0] == '+' { v@.drop_first() } else { v@ };
    assert(d =~= v@.skip(start as int));
    if start >= v.len() {
        assert(d.len() == 0);
        return None;
    }
    let mut acc: usize = 0;
    let mut k: usize = start;
    while k < v.len()
        invariant
            start <= k <= v@.len(),
            start < v@.len(),
            d == v@.skip(start as int),
            d == (if v@.len() > 0 && v@[0] == '+' { v@.drop_first() } else { v@ }),
            forall|i: int| start <= i < k ==> is_digit(#[trigger] v@[i]),
            acc == digits_value(v@.subrange(start as int, k as int)),
        decreases v@.len() - k,
    {
        let c = v[k];
        if !('0' <= c && c <= '9') {
            assert(d[k - start] == v@[k as int]);
            assert(!is_digit(d[k - start]));
            assert(!all_digits(d));
            assert(d == (if v@.len() > 0 && v@[0] == '+' { v@.drop_first() } else { v@ }));
            assert(parse_usize(v@) is None);
            return None;
        }
        assert(v@.subrange(start as int, k + 1).drop_last() =~= v@.subrange(start as int, k as int));
        let dv = (c as u32 - '0' as u32) as usize;
        if acc > (usize::MAX - dv) / 10 {
            proof {
                assert(digits_value(v@.subrange(start as int, k + 1)) == acc * 10 + dv);
                assert(acc * 10 + dv > usize::MAX) by (nonlinear_arith)
                    requires acc > (usize::MAX - dv) / 10, dv <= 9;
                if all_digits(d) {
                    lemma_digits_value_mono(d, k + 1 - start);
                    assert(d.take(k + 1 - start) =~= v@.subrange(start as int, k + 1));
                    assert(digits_value(d) > usize::MAX);
                }
                assert(d == (if v@.len() > 0 && v@[0] == '+' { v@.drop_first() } else { v@ }));
                assert(parse_usize(v@) is None);
            }
            return None;
        }
        acc = acc * 10 + dv;
        k = k + 1;
    }
    assert(v@.subrange(start as int, v@.len() as int) =~= d);
    Some(acc)
}

/// The number `i64`'s `parse` reads from `s`: an optional `+` or `-`, then
/// one or more decimal digits, with a value that fits.
pub open spec fn parse_i64(s: Seq<char>) -> Option<i64> {
    let neg = s.len() > 0 && s[0] == '-';
    let d = if s.len() > 0 && (s[0] == '+' || s[0] == '-') { s.drop_first() } else { s };
    let v: int = if neg { -(digits_value(d) as int) } else { digits_value(d) as int };
    if d.len() > 0 && all_digits(d) && i64::MIN <= v <= i64::MAX {
        Some(v as i64)
    } else {
        None
    }
}

/// Parse a decimal `i64` (see `parse_i64`).
pub fn parse_i64_of(v: &[char]) -> (r: Option<i64>)
    ensures
        r == parse_i64(v@),
{
    let neg = v.len() > 0 && v[0] == '-';
    let start: usize = if v.len() > 0 && (v[0] == '+' || v[0] == '-') { 1 } else { 0 };
    let ghost d = if v@.len() > 0 && (v@[0] == '+' || v@[0] == '-') { v@.drop_first() } else { v@ };
    assert(d =~= v@.skip(start as int));
    if start >= v.len() {
        assert(d.len() == 0);
        return None;
    }
    let limit: u64 = if neg { 0x8000_0000_0000_0000 } else { 0x7fff_ffff_ffff_ffff };
    let mut acc: u64 = 0;
    let mut k: usize = start;
    while k < v.len()
        invariant
            start <= k <= v@.len(),
            start < v@.len(),
            d == v@.skip(start as int),
            d == (if v@.len() > 0 && (v@[0] == '+' || v@[0] == '-') { v@.drop_first() } else { v@ }),
            neg == (v@.len() > 0 && v@[0] == '-'),
            limit == (if neg { 0x8000_0000_0000_0000u64 } else { 0x7fff_ffff_ffff_ffffu64 }),
            forall|i: int| start <= i < k ==> is_digit(#[trigger] v@[i]),
            acc == digits_value(v@.subrange(start as int, k as int)),
            acc <= limit,
        decreases v@.len() - k,
    {
        let c = v[k];
        if !('0' <= c && c <= '9') {
            assert(d[k - start] == v@[k as int]);
            assert(!all_digits(d));
            return None;
        }
        assert(v@.subrange(start as int, k + 1).drop_last() =~= v@.subrange(start as int, k as int));
        let dv = (c as u32 - '0' as u32) as u64;
        if acc > (limit - dv) / 10 {
            proof {
                assert(digits_value(v@.subrange(start as int, k + 1)) == acc * 10 + dv);
                assert(acc * 10 + dv > limit) by (nonlinear_arith)
                    requires acc > (limit - dv) / 10, dv <= 9, limit >= 9;
                if all_digits(d) {
                    lemma_digits_value_mono(d, k + 1 - start);
                    assert(d.take(k + 1 - start) =~= v@.subrange(start as int, k + 1));
                    assert(digits_value(d) > limit);
                }
            }
            return None;
        }
        acc = acc * 10 + dv;
        k = k + 1;
    }
    assert(v@.subrange(start as int, v@.len() as int) =~= d);
    if neg {
        if acc == 0x8000_0000_0000_0000 {
            Some(i64::MIN)
        } else {
            Some(-(acc as i64))
        }
    } else {
        Some(acc as i64)
    }
}

/// Whether `s` ends with `p`.
pub open spec fn has_suffix(s: Seq<char>, p: Seq<char>) -> bool {
    s.len() >= p.len() && occurs_at(s, p, s.len() - p.len())
}

/// Whether `v` ends with `p`.
pub fn ends_with(v: &[char], p: &[char]) -> (b: bool)
    ensures
        b == has_suffix(v@, p@),
{
    if p.len() > v.len() {
        return false;
    }
    occurs(v, p, v.len() - p.len())
}

/// Whether two character sequences are equal.
pub fn eq_chars(a: &[char], b: &[char]) -> (r: bool)
    ensures
        r == (a@ == b@),
{
    if a.len() != b.len() {
        return false;
    }
    let mut k: usize = 0;
    while k < a.len()
        invariant
            a@.len() == b@.len(),
            k <= a@.len(),
            forall|j: int| 0 <= j < k ==> a@[j] == b@[j],
        decreases a@.len() - k,
    {
        if a[k] != b[k] {
            return false;
        }
        k = k + 1;
    }
    assert(a@ =~= b@);
    true
}

} // verus!
