//! What the report of a failed verification shows: the spec and C source
//! lines it marks, with their messages, and the notes under it. ariadne
//! draws the report.

use vstd::prelude::*;

use ariadne::{sources, Label, Report, ReportKind};

use crate::text::{chars_of, dec_nat, join_with, push_dec_u64, push_str};
use crate::verify::diagnostic::{
    char_len, char_utf8_len, group_by_disjunct, grouped, is_trivially_true, lemma_lines_bytes_mono,
    lemma_utf8_len_mono, line_offset, lines_bytes, line_to_byte_offset, trivially_true, utf8_len, ConjView, ConjunctInfo, Diagnostic,
    FailedStage,
};
use crate::verify::scan::{join_of, lines, lines_of, slice_of, string_of, trim, trim_of};

verus! {

/// The character position of `s` at which byte offset `off` falls,
/// looking from position `j` on: the position whose prefix takes exactly
/// `off` bytes; `None` where `off` falls inside a character or past the
/// end.
pub open spec fn char_at_byte(s: Seq<char>, off: nat, j: nat) -> Option<nat>
    decreases s.len() - j,
{
    if j > s.len() {
        None
    } else if utf8_len(s.take(j as int)) == off {
        Some(j)
    } else if j == s.len() || utf8_len(s.take(j as int)) > off {
        None
    } else {
        char_at_byte(s, off, j + 1)
    }
}

/// The range a report marks for 1-based line `line` of `s`: from the byte
/// offset `line_offset` gives the line to the end of the line that starts
/// there, with that line's text; `None` where the offset falls inside a
/// character or past the end, where the text cannot be cut there.
pub open spec fn line_range(s: Seq<char>, line: usize) -> Option<(nat, nat, Seq<char>)> {
    let off = line_offset(s, line);
    match char_at_byte(s, off, 0) {
        Some(j) => {
            let ls = lines_of(s.skip(j as int));
            let t = if ls.len() > 0 { ls[0] } else { Seq::<char>::empty() };
            Some((off, off + utf8_len(t), t))
        },
        None => None,
    }
}

/// Whether line `line` of `s` can be marked: its range exists and its
/// end fits a `usize`.
pub open spec fn line_markable(s: Seq<char>, line: usize) -> bool {
    line_range(s, line) matches Some((a, b, t)) && b <= usize::MAX
}

proof fn lemma_char_at_bound(s: Seq<char>, off: nat, k: nat)
    ensures
        char_at_byte(s, off, k) matches Some(j) ==> k <= j <= s.len(),
    decreases s.len() - k,
{
    if k < s.len() && utf8_len(s.take(k as int)) < off {
        lemma_char_at_bound(s, off, k + 1);
    }
}

proof fn lemma_utf8_len_step(s: Seq<char>, j: int)
    requires
        0 <= j < s.len(),
    ensures
        utf8_len(s.take(j + 1)) == utf8_len(s.take(j)) + char_utf8_len(s[j]),
{
    assert(s.take(j + 1).drop_last() =~= s.take(j));
}

/// The character position at which byte offset `off` falls in `cs` (see
/// `char_at_byte`).
fn char_at(cs: &[char], off: usize) -> (r: Option<usize>)
    ensures
        match r {
            Some(j) => char_at_byte(cs@, off as nat, 0) == Some(j as nat),
            None => char_at_byte(cs@, off as nat, 0) is None,
        },
{
    let mut j: usize = 0;
    let mut b: usize = 0;
    assert(cs@.take(0) =~= Seq::<char>::empty());
    while j < cs.len()
        invariant
            j <= cs@.len(),
            b <= off,
            b == utf8_len(cs@.take(j as int)),
            char_at_byte(cs@, off as nat, 0) == char_at_byte(cs@, off as nat, j as nat),
        decreases cs@.len() - j,
    {
        if b == off {
            return Some(j);
        }
        let c = char_len(cs[j]);
        proof {
            lemma_utf8_len_step(cs@, j as int);
        }
        if c > off - b {
            proof {
                assert(char_at_byte(cs@, off as nat, (j + 1) as nat) is None) by {
                    if j + 1 < cs@.len() {
                        assert(utf8_len(cs@.take(j + 1)) > off);
                    }
                }
            }
            return None;
        }
        b = b + c;
        j = j + 1;
    }
    if b == off {
        Some(j)
    } else {
        None
    }
}

/// The range a report marks for line `line` of `s` (see `line_range`),
/// where `cs` holds the characters of `s`.
pub fn mark_line(s: &str, cs: &[char], line: usize) -> (r: (usize, usize, Vec<char>))
    requires
        cs@ == s@,
        line_markable(s@, line),
    ensures
        line_range(s@, line) == Some((r.0 as nat, r.1 as nat, r.2@)),
{
    assert(line_offset(s@, line) <= usize::MAX) by {
        let off = line_offset(s@, line);
        assert(char_at_byte(s@, off, 0) is Some);
    }
    let off = line_to_byte_offset(s, line);
    let j = match char_at(cs, off) {
        Some(j) => j,
        None => {
            assert(false);
            0
        },
    };
    proof {
        lemma_char_at_bound(s@, off as nat, 0);
    }
    let rest = slice_of(cs, j, cs.len());
    assert(rest@ =~= s@.skip(j as int));
    let ls = lines(rest.as_slice());
    assert(ls@.map_values(|l: Vec<char>| l@) == lines_of(rest@));
    let t = if ls.len() > 0 {
        assert(ls@[0]@ == lines_of(rest@)[0]);
        slice_of(ls[0].as_slice(), 0, ls[0].len())
    } else {
        Vec::new()
    };
    assert(t@ =~= (if lines_of(rest@).len() > 0 { lines_of(rest@)[0] } else { Seq::<char>::empty() }));
    let mut w: usize = 0;
    let mut k: usize = 0;
    assert(t@.take(0) =~= Seq::<char>::empty());
    while k < t.len()
        invariant
            k <= t@.len(),
            w == utf8_len(t@.take(k as int)),
            off + utf8_len(t@) <= usize::MAX,
        decreases t@.len() - k,
    {
        proof {
            lemma_utf8_len_step(t@, k as int);
            lemma_utf8_len_mono(t@, k + 1);
        }
        w = w + char_len(t[k]);
        k = k + 1;
    }
    assert(t@.take(k as int) =~= t@);
    (off, off + w, t)
}

/// The bytes of `t`, or `None` where they pass `usize::MAX - base`.
fn utf8_len_within(t: &[char], base: usize) -> (r: Option<usize>)
    ensures
        match r {
            Some(w) => w == utf8_len(t@) && base + w <= usize::MAX,
            None => base + utf8_len(t@) > usize::MAX,
        },
{
    let mut w: usize = 0;
    let mut k: usize = 0;
    assert(t@.take(0) =~= Seq::<char>::empty());
    while k < t.len()
        invariant
            k <= t@.len(),
            w == utf8_len(t@.take(k as int)),
            base + w <= usize::MAX,
        decreases t@.len() - k,
    {
        proof {
            lemma_utf8_len_step(t@, k as int);
            lemma_utf8_len_mono(t@, k + 1);
        }
        let c = char_len(t[k]);
        if c > usize::MAX - base - w {
            return None;
        }
        w = w + c;
        k = k + 1;
    }
    assert(t@.take(k as int) =~= t@);
    Some(w)
}

/// Whether line `line` of the text `cs` can be marked (see
/// `line_markable`).
pub fn is_markable(cs: &[char], line: usize) -> (b: bool)
    ensures
        b == line_markable(cs@, line),
{
    let ls = lines(cs);
    let ghost lv = ls@.map_values(|l: Vec<char>| l@);
    assert(lv == lines_of(cs@));
    let k = if line == 0 { 0 } else { line - 1 };
    let n = if k <= ls.len() { k } else { ls.len() };
    let mut off: usize = 0;
    let mut i: usize = 0;
    assert(lv.take(0) =~= Seq::<Seq<char>>::empty());
    assert(line_offset(cs@, line) == lines_bytes(lv.take(n as int)));
    while i < n
        invariant
            n <= ls@.len(),
            lv == ls@.map_values(|l: Vec<char>| l@),
            line_offset(cs@, line) == lines_bytes(lv.take(n as int)),
            i <= n,
            off == lines_bytes(lv.take(i as int)),
        decreases n - i,
    {
        proof {
            assert(lv.take(i + 1).drop_last() =~= lv.take(i as int));
            assert(lv[i as int] == ls@[i as int]@);
        }
        match utf8_len_within(ls[i].as_slice(), off) {
            Some(w) => {
                if w == usize::MAX - off {
                    proof {
                        lemma_lines_bytes_mono(lv, i + 1, n as int);
                        assert(lines_bytes(lv.take(i + 1)) == lines_bytes(lv.take(i as int)) + utf8_len(lv[i as int]) + 1);
                        assert(line_offset(cs@, line) == lines_bytes(lv.take(n as int)));
                    }
                    return false;
                }
                off = off + w + 1;
                i = i + 1;
            },
            None => {
                proof {
                    lemma_lines_bytes_mono(lv, i + 1, n as int);
                    assert(lines_bytes(lv.take(i + 1)) == lines_bytes(lv.take(i as int)) + utf8_len(lv[i as int]) + 1);
                    assert(line_offset(cs@, line) == lines_bytes(lv.take(n as int)));
                }
                return false;
            },
        }
    }
    assert(off == line_offset(cs@, line));
    let j = match char_at(cs, off) {
        Some(j) => j,
        None => {
            return false;
        },
    };
    proof {
        lemma_char_at_bound(cs@, off as nat, 0);
    }
    let rest = slice_of(cs, j, cs.len());
    assert(rest@ =~= cs@.skip(j as int));
    let rl = lines(rest.as_slice());
    assert(rl@.map_values(|l: Vec<char>| l@) == lines_of(rest@));
    let t = if rl.len() > 0 {
        assert(rl@[0]@ == lines_of(rest@)[0]);
        slice_of(rl[0].as_slice(), 0, rl[0].len())
    } else {
        Vec::new()
    };
    assert(t@ =~= (if lines_of(rest@).len() > 0 { lines_of(rest@)[0] } else { Seq::<char>::empty() }));
    utf8_len_within(t.as_slice(), off).is_some()
}

/// A marked range of a source, without a message.
pub struct ReportMark {
    pub source: String,
    pub start: usize,
    pub end: usize,
}

/// A marked range of a source, with its message.
pub struct ReportLabel {
    pub source: String,
    pub start: usize,
    pub end: usize,
    pub message: String,
}

/// What a report shows: the source its header points into, its message,
/// the ranges it marks (those without a message first), its notes, and
/// the spec and C sources by name.
pub struct ReportPlan {
    pub anchor: String,
    pub message: String,
    pub marks: Vec<ReportMark>,
    pub labels: Vec<ReportLabel>,
    pub notes: Vec<String>,
    pub spec_id: String,
    pub spec_src: String,
    pub c_id: String,
    pub c_src: String,
}

/// A mark by its source name, start and end.
pub open spec fn mark_view(m: ReportMark) -> (Seq<char>, nat, nat) {
    (m.source@, m.start as nat, m.end as nat)
}

/// A label by its source name, start, end and message.
pub open spec fn label_view(l: ReportLabel) -> (Seq<char>, nat, nat, Seq<char>) {
    (l.source@, l.start as nat, l.end as nat, l.message@)
}

/// A report plan with its texts as character sequences.
pub struct PlanView {
    pub anchor: Seq<char>,
    pub message: Seq<char>,
    pub marks: Seq<(Seq<char>, nat, nat)>,
    pub labels: Seq<(Seq<char>, nat, nat, Seq<char>)>,
    pub notes: Seq<Seq<char>>,
    pub spec_id: Seq<char>,
    pub spec_src: Seq<char>,
    pub c_id: Seq<char>,
    pub c_src: Seq<char>,
}

impl View for ReportPlan {
    type V = PlanView;

    open spec fn view(&self) -> PlanView {
        PlanView {
            anchor: self.anchor@,
            message: self.message@,
            marks: self.marks@.map_values(|m: ReportMark| mark_view(m)),
            labels: self.labels@.map_values(|l: ReportLabel| label_view(l)),
            notes: self.notes@.map_values(|n: String| n@),
            spec_id: self.spec_id@,
            spec_src: self.spec_src@,
            c_id: self.c_id@,
            c_src: self.c_src@,
        }
    }
}

/// An optional text, or `d` where there is none.
pub open spec fn text_or(o: Option<String>, d: Seq<char>) -> Seq<char> {
    match o {
        Some(s) => s@,
        None => d,
    }
}

/// The name the report gives the spec.
pub open spec fn spec_id_of(d: Diagnostic) -> Seq<char> {
    text_or(d.spec_file, "spec.fst"@)
}

/// The name the report gives the C source.
pub open spec fn c_id_of(d: Diagnostic) -> Seq<char> {
    text_or(d.c_source_file, "source.bpf.c"@)
}

/// The spec's text, empty where there is none.
pub open spec fn spec_src_of(d: Diagnostic) -> Seq<char> {
    text_or(d.spec_content, Seq::empty())
}

/// The C source's text, empty where there is none.
pub open spec fn c_src_of(d: Diagnostic) -> Seq<char> {
    text_or(d.c_source_content, Seq::empty())
}

/// Whether a line shows anything: it is not blank.
pub open spec fn shows(t: Seq<char>) -> bool {
    trim(t).len() > 0
}

/// Whether the report of `d` can be drawn: every line it marks can be
/// cut out of its source (elsewhere the slicing the report needs fails).
pub open spec fn report_drawable(d: Diagnostic) -> bool {
    let ss = spec_src_of(d);
    let cs = c_src_of(d);
    &&& ss.len() > 0 ==> match d.spec_error_line {
        Some(l) => line_markable(ss, l),
        None => match d.spec_postcondition {
            Some(p) => forall|l: usize| p.start_line <= l <= p.end_line ==> line_markable(ss, l),
            None => true,
        },
    }
    &&& cs.len() > 0 ==> match d.c_source_line {
        Some(l) => line_markable(cs, l as usize),
        None => true,
    }
}

/// The marks for lines `line` to `last` of a spec `src` named `id`: one
/// for each line that shows anything, in order.
pub open spec fn post_marks(id: Seq<char>, src: Seq<char>, line: int, last: int) -> Seq<(Seq<char>, nat, nat)>
    decreases last + 1 - line,
{
    if line > last || line < 0 || line > usize::MAX {
        Seq::empty()
    } else {
        let rest = post_marks(id, src, line + 1, last);
        match line_range(src, line as usize) {
            Some((a, b, t)) => if shows(t) { seq![(id, a, b)] + rest } else { rest },
            None => rest,
        }
    }
}

/// The marks of the report of `d`: where no spec line is blamed, the lines
/// of the postcondition that show anything.
pub open spec fn marks_of(d: Diagnostic) -> Seq<(Seq<char>, nat, nat)> {
    let ss = spec_src_of(d);
    if ss.len() > 0 && d.spec_error_line is None {
        match d.spec_postcondition {
            Some(p) => post_marks(spec_id_of(d), ss, p.start_line as int, p.end_line as int),
            None => Seq::empty(),
        }
    } else {
        Seq::empty()
    }
}

/// The label on the spec line that could not be proved, where it shows
/// anything.
pub open spec fn error_labels(d: Diagnostic) -> Seq<(Seq<char>, nat, nat, Seq<char>)> {
    let ss = spec_src_of(d);
    if ss.len() > 0 {
        match d.spec_error_line {
            Some(l) => match line_range(ss, l) {
                Some((a, b, t)) => if shows(t) {
                    seq![(spec_id_of(d), a, b, "this condition could not be proved"@)]
                } else {
                    Seq::empty()
                },
                None => Seq::empty(),
            },
            None => Seq::empty(),
        }
    } else {
        Seq::empty()
    }
}

/// The message on the C line that set r0.
pub open spec fn r0_here(d: Diagnostic) -> Seq<char> {
    match d.r0_origin {
        Some(o) => "r0 set here ("@ + o.instruction@ + ")"@,
        None => "r0 set here"@,
    }
}

/// Whether the report marks the C line that set r0.
pub open spec fn marks_c_line(d: Diagnostic) -> bool {
    c_src_of(d).len() > 0 && d.c_source_line is Some
}

/// The label on the C line that set r0.
pub open spec fn c_labels(d: Diagnostic) -> Seq<(Seq<char>, nat, nat, Seq<char>)> {
    if marks_c_line(d) {
        match line_range(c_src_of(d), d.c_source_line->0 as usize) {
            Some((a, b, t)) => seq![(c_id_of(d), a, b, r0_here(d))],
            None => Seq::empty(),
        }
    } else {
        Seq::empty()
    }
}

/// Where the C line is not marked, a note on where r0 was set.
pub open spec fn r0_notes(d: Diagnostic) -> Seq<Seq<char>> {
    if marks_c_line(d) {
        Seq::empty()
    } else {
        match d.r0_origin {
            Some(o) => seq![
                "r0 set at "@ + text_or(o.source_loc, "unknown"@) + " ("@ + o.instruction@ + ")"@,
            ],
            None => Seq::empty(),
        }
    }
}

/// The first `k` conjuncts that are not trivially true.
pub open spec fn nontrivial(cs: Seq<ConjView>, k: int) -> Seq<ConjView>
    decreases k,
{
    if k <= 0 {
        Seq::empty()
    } else {
        let r = nontrivial(cs, k - 1);
        if trivially_true(cs[k - 1].text) { r } else { r.push(cs[k - 1]) }
    }
}

/// The conjuncts of a group as list items under `indent`.
pub open spec fn items(g: Seq<ConjView>, indent: Seq<char>) -> Seq<Seq<char>> {
    Seq::new(g.len(), |i: int| indent + "- "@ + g[i].text)
}

/// The heading of the `i`th disjunct's group.
pub open spec fn path_label(i: nat) -> Seq<char> {
    if i == 0 { "success path"@ } else { "path "@ + dec_nat(i) }
}

/// The conjuncts the postcondition requires, shown where functional
/// correctness failed: the conjuncts that are not trivially true, by
/// disjunct.
pub open spec fn conjunct_notes(d: Diagnostic) -> Seq<Seq<char>> {
    let cv = d.conjuncts@.map_values(|c: ConjunctInfo| c@);
    let nt = nontrivial(cv, cv.len() as int);
    if nt.len() > 0 && d.stage == FailedStage::FunctionalCorrectness {
        let gs = grouped(nt, nt.len() as int);
        if gs.len() == 1 {
            seq!["postcondition requires all of:\n"@ + join_with(items(gs[0], "  "@), "\n"@)]
        } else {
            seq![
                "postcondition requires (one of):\n"@ + join_with(
                    Seq::new(
                        gs.len(),
                        |i: int| "  "@ + path_label(i as nat) + ":\n"@ + join_with(items(gs[i], "    "@), "\n"@),
                    ),
                    "\n"@,
                ),
            ]
        }
    } else {
        Seq::empty()
    }
}

/// The report of a diagnostic: its header points into the spec where the
/// spec and its postcondition are there, else into the C source.
pub open spec fn report_plan_of(d: Diagnostic) -> PlanView {
    PlanView {
        anchor: if spec_src_of(d).len() > 0 && d.spec_postcondition is Some { spec_id_of(d) } else { c_id_of(d) },
        message: d.stage.text() + " check failed"@,
        marks: marks_of(d),
        labels: error_labels(d) + c_labels(d),
        notes: r0_notes(d) + conjunct_notes(d),
        spec_id: spec_id_of(d),
        spec_src: spec_src_of(d),
        c_id: c_id_of(d),
        c_src: c_src_of(d),
    }
}

/// An optional text, or `d` where there is none (see `text_or`).
fn text_or_else(o: &Option<String>, d: &str) -> (r: String)
    ensures
        r@ == text_or(*o, d@),
{
    match o {
        Some(s) => s.clone(),
        None => d.to_string(),
    }
}

/// A string of the characters of `a`, `b` and `c` in turn.
fn concat3(a: &str, b: &str, c: &str) -> (r: String)
    ensures
        r@ == a@ + b@ + c@,
{
    let mut r = a.to_string();
    push_str(&mut r, b);
    push_str(&mut r, c);
    r
}

/// Push the mark for line `line` of the spec, where it shows anything.
fn push_post_mark(marks: &mut Vec<ReportMark>, id: &String, src: &String, cs: &[char], line: usize)
    requires
        cs@ == src@,
        line_markable(src@, line),
    ensures
        final(marks)@.map_values(|m: ReportMark| mark_view(m)) == old(marks)@.map_values(|m: ReportMark| mark_view(m))
            + match line_range(src@, line) {
            Some((a, b, t)) => if shows(t) { seq![(id@, a, b)] } else { Seq::empty() },
            None => Seq::empty(),
        },
{
    let (a, b, t) = mark_line(src.as_str(), cs, line);
    let ghost before = marks@.map_values(|m: ReportMark| mark_view(m));
    if trim_of(t.as_slice()).len() > 0 {
        marks.push(ReportMark { source: id.clone(), start: a, end: b });
        assert(marks@.map_values(|m: ReportMark| mark_view(m)) =~= before + seq![(id@, a as nat, b as nat)]);
    } else {
        assert(marks@.map_values(|m: ReportMark| mark_view(m)) =~= before + Seq::empty());
    }
}

/// The marks for lines `start` to `end` of the spec (see `post_marks`).
fn post_marks_of(id: &String, src: &String, start: usize, end: usize) -> (r: Vec<ReportMark>)
    requires
        forall|l: usize| start <= l <= end ==> line_markable(src@, l),
    ensures
        r@.map_values(|m: ReportMark| mark_view(m)) == post_marks(id@, src@, start as int, end as int),
{
    let mut marks: Vec<ReportMark> = Vec::new();
    if start > end {
        return marks;
    }
    let cs = chars_of(src.as_str());
    let mut line = start;
    while line < end
        invariant
            start <= line <= end,
            cs@ == src@,
            forall|l: usize| start <= l <= end ==> line_markable(src@, l),
            post_marks(id@, src@, start as int, end as int) == marks@.map_values(|m: ReportMark| mark_view(m))
                + post_marks(id@, src@, line as int, end as int),
        decreases end - line,
    {
        let ghost before = marks@.map_values(|m: ReportMark| mark_view(m));
        push_post_mark(&mut marks, id, src, cs.as_slice(), line);
        let ghost rest = post_marks(id@, src@, line + 1, end as int);
        assert(post_marks(id@, src@, line as int, end as int) == match line_range(src@, line) {
            Some((a, b, t)) => if shows(t) { seq![(id@, a, b)] + rest } else { rest },
            None => rest,
        });
        assert(before + post_marks(id@, src@, line as int, end as int) =~= marks@.map_values(
            |m: ReportMark| mark_view(m),
        ) + rest);
        line = line + 1;
    }
    let ghost before = marks@.map_values(|m: ReportMark| mark_view(m));
    push_post_mark(&mut marks, id, src, cs.as_slice(), end);
    assert(post_marks(id@, src@, end as int + 1, end as int) =~= Seq::<(Seq<char>, nat, nat)>::empty());
    assert(before + post_marks(id@, src@, end as int, end as int) =~= marks@.map_values(|m: ReportMark| mark_view(m)));
    marks
}

/// The conjuncts that are not trivially true (see `nontrivial`).
fn nontrivial_of(cs: &Vec<ConjunctInfo>) -> (r: Vec<ConjunctInfo>)
    ensures
        r@.map_values(|c: ConjunctInfo| c@) == nontrivial(cs@.map_values(|c: ConjunctInfo| c@), cs@.len() as int),
{
    let ghost cv = cs@.map_values(|c: ConjunctInfo| c@);
    let mut r: Vec<ConjunctInfo> = Vec::new();
    let mut k: usize = 0;
    while k < cs.len()
        invariant
            k <= cs@.len(),
            cv == cs@.map_values(|c: ConjunctInfo| c@),
            r@.map_values(|c: ConjunctInfo| c@) == nontrivial(cv, k as int),
        decreases cs@.len() - k,
    {
        let c = &cs[k];
        assert(cv[k as int] == c@);
        if !is_trivially_true(c.text.as_str()) {
            let ghost before = r@.map_values(|c: ConjunctInfo| c@);
            r.push(ConjunctInfo { disjunct: c.disjunct, text: c.text.clone() });
            assert(r@.map_values(|c: ConjunctInfo| c@) =~= before.push(cv[k as int]));
        }
        k = k + 1;
    }
    r
}

/// The conjuncts of a group as list items under `indent` (see `items`).
fn items_of(g: &Vec<ConjunctInfo>, indent: &str) -> (r: Vec<Vec<char>>)
    ensures
        r@.map_values(|l: Vec<char>| l@) == items(g@.map_values(|c: ConjunctInfo| c@), indent@),
{
    let ghost gv = g@.map_values(|c: ConjunctInfo| c@);
    let mut r: Vec<Vec<char>> = Vec::new();
    let mut k: usize = 0;
    while k < g.len()
        invariant
            k <= g@.len(),
            gv == g@.map_values(|c: ConjunctInfo| c@),
            r@.len() == k,
            forall|i: int| 0 <= i < k ==> (#[trigger] r@[i])@ == items(gv, indent@)[i],
        decreases g@.len() - k,
    {
        let item = concat3(indent, "- ", g[k].text.as_str());
        assert(gv[k as int] == g@[k as int]@);
        r.push(chars_of(item.as_str()));
        k = k + 1;
    }
    assert(r@.map_values(|l: Vec<char>| l@) =~= items(gv, indent@));
    r
}

/// The heading of the `i`th disjunct's group (see `path_label`).
fn path_label_of(i: usize) -> (r: String)
    ensures
        r@ == path_label(i as nat),
{
    if i == 0 {
        "success path".to_string()
    } else {
        let mut r = "path ".to_string();
        push_dec_u64(&mut r, i as u64);
        r
    }
}

/// The conjunct notes of a report (see `conjunct_notes`).
fn conjunct_notes_of(d: &Diagnostic) -> (r: Vec<String>)
    ensures
        r@.map_values(|n: String| n@) == conjunct_notes(*d),
{
    let nt = nontrivial_of(&d.conjuncts);
    let mut r: Vec<String> = Vec::new();
    if nt.len() == 0 || d.stage != FailedStage::FunctionalCorrectness {
        assert(r@.map_values(|n: String| n@) =~= conjunct_notes(*d));
        return r;
    }
    let ghost nv = nt@.map_values(|c: ConjunctInfo| c@);
    let gs = group_by_disjunct(nt.as_slice());
    let ghost gv = gs@.map_values(|g: Vec<ConjunctInfo>| g@.map_values(|c: ConjunctInfo| c@));
    assert(gv == grouped(nv, nv.len() as int));
    let nl = chars_of("\n");
    if gs.len() == 1 {
        let parts = items_of(&gs[0], "  ");
        assert(gv[0] == gs@[0]@.map_values(|c: ConjunctInfo| c@));
        let body = join_of(&parts, nl.as_slice());
        let mut note = "postcondition requires all of:\n".to_string();
        push_str(&mut note, string_of(body.as_slice()).as_str());
        r.push(note);
    } else {
        let ghost want = Seq::new(
            gv.len(),
            |i: int| "  "@ + path_label(i as nat) + ":\n"@ + join_with(items(gv[i], "    "@), "\n"@),
        );
        let mut parts: Vec<Vec<char>> = Vec::new();
        let mut i: usize = 0;
        while i < gs.len()
            invariant
                i <= gs@.len(),
                gv == gs@.map_values(|g: Vec<ConjunctInfo>| g@.map_values(|c: ConjunctInfo| c@)),
                want == Seq::new(
                    gv.len(),
                    |i: int| "  "@ + path_label(i as nat) + ":\n"@ + join_with(items(gv[i], "    "@), "\n"@),
                ),
                nl@ == "\n"@,
                parts@.len() == i,
                forall|k: int| 0 <= k < i ==> (#[trigger] parts@[k])@ == want[k],
            decreases gs@.len() - i,
        {
            let its = items_of(&gs[i], "    ");
            assert(gv[i as int] == gs@[i as int]@.map_values(|c: ConjunctInfo| c@));
            let body = join_of(&its, nl.as_slice());
            let mut part = "  ".to_string();
            push_str(&mut part, path_label_of(i).as_str());
            push_str(&mut part, ":\n");
            push_str(&mut part, string_of(body.as_slice()).as_str());
            parts.push(chars_of(part.as_str()));
            i = i + 1;
        }
        assert(parts@.map_values(|l: Vec<char>| l@) =~= want);
        let all = join_of(&parts, nl.as_slice());
        let mut note = "postcondition requires (one of):\n".to_string();
        push_str(&mut note, string_of(all.as_slice()).as_str());
        r.push(note);
    }
    assert(r@.map_values(|n: String| n@) =~= conjunct_notes(*d));
    r
}

/// Whether lines `start` to `end` of the text `cs` can all be marked.
fn all_markable(cs: &[char], start: usize, end: usize) -> (b: bool)
    ensures
        b == (forall|l: usize| start <= l <= end ==> line_markable(cs@, l)),
{
    if start > end {
        return true;
    }
    let mut l = start;
    while l < end
        invariant
            start <= l <= end,
            forall|m: usize| start <= m < l ==> line_markable(cs@, m),
        decreases end - l,
    {
        if !is_markable(cs, l) {
            return false;
        }
        l = l + 1;
    }
    is_markable(cs, end)
}

impl Diagnostic {
    /// Whether the report of this diagnostic can be drawn (see
    /// `report_drawable`).
    pub fn can_format(&self) -> (b: bool)
        ensures
            b == report_drawable(*self),
    {
        let spec_src = text_or_else(&self.spec_content, "");
        let c_src = text_or_else(&self.c_source_content, "");
        let ss = chars_of(spec_src.as_str());
        let cc = chars_of(c_src.as_str());
        proof {
            reveal_strlit("");
            assert(""@ =~= Seq::<char>::empty());
        }
        let spec_ok = if ss.len() == 0 {
            true
        } else {
            match self.spec_error_line {
                Some(l) => is_markable(ss.as_slice(), l),
                None => match &self.spec_postcondition {
                    Some(p) => all_markable(ss.as_slice(), p.start_line, p.end_line),
                    None => true,
                },
            }
        };
        let c_ok = if cc.len() == 0 {
            true
        } else {
            match self.c_source_line {
                Some(l) => is_markable(cc.as_slice(), l as usize),
                None => true,
            }
        };
        spec_ok && c_ok
    }

    /// What the report of this diagnostic shows (see `report_plan_of`).
    pub fn report_plan(&self) -> (r: ReportPlan)
        requires
            report_drawable(*self),
        ensures
            r@ == report_plan_of(*self),
    {
        let spec_id = text_or_else(&self.spec_file, "spec.fst");
        let c_id = text_or_else(&self.c_source_file, "source.bpf.c");
        let spec_src = text_or_else(&self.spec_content, "");
        let c_src = text_or_else(&self.c_source_content, "");
        let spec_cs = chars_of(spec_src.as_str());
        let c_cs = chars_of(c_src.as_str());
        proof {
            reveal_strlit("");
            assert(""@ =~= Seq::<char>::empty());
            assert(spec_src@ == spec_src_of(*self));
            assert(c_src@ == c_src_of(*self));
        }
        let anchor = if spec_cs.len() > 0 && self.spec_postcondition.is_some() {
            spec_id.clone()
        } else {
            c_id.clone()
        };
        let mut message = self.stage.to_string();
        push_str(&mut message, " check failed");
        let mut marks: Vec<ReportMark> = Vec::new();
        let mut labels: Vec<ReportLabel> = Vec::new();
        if spec_cs.len() > 0 {
            match self.spec_error_line {
                Some(l) => {
                    let (a, b, t) = mark_line(spec_src.as_str(), spec_cs.as_slice(), l);
                    if trim_of(t.as_slice()).len() > 0 {
                        labels.push(
                            ReportLabel {
                                source: spec_id.clone(),
                                start: a,
                                end: b,
                                message: "this condition could not be proved".to_string(),
                            },
                        );
                    }
                },
                None => match &self.spec_postcondition {
                    Some(p) => {
                        assert(forall|l: usize| p.start_line <= l <= p.end_line ==> line_markable(spec_src@, l));
                        marks = post_marks_of(&spec_id, &spec_src, p.start_line, p.end_line);
                    },
                    None => {},
                },
            }
        }
        assert(labels@.map_values(|l: ReportLabel| label_view(l)) =~= error_labels(*self));
        let mut notes: Vec<String> = Vec::new();
        if c_cs.len() > 0 && self.c_source_line.is_some() {
            let line = match self.c_source_line {
                Some(l) => l as usize,
                None => 0,
            };
            let (a, b, _t) = mark_line(c_src.as_str(), c_cs.as_slice(), line);
            let msg = match &self.r0_origin {
                Some(o) => concat3("r0 set here (", o.instruction.as_str(), ")"),
                None => "r0 set here".to_string(),
            };
            let ghost before = labels@.map_values(|l: ReportLabel| label_view(l));
            labels.push(ReportLabel { source: c_id.clone(), start: a, end: b, message: msg });
            assert(labels@.map_values(|l: ReportLabel| label_view(l)) =~= before + c_labels(*self));
        } else {
            match &self.r0_origin {
                Some(o) => {
                    let loc = text_or_else(&o.source_loc, "unknown");
                    let mut n = concat3("r0 set at ", loc.as_str(), " (");
                    push_str(&mut n, o.instruction.as_str());
                    push_str(&mut n, ")");
                    notes.push(n);
                },
                None => {},
            }
            assert(labels@.map_values(|l: ReportLabel| label_view(l)) =~= error_labels(*self) + c_labels(*self));
        }
        assert(notes@.map_values(|n: String| n@) =~= r0_notes(*self));
        let mut more = conjunct_notes_of(self);
        let ghost before = notes@;
        let ghost extra = more@;
        notes.append(&mut more);
        assert(notes@.map_values(|n: String| n@) =~= before.map_values(|n: String| n@) + extra.map_values(
            |n: String| n@,
        ));
        let r = ReportPlan { anchor, message, marks, labels, notes, spec_id, spec_src, c_id, c_src };
        assert(r@.marks =~= report_plan_of(*self).marks);
        assert(r@.labels =~= report_plan_of(*self).labels);
        assert(r@.notes =~= report_plan_of(*self).notes);
        assert(r@.anchor =~= report_plan_of(*self).anchor);
        assert(r@.message =~= report_plan_of(*self).message);
        assert(r@.spec_src =~= report_plan_of(*self).spec_src);
        assert(r@.c_src =~= report_plan_of(*self).c_src);
        r
    }

    /// The drawn report of this diagnostic: what `report_plan` plans, as
    /// ariadne renders it. Its first line is the error header with the
    /// planned message; the `Error:` tag is coloured or not as the process's
    /// colour setting says.
    pub fn format(self) -> (out: String)
        requires
            report_drawable(self),
        ensures
            exists|coloured: bool| report_header(report_plan_of(self).message, coloured).is_prefix_of(out@),
    {
        let p = self.report_plan();
        proof {
            lemma_plan_spans_forward(self);
            assert forall|i: int| 0 <= i < p.marks@.len() implies (#[trigger] p.marks@[i]).start <= p.marks@[i].end by {
                assert(p@.marks[i] == mark_view(p.marks@[i]));
            }
            assert forall|i: int| 0 <= i < p.labels@.len() implies (#[trigger] p.labels@[i]).start <= p.labels@[i].end by {
                assert(p@.labels[i] == label_view(p.labels@[i]));
            }
        }
        let ghost message = p.message@;
        assert(message == report_plan_of(self).message);
        let texts = vec![(p.spec_id, p.spec_src), (p.c_id, p.c_src)];
        let out = render_report(p.anchor, &p.message, &p.marks, &p.labels, &p.notes, texts);
        proof {
            let coloured = choose|coloured: bool| report_header(message, coloured).is_prefix_of(out@);
            assert(report_header(report_plan_of(self).message, coloured).is_prefix_of(out@));
        }
        out
    }
}

/// The `Error:` tag, bare or painted red (`ESC [31m` before it, `ESC [0m`
/// after it).
pub open spec fn error_tag(coloured: bool) -> Seq<char> {
    let tag = seq!['E', 'r', 'r', 'o', 'r', ':'];
    if coloured {
        seq!['\u{1b}', '[', '3', '1', 'm'] + tag + seq!['\u{1b}', '[', '0', 'm']
    } else {
        tag
    }
}

/// The first line of a drawn error report: the tag, a space, the message and
/// a line break.
pub open spec fn report_header(message: Seq<char>, coloured: bool) -> Seq<char> {
    error_tag(coloured) + seq![' '] + message + seq!['\n']
}

/// Every span of a plan runs forwards: its start is not after its end.
pub open spec fn plan_spans_forward(p: PlanView) -> bool {
    &&& forall|i: int| 0 <= i < p.marks.len() ==> (#[trigger] p.marks[i]).1 <= p.marks[i].2
    &&& forall|i: int| 0 <= i < p.labels.len() ==> (#[trigger] p.labels[i]).1 <= p.labels[i].2
}

proof fn lemma_post_marks_forward(id: Seq<char>, src: Seq<char>, line: int, last: int)
    ensures
        forall|i: int|
            0 <= i < post_marks(id, src, line, last).len() ==> (#[trigger] post_marks(id, src, line, last)[i]).1
                <= post_marks(id, src, line, last)[i].2,
    decreases last + 1 - line,
{
    if !(line > last || line < 0 || line > usize::MAX) {
        lemma_post_marks_forward(id, src, line + 1, last);
        let rest = post_marks(id, src, line + 1, last);
        match line_range(src, line as usize) {
            Some((a, b, t)) => {
                if shows(t) {
                    let all = seq![(id, a, b)] + rest;
                    assert(post_marks(id, src, line, last) == all);
                    assert forall|i: int| 0 <= i < all.len() implies (#[trigger] all[i]).1 <= all[i].2 by {
                        if i > 0 {
                            assert(all[i] == rest[i - 1]);
                        }
                    }
                }
            },
            None => {},
        }
    }
}

/// The plan of every diagnostic has forward spans: each comes from a
/// line's range, which ends where the line's text ends.
pub proof fn lemma_plan_spans_forward(d: Diagnostic)
    ensures
        plan_spans_forward(report_plan_of(d)),
{
    let p = report_plan_of(d);
    let ss = spec_src_of(d);
    if ss.len() > 0 && d.spec_error_line is None {
        match d.spec_postcondition {
            Some(q) => lemma_post_marks_forward(spec_id_of(d), ss, q.start_line as int, q.end_line as int),
            None => {},
        }
    }
    let el = error_labels(d);
    let cl = c_labels(d);
    assert forall|i: int| 0 <= i < p.labels.len() implies (#[trigger] p.labels[i]).1 <= p.labels[i].2 by {
        if i < el.len() {
            assert(p.labels[i] == el[i]);
        } else {
            assert(p.labels[i] == cl[i - el.len()]);
        }
    }
}

/// Trusted: draws a planned report with ariadne: `Report::build` of an
/// error pointing at the start of `anchor`, with the default `Config`
/// (which draws with the Unicode character set), the message, a `Label`
/// for each mark (without a message) and then for each label (with its
/// message), the notes, and `write` over `ariadne::sources` of the named
/// texts; the written bytes are read as UTF-8 (ariadne writes only through
/// `fmt`, so they are). Claimed: `write` first writes the header line,
/// `Error:` (no code is set), a space, the message and a line break, into a
/// `Vec` that never refuses a write; the tag is painted red by yansi or not,
/// by yansi's process-wide switch, so which of the two is left open. Nothing
/// is claimed of the lines after it. `Label::new` panics on a backwards
/// span, so every span handed over must run forwards.
#[verifier::external_body]
fn render_report(
    anchor: String,
    message: &String,
    marks: &Vec<ReportMark>,
    labels: &Vec<ReportLabel>,
    notes: &Vec<String>,
    texts: Vec<(String, String)>,
) -> (out: String)
    requires
        forall|i: int| 0 <= i < marks@.len() ==> (#[trigger] marks@[i]).start <= marks@[i].end,
        forall|i: int| 0 <= i < labels@.len() ==> (#[trigger] labels@[i]).start <= labels@[i].end,
    ensures
        exists|coloured: bool| report_header(message@, coloured).is_prefix_of(out@),
{
    let mut b = Report::build(ReportKind::Error, (anchor, 0..0)).with_message(message)
        .with_labels(marks.iter().map(|m| Label::new((m.source.clone(), m.start..m.end))))
        .with_labels(labels.iter().map(|l| Label::new((l.source.clone(), l.start..l.end)).with_message(&l.message)));
    b.with_notes(notes);
    let mut buf = vec![];
    b.finish().write(sources(texts), &mut buf).ok();
    String::from_utf8(buf).unwrap_or_default()
}

} // verus!
