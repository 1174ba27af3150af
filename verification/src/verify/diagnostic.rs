//! Reading F*'s output after a failed verification: tactic dump blocks,
//! the proof stage that failed, the postcondition of the spec, the
//! instruction that set r0, and the conjuncts of the normalised goal.

use vstd::prelude::*;

use crate::elf::parser::StructDef;
use crate::text::{chars_of, dec_nat, join_with, push_dec_u64};
use crate::verify::scan::{
    all_digits, contains, contains_in, eq_chars, find, find_in, has_prefix, join_of, lines, lines_of, occurs,
    parse_usize, parse_usize_of, rfind, rfind_in, slice_of, starts_with, string_of, trim, trim_end_char,
    trim_end_char_of, trim_of, trim_start, trim_start_of,
};

verus! {

/// A dump block extracted from F* tactic output.
#[derive(Debug, Clone)]
pub struct DumpBlock {
    pub label: String,
    pub goal: String,
}

/// A dump block with its texts as character sequences.
pub struct DumpView {
    pub label: Seq<char>,
    pub goal: Seq<char>,
}

impl View for DumpBlock {
    type V = DumpView;

    open spec fn view(&self) -> DumpView {
        DumpView { label: self.label@, goal: self.goal@ }
    }
}

/// The header of a dump block.
pub open spec fn dump_prefix() -> Seq<char> {
    "proof-state: State dump"@
}

/// The label between the first `(` of a line and the next `)`.
pub open spec fn dump_label(l: Seq<char>) -> Option<Seq<char>> {
    match find(l, seq!['(']) {
        Some(p) => match find(l.skip(p + 1), seq![')']) {
            Some(q) => Some(l.subrange(p + 1, p + 1 + q)),
            None => None,
        },
        None => None,
    }
}

/// Whether a line ends a dump block: another dump header, an error or
/// warning, a JSON message, or tactic output.
pub open spec fn ends_dump(l: Seq<char>) -> bool {
    has_prefix(l, dump_prefix()) || has_prefix(l, "* Error"@) || has_prefix(l, "* Warning"@)
        || has_prefix(l, seq!['{']) || has_prefix(l, "TAC>>"@)
}

/// A dump block being read: its label, whether the goal's `:` was seen,
/// and the goal lines so far.
pub struct OpenDump {
    pub label: Seq<char>,
    pub found: bool,
    pub goal: Seq<Seq<char>>,
}

/// The finished block of an open dump: the goal lines joined and trimmed.
pub open spec fn close_dump(d: OpenDump) -> DumpView {
    DumpView { label: d.label, goal: trim(join_with(d.goal, seq!['\n'])) }
}

/// One goal line of an open dump: the part after ` : ` of a `|-` line
/// holding one (which also marks the `:` seen), a line that is just `:`
/// (which marks it), or, once it is seen, the whole line.
pub open spec fn dump_step(d: OpenDump, l: Seq<char>) -> OpenDump {
    if !d.found && contains(l, "|-"@) && contains(l, " : "@) {
        OpenDump { found: true, goal: d.goal.push(l.skip(find(l, " : "@)->0 + 3)), ..d }
    } else if !d.found && trim(l) == seq![':'] {
        OpenDump { found: true, ..d }
    } else if d.found {
        OpenDump { goal: d.goal.push(l), ..d }
    } else {
        d
    }
}

/// The dump blocks of lines `i..`, with a block possibly open.
pub open spec fn dumps_from(ls: Seq<Seq<char>>, i: int, cur: Option<OpenDump>) -> Seq<DumpView>
    decreases ls.len() - i, if cur is Some { 1int } else { 0int },
{
    if i < 0 {
        Seq::empty()
    } else {
        match cur {
            Some(d) => if i >= ls.len() {
                seq![close_dump(d)]
            } else if ends_dump(ls[i]) {
                seq![close_dump(d)] + dumps_from(ls, i, None)
            } else {
                dumps_from(ls, i + 1, Some(dump_step(d, ls[i])))
            },
            None => if i >= ls.len() {
                Seq::empty()
            } else if has_prefix(ls[i], dump_prefix()) && dump_label(ls[i]) is Some {
                dumps_from(ls, i + 1, Some(OpenDump { label: dump_label(ls[i])->0, found: false, goal: Seq::empty() }))
            } else {
                dumps_from(ls, i + 1, None)
            },
        }
    }
}

/// The dump blocks of F* output (see `dumps_from`).
pub open spec fn dumps_of(stderr: Seq<char>) -> Seq<DumpView> {
    dumps_from(lines_of(stderr), 0, None)
}

fn extract_dump_label(line: &[char]) -> (r: Option<Vec<char>>)
    ensures
        match r {
            Some(l) => dump_label(line@) == Some(l@),
            None => dump_label(line@) is None,
        },
{
    let n = line.len();
    let open = ['('];
    let close = [')'];
    assert(open@ =~= seq!['(']);
    assert(close@ =~= seq![')']);
    let p = match find_in(line, &open) {
        Some(p) => p,
        None => {
            return None;
        },
    };
    proof { crate::verify::scan::lemma_find_from_bounds(line@, seq!['('], 0); }
    let rest = slice_of(line, p + 1, n);
    assert(rest@ =~= line@.skip(p + 1));
    let q = match find_in(rest.as_slice(), &close) {
        Some(q) => q,
        None => {
            return None;
        },
    };
    proof { crate::verify::scan::lemma_find_from_bounds(rest@, seq![')'], 0); }
    let l = slice_of(line, p + 1, p + 1 + q);
    Some(l)
}

fn to_dump(label: &Vec<char>, goal: &Vec<Vec<char>>) -> (d: DumpBlock)
    ensures
        d@ == close_dump(OpenDump { label: label@, found: true, goal: goal@.map_values(|l: Vec<char>| l@) }),
{
    let nl = ['\n'];
    let joined = join_of(goal, &nl);
    assert(nl@ =~= seq!['\n']);
    let t = trim_of(joined.as_slice());
    DumpBlock { label: string_of(label.as_slice()), goal: string_of(t.as_slice()) }
}

/// Extract the labelled dump blocks from F* tactic output.
///
/// F* tactics emit dumps via `dump "LABEL"`, which appear on stderr as
/// `proof-state: State dump @ depth 0 (LABEL):` followed by the goal.
pub fn parse_dumps(stderr: &str) -> (r: Vec<DumpBlock>)
    ensures
        r@.map_values(|d: DumpBlock| d@) == dumps_of(stderr@),
{
    let text = chars_of(stderr);
    let ls = lines(text.as_slice());
    let ghost lsv = ls@.map_values(|l: Vec<char>| l@);
    let header = chars_of("proof-state: State dump");
    let err = chars_of("* Error");
    let warn = chars_of("* Warning");
    let brace = ['{'];
    let tac = chars_of("TAC>>");
    let turnstile = chars_of("|-");
    let sep = chars_of(" : ");
    let colon = [':'];
    assert(brace@ =~= seq!['{']);
    assert(colon@ =~= seq![':']);
    let mut dumps: Vec<DumpBlock> = Vec::new();
    let mut i: usize = 0;
    // The block being read: its label, whether its `:` was seen, and its
    // goal lines.
    let mut open = false;
    let mut label: Vec<char> = Vec::new();
    let mut found = false;
    let mut goal: Vec<Vec<char>> = Vec::new();
    let n = ls.len();
    loop
        invariant
            n == ls@.len(),
            i <= n,
            lsv == ls@.map_values(|l: Vec<char>| l@),
            lsv == lines_of(stderr@),
            header@ == dump_prefix(),
            err@ == "* Error"@,
            warn@ == "* Warning"@,
            brace@ == seq!['{'],
            tac@ == "TAC>>"@,
            turnstile@ == "|-"@,
            sep@ == " : "@,
            colon@ == seq![':'],
            dumps@.map_values(|d: DumpBlock| d@) + dumps_from(lsv, i as int,
                if open { Some(OpenDump { label: label@, found, goal: goal@.map_values(|l: Vec<char>| l@) }) } else { None })
                == dumps_of(stderr@),
        decreases n - i, if open { 1int } else { 0int },
    {
        let ghost before = dumps@;
        if open {
            if i >= n {
                let d = to_dump(&label, &goal);
                dumps.push(d);
                assert(dumps@.map_values(|d: DumpBlock| d@) =~= before.map_values(|d: DumpBlock| d@).push(d@));
                return dumps;
            }
            let cur = ls[i].as_slice();
            let clen = cur.len();
            let stop = starts_with(cur, header.as_slice()) || starts_with(cur, err.as_slice())
                || starts_with(cur, warn.as_slice()) || starts_with(cur, &brace) || starts_with(cur, tac.as_slice());
            if stop {
                let d = to_dump(&label, &goal);
                dumps.push(d);
                assert(dumps@.map_values(|d: DumpBlock| d@) =~= before.map_values(|d: DumpBlock| d@).push(d@));
                open = false;
            } else {
                let ghost g0 = goal@.map_values(|l: Vec<char>| l@);
                if !found && contains_in(cur, turnstile.as_slice()) && contains_in(cur, sep.as_slice()) {
                    let pos = find_in(cur, sep.as_slice()).unwrap();
                    proof {
                        crate::verify::scan::lemma_find_from_bounds(cur@, sep@, 0);
                        reveal_strlit(" : ");
                    }
                    let part = slice_of(cur, pos + 3, clen);
                    goal.push(part);
                    found = true;
                    assert(goal@.map_values(|l: Vec<char>| l@) =~= g0.push(cur@.skip(pos + 3)));
                } else if !found && eq_chars(trim_of(cur).as_slice(), &colon) {
                    found = true;
                } else if found {
                    let whole = slice_of(cur, 0, clen);
                    assert(whole@ =~= cur@);
                    goal.push(whole);
                    assert(goal@.map_values(|l: Vec<char>| l@) =~= g0.push(cur@));
                }
                i = i + 1;
            }
        } else {
            if i >= n {
                return dumps;
            }
            let cur = ls[i].as_slice();
            if starts_with(cur, header.as_slice()) {
                match extract_dump_label(cur) {
                    Some(l) => {
                        label = l;
                        found = false;
                        goal = Vec::new();
                        open = true;
                        assert(goal@.map_values(|l: Vec<char>| l@) =~= Seq::<Seq<char>>::empty());
                    },
                    None => {},
                }
            }
            i = i + 1;
        }
    }
}

/// The proof stage that failed during F* verification.
#[derive(Debug, Clone, Copy, PartialEq, Eq, Structural)]
pub enum FailedStage {
    StackBounds,
    TypeSafety,
    NullSafety,
    FunctionalCorrectness,
}

impl FailedStage {
    pub open spec fn text(self) -> Seq<char> {
        match self {
            FailedStage::StackBounds => "stack bounds safety"@,
            FailedStage::TypeSafety => "type safety"@,
            FailedStage::NullSafety => "null safety"@,
            FailedStage::FunctionalCorrectness => "functional correctness"@,
        }
    }

    /// The stage's name, as shown in reports.
    pub fn to_string(&self) -> (s: String)
        ensures
            s@ == self.text(),
    {
        let t = match self {
            FailedStage::StackBounds => "stack bounds safety",
            FailedStage::TypeSafety => "type safety",
            FailedStage::NullSafety => "null safety",
            FailedStage::FunctionalCorrectness => "functional correctness",
        };
        t.to_owned()
    }
}

/// A JSON message line of F*'s output, with the fields the diagnostics
/// read: the level, and the `ctx` and `msg` arrays (each item as a string
/// when it is one).
#[derive(Debug, Clone)]
pub struct JsonMessage {
    pub level: Option<String>,
    pub ctx: Option<Vec<Option<String>>>,
    pub msg: Option<Vec<Option<String>>>,
}

/// A JSON message with its texts as character sequences.
pub struct JsonMessageView {
    pub level: Option<Seq<char>>,
    pub ctx: Option<Seq<Option<Seq<char>>>>,
    pub msg: Option<Seq<Option<Seq<char>>>>,
}

/// An optional string as an optional character sequence.
pub open spec fn opt_text(s: Option<String>) -> Option<Seq<char>> {
    match s {
        Some(t) => Some(t@),
        None => None,
    }
}

/// An optional array of optional strings by its texts.
pub open spec fn opt_texts(v: Option<Vec<Option<String>>>) -> Option<Seq<Option<Seq<char>>>> {
    match v {
        Some(items) => Some(items@.map_values(|i: Option<String>| opt_text(i))),
        None => None,
    }
}

impl View for JsonMessage {
    type V = JsonMessageView;

    open spec fn view(&self) -> JsonMessageView {
        JsonMessageView { level: opt_text(self.level), ctx: opt_texts(self.ctx), msg: opt_texts(self.msg) }
    }
}

/// The JSON message serde_json reads from a line, if the line is JSON.
pub uninterp spec fn json_message(line: Seq<char>) -> Option<JsonMessageView>;

/// Trusted: parses the line with `serde_json::from_str` into a
/// `serde_json::Value` and reads its `level` string and its `ctx` and `msg`
/// arrays. Claimed: the result depends on the line's text alone (named
/// `json_message`); what serde_json accepts as JSON is not stated.
#[verifier::external_body]
fn parse_json_message(line: &str) -> (r: Option<JsonMessage>)
    ensures
        match r {
            Some(m) => json_message(line@) == Some(m@),
            None => json_message(line@) is None,
        },
{
    let v: serde_json::Value = serde_json::from_str(line).ok()?;
    let strs = |k: &str| v.get(k).and_then(|x| x.as_array()).map(|a| a.iter().map(|i| i.as_str().map(String::from)).collect());
    Some(JsonMessage { level: v.get("level").and_then(|x| x.as_str()).map(String::from), ctx: strs("ctx"), msg: strs("msg") })
}

/// The stage a dump label names.
pub open spec fn stage_of_label(l: Seq<char>) -> Option<FailedStage> {
    if l == "NORMALISED_GOAL"@ {
        Some(FailedStage::FunctionalCorrectness)
    } else if l == "STACK_BOUNDS_GOAL"@ {
        Some(FailedStage::StackBounds)
    } else if l == "TYPE_SAFETY_GOAL"@ {
        Some(FailedStage::TypeSafety)
    } else if l == "NULL_SAFETY_GOAL"@ {
        Some(FailedStage::NullSafety)
    } else {
        None
    }
}

/// The stage the first telling context string (from `j` on) names: the
/// declaration of the stack-bounds (or an `assert_norm`), type-safety or
/// null-safety proof.
pub open spec fn stage_of_ctx(ctx: Seq<Option<Seq<char>>>, j: int) -> Option<FailedStage>
    decreases ctx.len() - j,
{
    if j < 0 || j >= ctx.len() {
        None
    } else {
        match ctx[j] {
            Some(t) => if contains(t, "assert_norm"@) || contains(t, "`let sb_proof`"@) {
                Some(FailedStage::StackBounds)
            } else if contains(t, "`let ts_proof`"@) {
                Some(FailedStage::TypeSafety)
            } else if contains(t, "`let ns_proof`"@) {
                Some(FailedStage::NullSafety)
            } else {
                stage_of_ctx(ctx, j + 1)
            },
            None => stage_of_ctx(ctx, j + 1),
        }
    }
}

/// The stage the first JSON error message (from line `i` on) names.
pub open spec fn stage_of_json(ls: Seq<Seq<char>>, i: int) -> Option<FailedStage>
    decreases ls.len() - i,
{
    if i < 0 || i >= ls.len() {
        None
    } else if !has_prefix(ls[i], seq!['{']) {
        stage_of_json(ls, i + 1)
    } else {
        match json_message(ls[i]) {
            Some(m) => if m.level == Some("Error"@) && m.ctx is Some && stage_of_ctx(m.ctx->0, 0) is Some {
                stage_of_ctx(m.ctx->0, 0)
            } else {
                stage_of_json(ls, i + 1)
            },
            None => stage_of_json(ls, i + 1),
        }
    }
}

/// The stage that failed, from F* output: when there is an error, the
/// label of the last dump names it (F* stops at the first error, so the
/// last dump is from the failing stage); else the context of a JSON error
/// does; else, when there is an error at all, it is functional
/// correctness.
pub open spec fn failed_stage(stderr: Seq<char>) -> Option<FailedStage> {
    let dumps = dumps_of(stderr);
    let has_error = contains(stderr, "Error"@) || contains(stderr, "Assertion failed"@);
    if has_error && dumps.len() > 0 && stage_of_label(dumps.last().label) is Some {
        stage_of_label(dumps.last().label)
    } else {
        match stage_of_json(lines_of(stderr), 0) {
            Some(st) => Some(st),
            None => if has_error { Some(FailedStage::FunctionalCorrectness) } else { None },
        }
    }
}

fn label_stage(l: &[char]) -> (r: Option<FailedStage>)
    ensures
        r == stage_of_label(l@),
{
    if eq_chars(l, chars_of("NORMALISED_GOAL").as_slice()) {
        Some(FailedStage::FunctionalCorrectness)
    } else if eq_chars(l, chars_of("STACK_BOUNDS_GOAL").as_slice()) {
        Some(FailedStage::StackBounds)
    } else if eq_chars(l, chars_of("TYPE_SAFETY_GOAL").as_slice()) {
        Some(FailedStage::TypeSafety)
    } else if eq_chars(l, chars_of("NULL_SAFETY_GOAL").as_slice()) {
        Some(FailedStage::NullSafety)
    } else {
        None
    }
}

fn ctx_stage(ctx: &Vec<Option<String>>) -> (r: Option<FailedStage>)
    ensures
        r == stage_of_ctx(ctx@.map_values(|i: Option<String>| opt_text(i)), 0),
{
    let ghost cv = ctx@.map_values(|i: Option<String>| opt_text(i));
    let norm = chars_of("assert_norm");
    let sb = chars_of("`let sb_proof`");
    let ts = chars_of("`let ts_proof`");
    let ns = chars_of("`let ns_proof`");
    let mut j: usize = 0;
    while j < ctx.len()
        invariant
            j <= ctx@.len(),
            cv == ctx@.map_values(|i: Option<String>| opt_text(i)),
            norm@ == "assert_norm"@,
            sb@ == "`let sb_proof`"@,
            ts@ == "`let ts_proof`"@,
            ns@ == "`let ns_proof`"@,
            stage_of_ctx(cv, j as int) == stage_of_ctx(cv, 0),
        decreases ctx@.len() - j,
    {
        if let Some(t) = &ctx[j] {
            let tv = chars_of(t.as_str());
            if contains_in(tv.as_slice(), norm.as_slice()) || contains_in(tv.as_slice(), sb.as_slice()) {
                return Some(FailedStage::StackBounds);
            }
            if contains_in(tv.as_slice(), ts.as_slice()) {
                return Some(FailedStage::TypeSafety);
            }
            if contains_in(tv.as_slice(), ns.as_slice()) {
                return Some(FailedStage::NullSafety);
            }
        }
        j = j + 1;
    }
    None
}

fn json_stage(ls: &Vec<Vec<char>>) -> (r: Option<FailedStage>)
    ensures
        r == stage_of_json(ls@.map_values(|l: Vec<char>| l@), 0),
{
    let ghost lv = ls@.map_values(|l: Vec<char>| l@);
    let brace = ['{'];
    assert(brace@ =~= seq!['{']);
    let mut i: usize = 0;
    while i < ls.len()
        invariant
            i <= ls@.len(),
            lv == ls@.map_values(|l: Vec<char>| l@),
            brace@ == seq!['{'],
            stage_of_json(lv, i as int) == stage_of_json(lv, 0),
        decreases ls@.len() - i,
    {
        if starts_with(ls[i].as_slice(), &brace) {
            let line = string_of(ls[i].as_slice());
            if let Some(m) = parse_json_message(line.as_str()) {
                let is_error = match &m.level {
                    Some(l) => eq_chars(chars_of(l.as_str()).as_slice(), chars_of("Error").as_slice()),
                    None => false,
                };
                if is_error {
                    if let Some(ctx) = &m.ctx {
                        if let Some(st) = ctx_stage(ctx) {
                            return Some(st);
                        }
                    }
                }
            }
        }
        i = i + 1;
    }
    None
}

/// Determine which verification stage failed from F* output (see
/// `failed_stage`).
pub fn parse_failed_stage(stderr: &str) -> (r: Option<FailedStage>)
    ensures
        r == failed_stage(stderr@),
{
    let dumps = parse_dumps(stderr);
    let text = chars_of(stderr);
    let has_error = contains_in(text.as_slice(), chars_of("Error").as_slice())
        || contains_in(text.as_slice(), chars_of("Assertion failed").as_slice());
    if has_error && dumps.len() > 0 {
        let last = chars_of(dumps[dumps.len() - 1].label.as_str());
        assert(dumps@.map_values(|d: DumpBlock| d@)[dumps@.len() - 1] == dumps@[dumps@.len() - 1]@);
        let stage = label_stage(last.as_slice());
        if stage.is_some() {
            return stage;
        }
    }
    let ls = lines(text.as_slice());
    match json_stage(&ls) {
        Some(st) => Some(st),
        None => if has_error { Some(FailedStage::FunctionalCorrectness) } else { None },
    }
}

/// The postcondition of a spec file: the body of `let spec`.
#[derive(Debug, Clone)]
pub struct SpecPostcondition {
    /// First line of the body (1-based).
    pub start_line: usize,
    /// Last line of the body (1-based).
    pub end_line: usize,
    pub text: String,
}

/// A postcondition with its text as a character sequence.
pub struct PostView {
    pub start_line: usize,
    pub end_line: usize,
    pub text: Seq<char>,
}

impl View for SpecPostcondition {
    type V = PostView;

    open spec fn view(&self) -> PostView {
        PostView { start_line: self.start_line, end_line: self.end_line, text: self.text@ }
    }
}

/// Whether a line starts the spec definition (`let spec`, indented or not).
pub open spec fn is_spec_line(l: Seq<char>) -> bool {
    has_prefix(trim_start(l), "let spec"@)
}

/// Index of the first line, from `i` on, that starts the spec.
pub open spec fn spec_line_from(ls: Seq<Seq<char>>, i: int) -> Option<int>
    decreases ls.len() - i,
{
    if i < 0 || i >= ls.len() { None } else if is_spec_line(ls[i]) { Some(i) } else { spec_line_from(ls, i + 1) }
}

/// Whether a line ends the spec's body: a blank line, or another
/// unindented definition.
pub open spec fn ends_body(l: Seq<char>) -> bool {
    trim(l).len() == 0 || (has_prefix(l, "let "@) && !is_spec_line(l))
}

/// Number of body lines from line `j` on.
pub open spec fn body_len(ls: Seq<Seq<char>>, j: int) -> nat
    decreases ls.len() - j,
{
    if j < 0 || j >= ls.len() || ends_body(ls[j]) { 0 } else { 1 + body_len(ls, j + 1) }
}

/// The postcondition of a spec: the lines after the first `let spec` up to
/// the end of its body, or the `let spec` line itself when the body is on
/// it.
pub open spec fn postcondition_of(content: Seq<char>) -> Option<PostView> {
    let ls = lines_of(content);
    match spec_line_from(ls, 0) {
        Some(i) => {
            let k = body_len(ls, i + 1);
            if k == 0 {
                Some(PostView { start_line: (i + 1) as usize, end_line: (i + 1) as usize, text: ls[i] })
            } else {
                Some(PostView {
                    start_line: (i + 2) as usize,
                    end_line: (i + 1 + k) as usize,
                    text: join_with(ls.subrange(i + 1, i + 1 + k), seq!['\n']),
                })
            }
        },
        None => None,
    }
}

proof fn lemma_spec_line_from(ls: Seq<Seq<char>>, i: int)
    requires
        0 <= i,
    ensures
        spec_line_from(ls, i) matches Some(k) ==> i <= k < ls.len() && is_spec_line(ls[k]),
    decreases ls.len() - i,
{
    if i < ls.len() && !is_spec_line(ls[i]) {
        lemma_spec_line_from(ls, i + 1);
    }
}

/// Extract the postcondition of a spec file (see `postcondition_of`).
pub fn extract_postcondition(spec_content: &str) -> (r: Option<SpecPostcondition>)
    ensures
        match r {
            Some(p) => postcondition_of(spec_content@) == Some(p@),
            None => postcondition_of(spec_content@) is None,
        },
{
    let text = chars_of(spec_content);
    let ls = lines(text.as_slice());
    let ghost lv = ls@.map_values(|l: Vec<char>| l@);
    let let_spec = chars_of("let spec");
    let let_kw = chars_of("let ");
    let n = ls.len();
    let mut i: usize = 0;
    while i < n
        invariant
            n == ls@.len(),
            i <= n,
            lv == ls@.map_values(|l: Vec<char>| l@),
            lv == lines_of(spec_content@),
            let_spec@ == "let spec"@,
            let_kw@ == "let "@,
            spec_line_from(lv, i as int) == spec_line_from(lv, 0),
        decreases n - i,
    {
        let line = ls[i].as_slice();
        if starts_with(trim_start_of(line).as_slice(), let_spec.as_slice()) {
            // Collect the body lines after the header.
            let mut body: Vec<Vec<char>> = Vec::new();
            let mut j: usize = i + 1;
            while j < n
                invariant
                    n == ls@.len(),
                    i < j <= n,
                    lv == ls@.map_values(|l: Vec<char>| l@),
                    let_spec@ == "let spec"@,
                    let_kw@ == "let "@,
                    body@.map_values(|l: Vec<char>| l@) == lv.subrange(i + 1, j as int),
                    body_len(lv, i + 1) == (j - (i + 1)) + body_len(lv, j as int),
                ensures
                    j == n || ends_body(lv[j as int]),
                decreases n - j,
            {
                let next = ls[j].as_slice();
                if trim_of(next).len() == 0 {
                    break;
                }
                if starts_with(next, let_kw.as_slice()) && !starts_with(trim_start_of(next).as_slice(), let_spec.as_slice()) {
                    break;
                }
                let ghost b0 = body@.map_values(|l: Vec<char>| l@);
                body.push(slice_of(next, 0, next.len()));
                assert(body@.map_values(|l: Vec<char>| l@) =~= lv.subrange(i + 1, j + 1)) by {
                    assert(lv.subrange(i + 1, j + 1) =~= lv.subrange(i + 1, j as int).push(lv[j as int]));
                    assert(next@.subrange(0, next@.len() as int) =~= next@);
                }
                j = j + 1;
            }
            let ghost k = body_len(lv, i + 1);
            assert(j == n || ends_body(lv[j as int]) ==> body_len(lv, j as int) == 0);
            if body.len() == 0 {
                return Some(SpecPostcondition { start_line: i + 1, end_line: i + 1, text: string_of(line) });
            }
            let nl = ['\n'];
            assert(nl@ =~= seq!['\n']);
            let joined = join_of(&body, &nl);
            return Some(SpecPostcondition { start_line: i + 2, end_line: i + 1 + body.len(), text: string_of(joined.as_slice()) });
        }
        i = i + 1;
    }
    None
}

/// An instruction from the generated F* source with its index and source
/// location.
#[derive(Debug, Clone)]
pub struct InstructionInfo {
    pub pc: usize,
    pub instruction: String,
    pub source_loc: Option<String>,
}

/// An instruction record with its texts as character sequences.
pub struct InfoView {
    pub pc: usize,
    pub instruction: Seq<char>,
    pub source_loc: Option<Seq<char>>,
}

impl View for InstructionInfo {
    type V = InfoView;

    open spec fn view(&self) -> InfoView {
        InfoView { pc: self.pc, instruction: self.instruction@, source_loc: opt_text(self.source_loc) }
    }
}

/// Index of the first dump, from `k` on, with the given label.
pub open spec fn dump_with_label(ds: Seq<DumpView>, label: Seq<char>, k: int) -> Option<int>
    decreases ds.len() - k,
{
    if k < 0 || k >= ds.len() { None } else if ds[k].label == label { Some(k) } else { dump_with_label(ds, label, k + 1) }
}

/// The instruction index of the `R0_ORIGIN` dump: the number after the
/// last ` == ` of its goal (closing parentheses and blanks dropped).
pub open spec fn r0_origin_of(ds: Seq<DumpView>) -> Option<usize> {
    match dump_with_label(ds, "R0_ORIGIN"@, 0) {
        Some(k) => {
            let goal = trim(ds[k].goal);
            match rfind(goal, " == "@) {
                Some(e) => parse_usize(trim(trim_end_char(trim(goal.skip(e + 4)), ')'))),
                None => None,
            }
        },
        None => None,
    }
}

proof fn lemma_dump_with_label(ds: Seq<DumpView>, label: Seq<char>, k: int)
    requires
        0 <= k,
    ensures
        dump_with_label(ds, label, k) matches Some(i) ==> k <= i < ds.len() && ds[i].label == label,
    decreases ds.len() - k,
{
    if k < ds.len() && ds[k].label != label {
        lemma_dump_with_label(ds, label, k + 1);
    }
}

fn find_dump(dumps: &[DumpBlock], label: &[char]) -> (r: Option<usize>)
    ensures
        match r {
            Some(k) => dump_with_label(dumps@.map_values(|d: DumpBlock| d@), label@, 0) == Some(k as int),
            None => dump_with_label(dumps@.map_values(|d: DumpBlock| d@), label@, 0) is None,
        },
{
    let ghost dv = dumps@.map_values(|d: DumpBlock| d@);
    let mut k: usize = 0;
    while k < dumps.len()
        invariant
            k <= dumps@.len(),
            dv == dumps@.map_values(|d: DumpBlock| d@),
            dump_with_label(dv, label@, k as int) == dump_with_label(dv, label@, 0),
        decreases dumps@.len() - k,
    {
        assert(dv[k as int] == dumps@[k as int]@);
        if eq_chars(chars_of(dumps[k].label.as_str()).as_slice(), label) {
            return Some(k);
        }
        k = k + 1;
    }
    None
}

/// The instruction index that set r0, from the `R0_ORIGIN` dump (see
/// `r0_origin_of`).
pub fn extract_r0_origin(dumps: &[DumpBlock]) -> (r: Option<usize>)
    ensures
        r == r0_origin_of(dumps@.map_values(|d: DumpBlock| d@)),
{
    let ghost dv = dumps@.map_values(|d: DumpBlock| d@);
    let label = chars_of("R0_ORIGIN");
    let k = find_dump(dumps, label.as_slice())?;
    proof { lemma_dump_with_label(dv, label@, 0); }
    assert(dv[k as int] == dumps@[k as int]@);
    let goal = trim_of(chars_of(dumps[k].goal.as_str()).as_slice());
    let eq = chars_of(" == ");
    let glen = goal.len();
    let e = rfind_in(goal.as_slice(), eq.as_slice())?;
    proof {
        crate::verify::scan::lemma_rfind_upto_bounds(goal@, eq@, goal@.len() - eq@.len());
        reveal_strlit(" == ");
    }
    let after = slice_of(goal.as_slice(), e + 4, glen);
    assert(after@ =~= goal@.skip(e + 4));
    let t1 = trim_of(after.as_slice());
    let t2 = trim_end_char_of(t1.as_slice(), ')');
    let t3 = trim_of(t2.as_slice());
    parse_usize_of(t3.as_slice())
}

/// Whether a line of generated source holds an instruction.
pub open spec fn is_insn_line(l: Seq<char>) -> bool {
    has_prefix(trim(l), "BPF_"@)
}

/// Index of the line holding instruction number `pc`, counting from line
/// `i` with `seen` instruction lines before it.
pub open spec fn insn_line_from(ls: Seq<Seq<char>>, i: int, seen: nat, pc: nat) -> Option<int>
    decreases ls.len() - i,
{
    if i < 0 || i >= ls.len() {
        None
    } else if !is_insn_line(ls[i]) {
        insn_line_from(ls, i + 1, seen, pc)
    } else if seen == pc {
        Some(i)
    } else {
        insn_line_from(ls, i + 1, seen + 1, pc)
    }
}

/// The instruction and source location of a trimmed instruction line:
/// a trailing `(* loc *)` comment gives the location; `;` and blanks are
/// dropped from the instruction.
pub open spec fn info_of(t: Seq<char>, pc: usize) -> InfoView {
    match (find(t, "(* "@), rfind(t, " *)"@)) {
        (Some(a), Some(b)) => if b > a {
            InfoView { pc, instruction: trim(trim_end_char(trim(t.take(a)), ';')), source_loc: Some(trim(t.subrange(a + 3, b))) }
        } else {
            InfoView { pc, instruction: trim(trim_end_char(t, ';')), source_loc: None }
        },
        _ => InfoView { pc, instruction: trim(trim_end_char(t, ';')), source_loc: None },
    }
}

/// Whether an instruction line holds a comment `(* *)` that is empty and
/// too short to read a location from.
pub open spec fn has_short_comment(t: Seq<char>) -> bool {
    match (find(t, "(* "@), rfind(t, " *)"@)) {
        (Some(a), Some(b)) => a < b < a + 3,
        _ => false,
    }
}

/// The instruction numbered `pc` in generated F* source, counting the
/// lines that start (after blanks) with `BPF_`.
pub open spec fn insn_info_of(src: Seq<char>, pc: usize) -> Option<InfoView> {
    let ls = lines_of(src);
    match insn_line_from(ls, 0, 0, pc as nat) {
        Some(i) => Some(info_of(trim(ls[i]), pc)),
        None => None,
    }
}

proof fn lemma_insn_line_from(ls: Seq<Seq<char>>, i: int, seen: nat, pc: nat)
    requires
        0 <= i,
    ensures
        insn_line_from(ls, i, seen, pc) matches Some(k) ==> i <= k < ls.len() && is_insn_line(ls[k]),
    decreases ls.len() - i,
{
    if i < ls.len() {
        if !is_insn_line(ls[i]) {
            lemma_insn_line_from(ls, i + 1, seen, pc);
        } else if seen != pc {
            lemma_insn_line_from(ls, i + 1, seen + 1, pc);
        }
    }
}

fn info_from_line(t: &[char], pc: usize) -> (r: InstructionInfo)
    requires
        !has_short_comment(t@),
    ensures
        r@ == info_of(t@, pc),
{
    let open = chars_of("(* ");
    let close = chars_of(" *)");
    let n = t.len();
    proof {
        reveal_strlit("(* ");
        reveal_strlit(" *)");
    }
    match (find_in(t, open.as_slice()), rfind_in(t, close.as_slice())) {
        (Some(a), Some(b)) => {
            proof {
                crate::verify::scan::lemma_find_from_bounds(t@, open@, 0);
                crate::verify::scan::lemma_rfind_upto_bounds(t@, close@, t@.len() - close@.len());
            }
            if b > a {
                let head = slice_of(t, 0, a);
                assert(head@ =~= t@.take(a as int));
                let insn = trim_of(trim_end_char_of(trim_of(head.as_slice()).as_slice(), ';').as_slice());
                let loc = trim_of(slice_of(t, a + 3, b).as_slice());
                return InstructionInfo { pc, instruction: string_of(insn.as_slice()), source_loc: Some(string_of(loc.as_slice())) };
            }
        },
        _ => {},
    }
    let insn = trim_of(trim_end_char_of(t, ';').as_slice());
    InstructionInfo { pc, instruction: string_of(insn.as_slice()), source_loc: None }
}

/// Whether the instruction line numbered `pc` of `src`, where there is
/// one, has no empty `(* *)` comment (see `has_short_comment`).
pub open spec fn pc_line_readable(src: Seq<char>, pc: usize) -> bool {
    match insn_line_from(lines_of(src), 0, 0, pc as nat) {
        Some(i) => !has_short_comment(trim(lines_of(src)[i])),
        None => true,
    }
}

/// Whether the line a failed run's `R0_ORIGIN` dump names can be read:
/// where `stderr` tells a failed stage and names an instruction, that
/// instruction's line in `generated` is readable.
pub open spec fn r0_line_readable(stderr: Seq<char>, generated: Seq<char>) -> bool {
    failed_stage(stderr) is Some ==> (r0_origin_of(dumps_of(stderr)) matches Some(pc) ==> pc_line_readable(
        generated,
        pc,
    ))
}

/// Whether the instruction line numbered `pc` can be read (see
/// `pc_line_readable`).
pub fn insn_line_readable(generated_source: &str, pc: usize) -> (b: bool)
    ensures
        b == pc_line_readable(generated_source@, pc),
{
    let text = chars_of(generated_source);
    let ls = lines(text.as_slice());
    let ghost lv = ls@.map_values(|l: Vec<char>| l@);
    let bpf = chars_of("BPF_");
    let open = chars_of("(* ");
    let close = chars_of(" *)");
    let mut current: usize = 0;
    let mut i: usize = 0;
    while i < ls.len()
        invariant
            i <= ls@.len(),
            current <= i,
            current <= pc,
            lv == ls@.map_values(|l: Vec<char>| l@),
            lv == lines_of(generated_source@),
            bpf@ == "BPF_"@,
            open@ == "(* "@,
            close@ == " *)"@,
            insn_line_from(lv, i as int, current as nat, pc as nat) == insn_line_from(lv, 0, 0, pc as nat),
        decreases ls@.len() - i,
    {
        assert(lv[i as int] == ls@[i as int]@);
        let t = trim_of(ls[i].as_slice());
        if starts_with(t.as_slice(), bpf.as_slice()) {
            if current == pc {
                return match (find_in(t.as_slice(), open.as_slice()), rfind_in(t.as_slice(), close.as_slice())) {
                    (Some(a), Some(b)) => !(a < b && b - a < 3),
                    _ => true,
                };
            }
            current = current + 1;
        }
        i = i + 1;
    }
    true
}

/// Whether the diagnostic of a failed run can be built from F*'s output
/// and the generated module (see `r0_line_readable`).
pub fn r0_origin_readable(stderr: &str, generated_source: &str) -> (b: bool)
    ensures
        b == r0_line_readable(stderr@, generated_source@),
{
    if parse_failed_stage(stderr).is_none() {
        return true;
    }
    let dumps = parse_dumps(stderr);
    match extract_r0_origin(dumps.as_slice()) {
        Some(pc) => insn_line_readable(generated_source, pc),
        None => true,
    }
}

/// Look up instruction number `pc` in generated F* source (see
/// `insn_info_of`). That instruction's line must not hold an empty `(* *)`
/// comment, which leaves no location to read.
pub fn extract_instruction_at_pc(generated_source: &str, pc: usize) -> (r: Option<InstructionInfo>)
    requires
        pc_line_readable(generated_source@, pc),
    ensures
        match r {
            Some(info) => insn_info_of(generated_source@, pc) == Some(info@),
            None => insn_info_of(generated_source@, pc) is None,
        },
{
    let text = chars_of(generated_source);
    let ls = lines(text.as_slice());
    let ghost lv = ls@.map_values(|l: Vec<char>| l@);
    let bpf = chars_of("BPF_");
    let mut current: usize = 0;
    let mut i: usize = 0;
    while i < ls.len()
        invariant
            i <= ls@.len(),
            current <= i,
            lv == ls@.map_values(|l: Vec<char>| l@),
            lv == lines_of(generated_source@),
            bpf@ == "BPF_"@,
            pc_line_readable(generated_source@, pc),
            current <= pc ==> insn_line_from(lv, i as int, current as nat, pc as nat) == insn_line_from(lv, 0, 0, pc as nat),
            current <= pc,
        decreases ls@.len() - i,
    {
        assert(lv[i as int] == ls@[i as int]@);
        let trimmed = trim_of(ls[i].as_slice());
        if starts_with(trimmed.as_slice(), bpf.as_slice()) {
            if current == pc {
                return Some(info_from_line(trimmed.as_slice(), pc));
            }
            current = current + 1;
        }
        i = i + 1;
    }
    None
}

/// A conjunct of the normalised postcondition, with the index of the
/// disjunct it belongs to.
#[derive(Debug, Clone)]
pub struct ConjunctInfo {
    pub disjunct: usize,
    pub text: String,
}

/// A conjunct with its text as a character sequence.
pub struct ConjView {
    pub disjunct: usize,
    pub text: Seq<char>,
}

impl View for ConjunctInfo {
    type V = ConjView;

    open spec fn view(&self) -> ConjView {
        ConjView { disjunct: self.disjunct, text: self.text@ }
    }
}

/// Position of the `)` closing the `(` counted by `depth`, scanning from `k`.
pub open spec fn close_from(s: Seq<char>, k: int, depth: int) -> Option<int>
    decreases s.len() - k,
{
    if k < 0 || k >= s.len() {
        None
    } else if s[k] == '(' {
        close_from(s, k + 1, depth + 1)
    } else if s[k] == ')' {
        if depth - 1 == 0 { Some(k) } else { close_from(s, k + 1, depth - 1) }
    } else {
        close_from(s, k + 1, depth)
    }
}

/// Position of the `)` matching the `(` that starts `s`.
pub open spec fn matching_close(s: Seq<char>) -> Option<int> {
    close_from(s, 0, 0)
}

proof fn lemma_close_from(s: Seq<char>, k: int, depth: int)
    requires
        0 <= k,
    ensures
        close_from(s, k, depth) matches Some(c) ==> k <= c < s.len(),
    decreases s.len() - k,
{
    if k < s.len() {
        if s[k] == '(' {
            lemma_close_from(s, k + 1, depth + 1);
        } else if s[k] == ')' {
            lemma_close_from(s, k + 1, depth - 1);
        } else {
            lemma_close_from(s, k + 1, depth);
        }
    }
}

/// Find the `)` matching the `(` at the start of `s`.
fn find_matching_close(s: &[char]) -> (r: Option<usize>)
    requires
        s@.len() > 0,
        s@[0] == '(',
    ensures
        r matches Some(c) ==> matching_close(s@) == Some(c as int) && c < s@.len(),
        r is None ==> matching_close(s@) is None,
{
    let mut depth: usize = 1;
    let mut k: usize = 1;
    assert(close_from(s@, 0, 0) == close_from(s@, 1, 1));
    while k < s.len()
        invariant
            1 <= k <= s@.len(),
            1 <= depth <= k,
            close_from(s@, k as int, depth as int) == matching_close(s@),
        decreases s@.len() - k,
    {
        if s[k] == '(' {
            depth = depth + 1;
        } else if s[k] == ')' {
            if depth == 1 {
                return Some(k);
            }
            depth = depth - 1;
        }
        k = k + 1;
    }
    None
}

/// The rest of `s` after a parenthesised group, or after the first bare
/// token and its blank.
pub open spec fn skip_group(s: Seq<char>) -> Option<Seq<char>> {
    if s.len() > 0 && s[0] == '(' {
        match matching_close(s) {
            Some(c) => Some(s.skip(c + 1)),
            None => None,
        }
    } else {
        match find(s, seq![' ']) {
            Some(p) => Some(s.skip(p + 1)),
            None => None,
        }
    }
}

fn skip_parens(s: &[char]) -> (r: Option<Vec<char>>)
    ensures
        match r {
            Some(v) => skip_group(s@) == Some(v@),
            None => skip_group(s@) is None,
        },
{
    let n = s.len();
    if n > 0 && s[0] == '(' {
        let c = find_matching_close(s)?;
        Some(slice_of(s, c + 1, n))
    } else {
        let sp = [' '];
        assert(sp@ =~= seq![' ']);
        let p = find_in(s, &sp)?;
        proof { crate::verify::scan::lemma_find_from_bounds(s@, sp@, 0); }
        let r = slice_of(s, p + 1, n);
        Some(r)
    }
}

/// The two terms of `(<first>) (<second>)`: the contents of the first
/// group, and the second with its parentheses (if any) removed.
pub open spec fn top_terms(s: Seq<char>) -> Option<(Seq<char>, Seq<char>)> {
    if !(s.len() > 0 && s[0] == '(') {
        None
    } else {
        match matching_close(s) {
            Some(c) => {
                let rest = trim_start(s.skip(c + 1));
                let second = if rest.len() >= 2 && rest[0] == '(' && rest.last() == ')' {
                    rest.subrange(1, rest.len() - 1)
                } else {
                    rest
                };
                Some((s.subrange(1, c), second))
            },
            None => None,
        }
    }
}

fn split_top_level_terms(s: &[char]) -> (r: Option<(Vec<char>, Vec<char>)>)
    ensures
        match r {
            Some((a, b)) => top_terms(s@) == Some((a@, b@)),
            None => top_terms(s@) is None,
        },
{
    let n = s.len();
    if !(n > 0 && s[0] == '(') {
        return None;
    }
    let c = find_matching_close(s)?;
    proof {
        assert(close_from(s@, 0, 0) == close_from(s@, 1, 1));
        lemma_close_from(s@, 1, 1);
    }
    let first = slice_of(s, 1, c);
    let after = slice_of(s, c + 1, n);
    let rest = trim_start_of(after.as_slice());
    let m = rest.len();
    let second = if m >= 2 && rest[0] == '(' && rest[m - 1] == ')' {
        slice_of(rest.as_slice(), 1, m - 1)
    } else {
        slice_of(rest.as_slice(), 0, m)
    };
    assert(rest@.subrange(0, m as int) =~= rest@);
    Some((first, second))
}

/// Position of the last character of `s` before `k` that is not a digit.
pub open spec fn last_non_digit(s: Seq<char>, k: int) -> Option<int>
    decreases k,
{
    if k <= 0 {
        None
    } else if !('0' <= s[k - 1] <= '9') {
        Some(k - 1)
    } else {
        last_non_digit(s, k - 1)
    }
}

/// The access widths, widest first.
pub open spec fn widths() -> Seq<Seq<char>> {
    seq!["W64"@, "W32"@, "W16"@, "W8"@]
}

/// The offset before the first occurrence of width `w` in a ring buffer
/// read: the digits ending right before it.
pub open spec fn read_offset(s: Seq<char>, w: Seq<char>) -> Option<Seq<char>> {
    match find(s, w) {
        Some(p) => {
            let before = trim(s.take(p));
            match last_non_digit(before, before.len() as int) {
                Some(o) => {
                    let off = trim(before.skip(o + 1));
                    if off.len() > 0 { Some(off) } else { None }
                },
                None => None,
            }
        },
        None => None,
    }
}

/// The ring buffer read a term tests, by the first width (from `k` on)
/// with an offset before it.
pub open spec fn read_term(s: Seq<char>, k: int) -> Seq<char>
    decreases 4 - k,
{
    if k < 0 || k >= 4 {
        "Some? (ringbuf_read_any rb ...)"@
    } else {
        match read_offset(s, widths()[k]) {
            Some(off) => "Some? (ringbuf_read_any rb "@ + off + seq![' '] + widths()[k] + seq![')'],
            None => read_term(s, k + 1),
        }
    }
}

/// A normalised F* term as shown to users: `Scalar N` as `N`, a test
/// that a ring buffer read succeeds as `Some? (ringbuf_read_any rb off W)`,
/// a list length as the ring buffer write count, and long terms cut to
/// 77 characters and `...`.
pub open spec fn simple_term(s: Seq<char>) -> Seq<char> {
    if has_prefix(s, "Scalar "@) {
        s.skip(7)
    } else if contains(s, "ringbuf_read_any"@) && contains(s, "Some _"@) {
        read_term(s, 0)
    } else if contains(s, "List.Tot.Base.length"@) {
        "ringbuf_write_count rb"@
    } else if s == "true"@ || s == "false"@ {
        s
    } else if s.len() > 80 {
        s.take(77) + "..."@
    } else {
        s
    }
}

/// A normalised conjunct as shown to users: `Eq (type) (lhs) (rhs)` as
/// `lhs == rhs` (or just `lhs` for `Some? ... == true`), both sides
/// simplified; any other conjunct simplified as a term.
pub open spec fn simple_conjunct(text: Seq<char>) -> Seq<char> {
    if has_prefix(text, "Eq "@) && skip_group(text.skip(3)) is Some
        && top_terms(trim_start(skip_group(text.skip(3))->0)) is Some {
        let (l, r) = top_terms(trim_start(skip_group(text.skip(3))->0))->0;
        let ls = simple_term(trim(l));
        let rs = simple_term(trim(r));
        if rs == "true"@ && has_prefix(ls, "Some?"@) { ls } else { ls + " == "@ + rs }
    } else {
        simple_term(text)
    }
}

fn read_offset_of(s: &[char], w: &[char]) -> (r: Option<Vec<char>>)
    ensures
        match r {
            Some(o) => read_offset(s@, w@) == Some(o@),
            None => read_offset(s@, w@) is None,
        },
{
    let p = find_in(s, w)?;
    proof { crate::verify::scan::lemma_find_from_bounds(s@, w@, 0); }
    let head = slice_of(s, 0, p);
    assert(head@ =~= s@.take(p as int));
    let before = trim_of(head.as_slice());
    let mut k: usize = before.len();
    while k > 0 && '0' <= before[k - 1] && before[k - 1] <= '9'
        invariant
            k <= before@.len(),
            last_non_digit(before@, k as int) == last_non_digit(before@, before@.len() as int),
        decreases k,
    {
        k = k - 1;
    }
    if k == 0 {
        return None;
    }
    let tail = slice_of(before.as_slice(), k, before.len());
    assert(tail@ =~= before@.skip(k as int));
    let off = trim_of(tail.as_slice());
    if off.len() > 0 { Some(off) } else { None }
}

/// Simplify a single normalised F* term for display (see `simple_term`).
fn simplify_term(s: &[char]) -> (r: Vec<char>)
    ensures
        r@ == simple_term(s@),
{
    let n = s.len();
    let scalar = chars_of("Scalar ");
    proof { reveal_strlit("Scalar "); }
    if starts_with(s, scalar.as_slice()) {
        return slice_of(s, 7, n);
    }
    if contains_in(s, chars_of("ringbuf_read_any").as_slice()) && contains_in(s, chars_of("Some _").as_slice()) {
        let ws = [chars_of("W64"), chars_of("W32"), chars_of("W16"), chars_of("W8")];
        let mut k: usize = 0;
        while k < 4
            invariant
                k <= 4,
                forall|j: int| 0 <= j < 4 ==> (#[trigger] ws@[j])@ == widths()[j],
                read_term(s@, k as int) == read_term(s@, 0),
                !has_prefix(s@, "Scalar "@),
                contains(s@, "ringbuf_read_any"@) && contains(s@, "Some _"@),
            decreases 4 - k,
        {
            if let Some(off) = read_offset_of(s, ws[k].as_slice()) {
                let mut r = chars_of("Some? (ringbuf_read_any rb ");
                crate::verify::scan::append(&mut r, off.as_slice());
                r.push(' ');
                crate::verify::scan::append(&mut r, ws[k].as_slice());
                r.push(')');
                assert(r@ =~= "Some? (ringbuf_read_any rb "@ + off@ + seq![' '] + widths()[k as int] + seq![')']);
                assert(read_term(s@, k as int) == "Some? (ringbuf_read_any rb "@ + off@ + seq![' '] + widths()[k as int] + seq![')']);
                assert(simple_term(s@) == read_term(s@, 0));
                return r;
            }
            k = k + 1;
        }
        return chars_of("Some? (ringbuf_read_any rb ...)");
    }
    if contains_in(s, chars_of("List.Tot.Base.length").as_slice()) {
        return chars_of("ringbuf_write_count rb");
    }
    if eq_chars(s, chars_of("true").as_slice()) || eq_chars(s, chars_of("false").as_slice()) {
        return slice_of(s, 0, n);
    }
    if n > 80 {
        let mut r = slice_of(s, 0, 77);
        crate::verify::scan::append(&mut r, chars_of("...").as_slice());
        assert(r@ =~= s@.take(77) + "..."@);
        return r;
    }
    let r = slice_of(s, 0, n);
    assert(r@ =~= s@);
    r
}

/// Simplify a normalised F* conjunct for display (see `simple_conjunct`).
pub fn simplify_conjunct(text: &str) -> (r: String)
    ensures
        r@ == simple_conjunct(text@),
{
    let t = chars_of(text);
    let n = t.len();
    let eq_kw = chars_of("Eq ");
    proof { reveal_strlit("Eq "); }
    if starts_with(t.as_slice(), eq_kw.as_slice()) {
        let rest = slice_of(t.as_slice(), 3, n);
        assert(rest@ =~= t@.skip(3));
        if let Some(after) = skip_parens(rest.as_slice()) {
            let after = trim_start_of(after.as_slice());
            if let Some((l, r)) = split_top_level_terms(after.as_slice()) {
                let ls = simplify_term(trim_of(l.as_slice()).as_slice());
                let rs = simplify_term(trim_of(r.as_slice()).as_slice());
                if eq_chars(rs.as_slice(), chars_of("true").as_slice()) && starts_with(ls.as_slice(), chars_of("Some?").as_slice()) {
                    return string_of(ls.as_slice());
                }
                let mut out = ls;
                crate::verify::scan::append(&mut out, chars_of(" == ").as_slice());
                crate::verify::scan::append(&mut out, rs.as_slice());
                return string_of(out.as_slice());
            }
        }
    }
    string_of(simplify_term(t.as_slice()).as_slice())
}

/// Whether a simplified conjunct `lhs == rhs` has equal sides.
pub open spec fn trivially_true(text: Seq<char>) -> bool {
    match find(text, " == "@) {
        Some(p) => text.take(p) == text.skip(p + 4),
        None => false,
    }
}

/// Whether a simplified conjunct is trivially true (both sides equal).
pub fn is_trivially_true(text: &str) -> (b: bool)
    ensures
        b == trivially_true(text@),
{
    let t = chars_of(text);
    let n = t.len();
    let eq = chars_of(" == ");
    proof { reveal_strlit(" == "); }
    match find_in(t.as_slice(), eq.as_slice()) {
        Some(p) => {
            proof { crate::verify::scan::lemma_find_from_bounds(t@, eq@, 0); }
            let l = slice_of(t.as_slice(), 0, p);
            let r = slice_of(t.as_slice(), p + 4, n);
            assert(l@ =~= t@.take(p as int));
            assert(r@ =~= t@.skip(p + 4));
            eq_chars(l.as_slice(), r.as_slice())
        },
        None => false,
    }
}

/// The conjunct of a tactic output line `TAC>> CONJUNCT|<disjunct>|<text>`
/// (or without the `TAC>> `), with its text simplified.
pub open spec fn conjunct_of(l: Seq<char>) -> Option<ConjView> {
    let rest = if has_prefix(l, "TAC>> CONJUNCT|"@) {
        Some(l.skip(15))
    } else if has_prefix(l, "CONJUNCT|"@) {
        Some(l.skip(9))
    } else {
        None
    };
    match rest {
        Some(r) => match find(r, seq!['|']) {
            Some(p) => match parse_usize(r.take(p)) {
                Some(d) => Some(ConjView { disjunct: d, text: simple_conjunct(r.skip(p + 1)) }),
                None => None,
            },
            None => None,
        },
        None => None,
    }
}

/// The conjuncts of lines `i..`.
pub open spec fn conjuncts_from(ls: Seq<Seq<char>>, i: int) -> Seq<ConjView>
    decreases ls.len() - i,
{
    if i < 0 || i >= ls.len() {
        Seq::empty()
    } else {
        match conjunct_of(ls[i]) {
            Some(c) => seq![c] + conjuncts_from(ls, i + 1),
            None => conjuncts_from(ls, i + 1),
        }
    }
}

fn conjunct_from_line(l: &[char]) -> (r: Option<ConjunctInfo>)
    ensures
        match r {
            Some(c) => conjunct_of(l@) == Some(c@),
            None => conjunct_of(l@) is None,
        },
{
    let n = l.len();
    proof {
        reveal_strlit("TAC>> CONJUNCT|");
        reveal_strlit("CONJUNCT|");
    }
    let rest = if starts_with(l, chars_of("TAC>> CONJUNCT|").as_slice()) {
        slice_of(l, 15, n)
    } else if starts_with(l, chars_of("CONJUNCT|").as_slice()) {
        slice_of(l, 9, n)
    } else {
        return None;
    };
    let bar = ['|'];
    assert(bar@ =~= seq!['|']);
    let m = rest.len();
    let p = find_in(rest.as_slice(), &bar)?;
    proof { crate::verify::scan::lemma_find_from_bounds(rest@, bar@, 0); }
    let idx = slice_of(rest.as_slice(), 0, p);
    assert(idx@ =~= rest@.take(p as int));
    let d = parse_usize_of(idx.as_slice())?;
    let text = slice_of(rest.as_slice(), p + 1, m);
    assert(text@ =~= rest@.skip(p + 1));
    let tx = string_of(text.as_slice());
    Some(ConjunctInfo { disjunct: d, text: simplify_conjunct(tx.as_str()) })
}

/// Parse `CONJUNCT|<disjunct>|<text>` lines from F* tactic output (see
/// `conjuncts_from`).
pub fn parse_conjuncts(stderr: &str) -> (r: Vec<ConjunctInfo>)
    ensures
        r@.map_values(|c: ConjunctInfo| c@) == conjuncts_from(lines_of(stderr@), 0),
{
    let text = chars_of(stderr);
    let ls = lines(text.as_slice());
    let ghost lv = ls@.map_values(|l: Vec<char>| l@);
    let mut out: Vec<ConjunctInfo> = Vec::new();
    let mut i: usize = 0;
    while i < ls.len()
        invariant
            i <= ls@.len(),
            lv == ls@.map_values(|l: Vec<char>| l@),
            lv == lines_of(stderr@),
            out@.map_values(|c: ConjunctInfo| c@) + conjuncts_from(lv, i as int) == conjuncts_from(lv, 0),
        decreases ls@.len() - i,
    {
        let ghost before = out@;
        assert(lv[i as int] == ls@[i as int]@);
        if let Some(c) = conjunct_from_line(ls[i].as_slice()) {
            out.push(c);
            assert(out@.map_values(|c: ConjunctInfo| c@) =~= before.map_values(|c: ConjunctInfo| c@).push(c@));
        }
        i = i + 1;
    }
    assert(out@.map_values(|c: ConjunctInfo| c@) + conjuncts_from(lv, i as int) =~= out@.map_values(|c: ConjunctInfo| c@));
    out
}

/// The text between the first `(` and the next `(` (or the end).
pub open spec fn paren_part(t: Seq<char>) -> Option<Seq<char>> {
    match find(t, seq!['(']) {
        Some(p) => {
            let r = t.skip(p + 1);
            Some(match find(r, seq!['(']) {
                Some(q) => r.take(q),
                None => r,
            })
        },
        None => None,
    }
}

/// The text before the first `,`.
pub open spec fn before_comma(a: Seq<char>) -> Seq<char> {
    match find(a, seq![',']) {
        Some(q) => a.take(q),
        None => a,
    }
}

/// Outcome of reading the messages of a JSON error from `j` on for the
/// spec's line: `Some(r)` ends the search with `r` (a message that is not
/// a string ends it with none; an `Also see:` message naming the spec file
/// gives the number after its first `(`), `None` goes on to the next line.
pub open spec fn msgs_outcome(msgs: Seq<Option<Seq<char>>>, name: Seq<char>, j: int) -> Option<Option<usize>>
    decreases msgs.len() - j,
{
    if j < 0 || j >= msgs.len() {
        None
    } else {
        match msgs[j] {
            None => Some(None),
            Some(t) => if has_prefix(t, "Also see:"@) && contains(t, name) {
                Some(match paren_part(t) {
                    Some(a) => parse_usize(before_comma(a)),
                    None => None,
                })
            } else {
                msgs_outcome(msgs, name, j + 1)
            },
        }
    }
}

/// The spec line F* points at, from the JSON error messages of lines `i..`:
/// an error without messages ends the search with none.
pub open spec fn spec_error_from(ls: Seq<Seq<char>>, name: Seq<char>, i: int) -> Option<usize>
    decreases ls.len() - i,
{
    if i < 0 || i >= ls.len() {
        None
    } else if !has_prefix(ls[i], seq!['{']) {
        spec_error_from(ls, name, i + 1)
    } else {
        match json_message(ls[i]) {
            Some(m) => if m.level != Some("Error"@) {
                spec_error_from(ls, name, i + 1)
            } else {
                match m.msg {
                    None => None,
                    Some(msgs) => match msgs_outcome(msgs, name, 0) {
                        Some(r) => r,
                        None => spec_error_from(ls, name, i + 1),
                    },
                }
            },
            None => spec_error_from(ls, name, i + 1),
        }
    }
}

/// The spec line of the error, for a spec file (see `spec_error_from`).
pub open spec fn spec_error_line(stderr: Seq<char>, spec_file: Option<Seq<char>>) -> Option<usize> {
    match spec_file {
        Some(n) => spec_error_from(lines_of(stderr), n, 0),
        None => None,
    }
}

fn line_number_in(t: &[char]) -> (r: Option<usize>)
    ensures
        r == (match paren_part(t@) {
            Some(a) => parse_usize(before_comma(a)),
            None => None,
        }),
{
    let open = ['('];
    let comma = [','];
    assert(open@ =~= seq!['(']);
    assert(comma@ =~= seq![',']);
    let n = t.len();
    let p = find_in(t, &open)?;
    proof { crate::verify::scan::lemma_find_from_bounds(t@, open@, 0); }
    let r = slice_of(t, p + 1, n);
    assert(r@ =~= t@.skip(p + 1));
    let a = match find_in(r.as_slice(), &open) {
        Some(q) => {
            proof { crate::verify::scan::lemma_find_from_bounds(r@, open@, 0); }
            let a = slice_of(r.as_slice(), 0, q);
            assert(a@ =~= r@.take(q as int));
            a
        },
        None => r,
    };
    let b = match find_in(a.as_slice(), &comma) {
        Some(q) => {
            proof { crate::verify::scan::lemma_find_from_bounds(a@, comma@, 0); }
            let b = slice_of(a.as_slice(), 0, q);
            assert(b@ =~= a@.take(q as int));
            b
        },
        None => a,
    };
    parse_usize_of(b.as_slice())
}

fn msgs_line(msgs: &Vec<Option<String>>, name: &[char]) -> (r: Option<Option<usize>>)
    ensures
        r == msgs_outcome(msgs@.map_values(|i: Option<String>| opt_text(i)), name@, 0),
{
    let ghost mv = msgs@.map_values(|i: Option<String>| opt_text(i));
    let also = chars_of("Also see:");
    let mut j: usize = 0;
    while j < msgs.len()
        invariant
            j <= msgs@.len(),
            mv == msgs@.map_values(|i: Option<String>| opt_text(i)),
            also@ == "Also see:"@,
            msgs_outcome(mv, name@, j as int) == msgs_outcome(mv, name@, 0),
        decreases msgs@.len() - j,
    {
        match &msgs[j] {
            None => {
                return Some(None);
            },
            Some(t) => {
                let tv = chars_of(t.as_str());
                if starts_with(tv.as_slice(), also.as_slice()) && contains_in(tv.as_slice(), name) {
                    return Some(line_number_in(tv.as_slice()));
                }
            },
        }
        j = j + 1;
    }
    None
}

fn parse_spec_error_line(stderr: &str, spec_file: Option<&str>) -> (r: Option<usize>)
    ensures
        r == spec_error_line(stderr@, match spec_file { Some(f) => Some(f@), None => None }),
{
    let name = match spec_file {
        Some(f) => chars_of(f),
        None => {
            return None;
        },
    };
    let text = chars_of(stderr);
    let ls = lines(text.as_slice());
    let ghost lv = ls@.map_values(|l: Vec<char>| l@);
    let brace = ['{'];
    assert(brace@ =~= seq!['{']);
    let mut i: usize = 0;
    while i < ls.len()
        invariant
            i <= ls@.len(),
            lv == ls@.map_values(|l: Vec<char>| l@),
            lv == lines_of(stderr@),
            brace@ == seq!['{'],
            spec_file matches Some(f) && name@ == f@,
            spec_error_from(lv, name@, i as int) == spec_error_from(lv, name@, 0),
        decreases ls@.len() - i,
    {
        assert(lv[i as int] == ls@[i as int]@);
        if starts_with(ls[i].as_slice(), &brace) {
            let line = string_of(ls[i].as_slice());
            if let Some(m) = parse_json_message(line.as_str()) {
                let is_error = match &m.level {
                    Some(l) => eq_chars(chars_of(l.as_str()).as_slice(), chars_of("Error").as_slice()),
                    None => false,
                };
                if is_error {
                    match &m.msg {
                        None => {
                            return None;
                        },
                        Some(msgs) => {
                            if let Some(r) = msgs_line(msgs, name.as_slice()) {
                                return r;
                            }
                        },
                    }
                }
            }
        }
        i = i + 1;
    }
    None
}

/// Complete diagnostic information for a verification failure.
#[derive(Debug)]
pub struct Diagnostic {
    pub stage: FailedStage,
    pub r0_origin: Option<InstructionInfo>,
    pub spec_file: Option<String>,
    pub spec_content: Option<String>,
    pub spec_postcondition: Option<SpecPostcondition>,
    pub spec_error_line: Option<usize>,
    pub c_source_file: Option<String>,
    pub c_source_content: Option<String>,
    pub c_source_line: Option<u32>,
    pub normalised_goal: Option<String>,
    pub conjuncts: Vec<ConjunctInfo>,
}

/// An optional string slice as an optional character sequence.
pub open spec fn opt_str(s: Option<&str>) -> Option<Seq<char>> {
    match s {
        Some(t) => Some(t@),
        None => None,
    }
}

/// An optional instruction record by its view.
pub open spec fn opt_info(i: Option<InstructionInfo>) -> Option<InfoView> {
    match i {
        Some(x) => Some(x@),
        None => None,
    }
}

/// An optional postcondition by its view.
pub open spec fn opt_post(p: Option<SpecPostcondition>) -> Option<PostView> {
    match p {
        Some(x) => Some(x@),
        None => None,
    }
}

/// The instruction that set r0: the index from the `R0_ORIGIN` dump,
/// looked up in the generated source.
pub open spec fn r0_info(stderr: Seq<char>, generated: Seq<char>) -> Option<InfoView> {
    match r0_origin_of(dumps_of(stderr)) {
        Some(pc) => insn_info_of(generated, pc),
        None => None,
    }
}

/// The goal of the first `NORMALISED_GOAL` dump.
pub open spec fn normalised_goal_of(stderr: Seq<char>) -> Option<Seq<char>> {
    match dump_with_label(dumps_of(stderr), "NORMALISED_GOAL"@, 0) {
        Some(k) => Some(dumps_of(stderr)[k].goal),
        None => None,
    }
}

impl Diagnostic {
    /// Build the diagnostic of a failed run from F*'s output, the generated
    /// module and the spec; none when no failing stage can be told.
    pub fn from_fstar_output(
        stderr: &str,
        generated_source: &str,
        spec_file: Option<&str>,
        spec_content: Option<&str>,
    ) -> (r: Option<Self>)
        requires
            r0_line_readable(stderr@, generated_source@),
        ensures
            failed_stage(stderr@) is None ==> r is None,
            failed_stage(stderr@) matches Some(st) ==> r matches Some(d) && {
                &&& d.stage == st
                &&& opt_info(d.r0_origin) == r0_info(stderr@, generated_source@)
                &&& opt_text(d.spec_file) == opt_str(spec_file)
                &&& opt_text(d.spec_content) == opt_str(spec_content)
                &&& opt_post(d.spec_postcondition) == (match spec_content {
                    Some(c) => postcondition_of(c@),
                    None => None,
                })
                &&& d.spec_error_line == spec_error_line(stderr@, opt_str(spec_file))
                &&& d.c_source_file is None && d.c_source_content is None && d.c_source_line is None
                &&& opt_text(d.normalised_goal) == normalised_goal_of(stderr@)
                &&& d.conjuncts@.map_values(|c: ConjunctInfo| c@) == conjuncts_from(lines_of(stderr@), 0)
            },
    {
        let stage = parse_failed_stage(stderr)?;
        let dumps = parse_dumps(stderr);
        let ghost dv = dumps@.map_values(|d: DumpBlock| d@);
        let normalised_goal = match find_dump(dumps.as_slice(), chars_of("NORMALISED_GOAL").as_slice()) {
            Some(k) => {
                proof { lemma_dump_with_label(dv, "NORMALISED_GOAL"@, 0); }
                assert(dv[k as int] == dumps@[k as int]@);
                Some(dumps[k].goal.clone())
            },
            None => None,
        };
        let r0_origin = match extract_r0_origin(dumps.as_slice()) {
            Some(pc) => extract_instruction_at_pc(generated_source, pc),
            None => None,
        };
        let spec_postcondition = match spec_content {
            Some(c) => extract_postcondition(c),
            None => None,
        };
        let spec_error_line = parse_spec_error_line(stderr, spec_file);
        let conjuncts = parse_conjuncts(stderr);
        Some(Diagnostic {
            stage,
            r0_origin,
            spec_file: match spec_file { Some(f) => Some(f.to_owned()), None => None },
            spec_content: match spec_content { Some(c) => Some(c.to_owned()), None => None },
            spec_postcondition,
            spec_error_line,
            c_source_file: None,
            c_source_content: None,
            c_source_line: None,
            normalised_goal,
            conjuncts,
        })
    }

    /// Attach C source context (resolved separately by the caller).
    pub fn with_c_source(self, file: String, content: String, line: u32) -> (r: Self)
        ensures
            r.c_source_file == Some(file),
            r.c_source_content == Some(content),
            r.c_source_line == Some(line),
            r.stage == self.stage,
            r.r0_origin == self.r0_origin,
            r.spec_file == self.spec_file,
            r.spec_content == self.spec_content,
            r.spec_postcondition == self.spec_postcondition,
            r.spec_error_line == self.spec_error_line,
            r.normalised_goal == self.normalised_goal,
            r.conjuncts == self.conjuncts,
    {
        Diagnostic { c_source_file: Some(file), c_source_content: Some(content), c_source_line: Some(line), ..self }
    }
}

/// Name of the access width of a field of `size` bytes.
pub open spec fn width_name(size: u64) -> Option<Seq<char>> {
    if size == 1 {
        Some("W8"@)
    } else if size == 2 {
        Some("W16"@)
    } else if size == 4 {
        Some("W32"@)
    } else if size == 8 {
        Some("W64"@)
    } else {
        None
    }
}

/// Replacements for the first `k` fields of a struct: the ring buffer
/// read at the field's offset and width becomes the field's accessor.
pub open spec fn field_reps(s: StructDef, k: int) -> Seq<(Seq<char>, Seq<char>)>
    decreases k,
{
    if k <= 0 {
        Seq::empty()
    } else {
        let prev = field_reps(s, k - 1);
        let f = s.fields@[k - 1];
        match width_name(f.byte_size) {
            Some(w) => prev.push(("ringbuf_read_any rb "@ + dec_nat(f.offset as nat) + seq![' '] + w,
                s.name@ + seq!['_'] + f.name@ + " rb"@)),
            None => prev,
        }
    }
}

/// Replacements for the fields of the first `k` user-defined structs.
pub open spec fn struct_reps(ss: Seq<StructDef>, k: int) -> Seq<(Seq<char>, Seq<char>)>
    decreases k,
{
    if k <= 0 {
        Seq::empty()
    } else {
        struct_reps(ss, k - 1) + if ss[k - 1].is_user_defined {
            field_reps(ss[k - 1], ss[k - 1].fields@.len() as int)
        } else {
            Seq::empty()
        }
    }
}

/// `s` with every occurrence of `from` (left to right, not overlapping)
/// replaced by `to`.
pub open spec fn replace_all(s: Seq<char>, from: Seq<char>, to: Seq<char>) -> Seq<char>
    decreases s.len(),
{
    if from.len() == 0 {
        s
    } else {
        match find(s, from) {
            Some(p) => if 0 <= p && p + from.len() <= s.len() {
                s.take(p) + to + replace_all(s.skip(p + from.len()), from, to)
            } else {
                s
            },
            None => s,
        }
    }
}

/// `t` after the first `k` replacements, each applied where its pattern
/// occurs.
pub open spec fn apply_reps(t: Seq<char>, reps: Seq<(Seq<char>, Seq<char>)>, k: int) -> Seq<char>
    decreases k,
{
    if k <= 0 {
        t
    } else {
        let t1 = apply_reps(t, reps, k - 1);
        if contains(t1, reps[k - 1].0) { replace_all(t1, reps[k - 1].0, reps[k - 1].1) } else { t1 }
    }
}

fn replace_all_of(s: &[char], from: &[char], to: &[char]) -> (r: Vec<char>)
    requires
        from@.len() > 0,
    ensures
        r@ == replace_all(s@, from@, to@),
{
    let mut out: Vec<char> = Vec::new();
    let mut rest = slice_of(s, 0, s.len());
    assert(rest@ =~= s@);
    loop
        invariant
            from@.len() > 0,
            out@ + replace_all(rest@, from@, to@) == replace_all(s@, from@, to@),
        decreases rest@.len(),
    {
        let n = rest.len();
        match find_in(rest.as_slice(), from) {
            Some(p) => {
                proof { crate::verify::scan::lemma_find_from_bounds(rest@, from@, 0); }
                let head = slice_of(rest.as_slice(), 0, p);
                crate::verify::scan::append(&mut out, head.as_slice());
                crate::verify::scan::append(&mut out, to);
                let next = slice_of(rest.as_slice(), p + from.len(), n);
                assert(head@ =~= rest@.take(p as int));
                assert(next@ =~= rest@.skip(p + from@.len()));
                assert(out@ + replace_all(next@, from@, to@) =~= replace_all(s@, from@, to@));
                rest = next;
            },
            None => {
                crate::verify::scan::append(&mut out, rest.as_slice());
                return out;
            },
        }
    }
}

fn width_of(size: u64) -> (r: Option<&'static str>)
    ensures
        match r {
            Some(w) => width_name(size) == Some(w@),
            None => width_name(size) is None,
        },
{
    if size == 1 {
        Some("W8")
    } else if size == 2 {
        Some("W16")
    } else if size == 4 {
        Some("W32")
    } else if size == 8 {
        Some("W64")
    } else {
        None
    }
}

fn struct_replacements(structs: &[StructDef]) -> (r: Vec<(Vec<char>, Vec<char>)>)
    ensures
        r@.map_values(|p: (Vec<char>, Vec<char>)| (p.0@, p.1@)) == struct_reps(structs@, structs@.len() as int),
        forall|i: int| 0 <= i < r@.len() ==> (#[trigger] r@[i]).0@.len() > 0,
{
    let mut reps: Vec<(Vec<char>, Vec<char>)> = Vec::new();
    let mut k: usize = 0;
    while k < structs.len()
        invariant
            k <= structs@.len(),
            reps@.map_values(|p: (Vec<char>, Vec<char>)| (p.0@, p.1@)) == struct_reps(structs@, k as int),
            forall|i: int| 0 <= i < reps@.len() ==> (#[trigger] reps@[i]).0@.len() > 0,
        decreases structs@.len() - k,
    {
        let st = &structs[k];
        let ghost r0 = reps@.map_values(|p: (Vec<char>, Vec<char>)| (p.0@, p.1@));
        if st.is_user_defined {
            let mut j: usize = 0;
            while j < st.fields.len()
                invariant
                    j <= st.fields@.len(),
                    st == structs@[k as int],
                    st.is_user_defined,
                    reps@.map_values(|p: (Vec<char>, Vec<char>)| (p.0@, p.1@)) == r0 + field_reps(*st, j as int),
                    forall|i: int| 0 <= i < reps@.len() ==> (#[trigger] reps@[i]).0@.len() > 0,
                decreases st.fields@.len() - j,
            {
                let f = &st.fields[j];
                let ghost before = reps@.map_values(|p: (Vec<char>, Vec<char>)| (p.0@, p.1@));
                if let Some(w) = width_of(f.byte_size) {
                    let mut from = String::new();
                    crate::text::push_str(&mut from, "ringbuf_read_any rb ");
                    push_dec_u64(&mut from, f.offset);
                    crate::text::push_char(&mut from, ' ');
                    crate::text::push_str(&mut from, w);
                    let mut to = String::new();
                    crate::text::push_str(&mut to, st.name.as_str());
                    crate::text::push_char(&mut to, '_');
                    crate::text::push_str(&mut to, f.name.as_str());
                    crate::text::push_str(&mut to, " rb");
                    let fv = chars_of(from.as_str());
                    let tv = chars_of(to.as_str());
                    proof { reveal_strlit("ringbuf_read_any rb "); }
                    assert(fv@ =~= "ringbuf_read_any rb "@ + dec_nat(f.offset as nat) + seq![' '] + w@);
                    assert(tv@ =~= st.name@ + seq!['_'] + f.name@ + " rb"@);
                    reps.push((fv, tv));
                    assert(reps@.map_values(|p: (Vec<char>, Vec<char>)| (p.0@, p.1@)) =~= before.push((fv@, tv@)));
                }
                j = j + 1;
            }
        } else {
            assert(r0 + Seq::<(Seq<char>, Seq<char>)>::empty() =~= r0);
        }
        k = k + 1;
    }
    reps
}

fn apply_replacements(t: &[char], reps: &Vec<(Vec<char>, Vec<char>)>) -> (r: Vec<char>)
    requires
        forall|i: int| 0 <= i < reps@.len() ==> (#[trigger] reps@[i]).0@.len() > 0,
    ensures
        r@ == apply_reps(t@, reps@.map_values(|p: (Vec<char>, Vec<char>)| (p.0@, p.1@)), reps@.len() as int),
{
    let ghost rv = reps@.map_values(|p: (Vec<char>, Vec<char>)| (p.0@, p.1@));
    let mut cur = slice_of(t, 0, t.len());
    assert(cur@ =~= t@);
    let mut k: usize = 0;
    while k < reps.len()
        invariant
            k <= reps@.len(),
            rv == reps@.map_values(|p: (Vec<char>, Vec<char>)| (p.0@, p.1@)),
            forall|i: int| 0 <= i < reps@.len() ==> (#[trigger] reps@[i]).0@.len() > 0,
            cur@ == apply_reps(t@, rv, k as int),
        decreases reps@.len() - k,
    {
        assert(rv[k as int] == (reps@[k as int].0@, reps@[k as int].1@));
        if contains_in(cur.as_slice(), reps[k].0.as_slice()) {
            cur = replace_all_of(cur.as_slice(), reps[k].0.as_slice(), reps[k].1.as_slice());
        }
        k = k + 1;
    }
    cur
}

impl Diagnostic {
    /// Replace `ringbuf_read_any rb <offset> <width>` in the conjuncts with
    /// the accessor of the user-defined struct field at that offset and
    /// width (e.g. `syscall_event_syscall_id rb`).
    pub fn with_struct_fields(self, structs: &[StructDef]) -> (r: Self)
        ensures
            r.conjuncts@.len() == self.conjuncts@.len(),
            forall|i: int| 0 <= i < r.conjuncts@.len() ==> (#[trigger] r.conjuncts@[i]).disjunct == self.conjuncts@[i].disjunct
                && r.conjuncts@[i].text@ == apply_reps(self.conjuncts@[i].text@,
                    struct_reps(structs@, structs@.len() as int), struct_reps(structs@, structs@.len() as int).len() as int),
            r.stage == self.stage,
            r.r0_origin == self.r0_origin,
            r.spec_file == self.spec_file,
            r.spec_content == self.spec_content,
            r.spec_postcondition == self.spec_postcondition,
            r.spec_error_line == self.spec_error_line,
            r.c_source_file == self.c_source_file,
            r.c_source_content == self.c_source_content,
            r.c_source_line == self.c_source_line,
            r.normalised_goal == self.normalised_goal,
    {
        let reps = struct_replacements(structs);
        let ghost rv = reps@.map_values(|p: (Vec<char>, Vec<char>)| (p.0@, p.1@));
        let mut conjuncts: Vec<ConjunctInfo> = Vec::new();
        let mut i: usize = 0;
        while i < self.conjuncts.len()
            invariant
                i <= self.conjuncts@.len(),
                conjuncts@.len() == i,
                rv == reps@.map_values(|p: (Vec<char>, Vec<char>)| (p.0@, p.1@)),
                rv == struct_reps(structs@, structs@.len() as int),
                forall|k: int| 0 <= k < reps@.len() ==> (#[trigger] reps@[k]).0@.len() > 0,
                forall|k: int| 0 <= k < i ==> (#[trigger] conjuncts@[k]).disjunct == self.conjuncts@[k].disjunct
                    && conjuncts@[k].text@ == apply_reps(self.conjuncts@[k].text@, rv, rv.len() as int),
            decreases self.conjuncts@.len() - i,
        {
            let c = &self.conjuncts[i];
            let t = apply_replacements(chars_of(c.text.as_str()).as_slice(), &reps);
            conjuncts.push(ConjunctInfo { disjunct: c.disjunct, text: string_of(t.as_slice()) });
            i = i + 1;
        }
        Diagnostic { conjuncts, ..self }
    }
}

/// The conjuncts grouped by disjunct, after the first `k`: group `d` holds
/// the conjuncts of disjunct `d` in order, and there are groups up to the
/// largest disjunct seen.
pub open spec fn grouped(cs: Seq<ConjView>, k: int) -> Seq<Seq<ConjView>>
    decreases k,
{
    if k <= 0 {
        Seq::empty()
    } else {
        let g = grouped(cs, k - 1);
        let d = cs[k - 1].disjunct as int;
        let g2 = if g.len() <= d { g + Seq::new((d + 1 - g.len()) as nat, |i: int| Seq::<ConjView>::empty()) } else { g };
        g2.update(d, g2[d].push(cs[k - 1]))
    }
}

/// Group conjuncts by disjunct (see `grouped`).
pub fn group_by_disjunct(conjuncts: &[ConjunctInfo]) -> (r: Vec<Vec<ConjunctInfo>>)
    ensures
        r@.map_values(|g: Vec<ConjunctInfo>| g@.map_values(|c: ConjunctInfo| c@))
            == grouped(conjuncts@.map_values(|c: ConjunctInfo| c@), conjuncts@.len() as int),
{
    let ghost cv = conjuncts@.map_values(|c: ConjunctInfo| c@);
    let mut groups: Vec<Vec<ConjunctInfo>> = Vec::new();
    let mut k: usize = 0;
    while k < conjuncts.len()
        invariant
            k <= conjuncts@.len(),
            cv == conjuncts@.map_values(|c: ConjunctInfo| c@),
            groups@.map_values(|g: Vec<ConjunctInfo>| g@.map_values(|c: ConjunctInfo| c@)) == grouped(cv, k as int),
        decreases conjuncts@.len() - k,
    {
        let c = &conjuncts[k];
        let d = c.disjunct;
        let ghost g0 = groups@.map_values(|g: Vec<ConjunctInfo>| g@.map_values(|c: ConjunctInfo| c@));
        while groups.len() <= d
            invariant
                g0.len() <= groups@.len(),
                groups@.len() <= g0.len() || groups@.len() <= d + 1,
                forall|i: int| 0 <= i < g0.len() ==> (#[trigger] groups@[i])@.map_values(|c: ConjunctInfo| c@) == g0[i],
                forall|i: int| g0.len() <= i < groups@.len() ==> (#[trigger] groups@[i])@.len() == 0,
            decreases d + 1 - groups@.len(),
        {
            groups.push(Vec::new());
        }
        let ghost g2 = groups@.map_values(|g: Vec<ConjunctInfo>| g@.map_values(|c: ConjunctInfo| c@));
        let ghost want = if g0.len() <= d { g0 + Seq::new((d + 1 - g0.len()) as nat, |i: int| Seq::<ConjView>::empty()) } else { g0 };
        assert(g2.len() == want.len());
        assert forall|i: int| 0 <= i < g2.len() implies g2[i] == want[i] by {
            assert(g2[i] == groups@[i]@.map_values(|c: ConjunctInfo| c@));
            if i >= g0.len() {
                assert(g2[i] =~= Seq::<ConjView>::empty());
            }
        }
        assert(g2 =~= want);
        let mut row: Vec<ConjunctInfo> = Vec::new();
        std::mem::swap(&mut row, &mut groups[d]);
        row.push(ConjunctInfo { disjunct: c.disjunct, text: c.text.clone() });
        groups[d] = row;
        assert(cv[k as int] == c@);
        assert(row@.map_values(|c: ConjunctInfo| c@) =~= g2[d as int].push(cv[k as int]));
        assert(groups@.map_values(|g: Vec<ConjunctInfo>| g@.map_values(|c: ConjunctInfo| c@))
            =~= g2.update(d as int, g2[d as int].push(cv[k as int])));
        k = k + 1;
    }
    groups
}

/// The number of bytes UTF-8 takes for a character.
pub open spec fn char_utf8_len(c: char) -> nat {
    if (c as u32) < 0x80 {
        1
    } else if (c as u32) < 0x800 {
        2
    } else if (c as u32) < 0x10000 {
        3
    } else {
        4
    }
}

/// The number of bytes UTF-8 takes for a text.
pub open spec fn utf8_len(s: Seq<char>) -> nat
    decreases s.len(),
{
    if s.len() == 0 {
        0
    } else {
        utf8_len(s.drop_last()) + char_utf8_len(s.last())
    }
}

/// The bytes the lines take, each with one byte for its newline.
pub open spec fn lines_bytes(ls: Seq<Seq<char>>) -> nat
    decreases ls.len(),
{
    if ls.len() == 0 {
        0
    } else {
        lines_bytes(ls.drop_last()) + utf8_len(ls.last()) + 1
    }
}

/// The byte offset of 1-based line `line` of a text: the bytes of the
/// lines before it (as `str::lines` gives them), each with its newline.
pub open spec fn line_offset(s: Seq<char>, line: usize) -> nat {
    let ls = lines_of(s);
    let k = if line == 0 { 0 } else { line - 1 };
    lines_bytes(ls.take(if k <= ls.len() { k as int } else { ls.len() as int }))
}

/// The bytes of the first `i` lines are no more than those of the first `j`.
pub proof fn lemma_lines_bytes_mono(ls: Seq<Seq<char>>, i: int, j: int)
    requires
        0 <= i <= j <= ls.len(),
    ensures
        lines_bytes(ls.take(i)) <= lines_bytes(ls.take(j)),
    decreases j - i,
{
    if i < j {
        lemma_lines_bytes_mono(ls, i, j - 1);
        assert(ls.take(j).drop_last() =~= ls.take(j - 1));
    }
}

/// A prefix of a text takes no more bytes than the text.
pub proof fn lemma_utf8_len_mono(l: Seq<char>, i: int)
    requires
        0 <= i <= l.len(),
    ensures
        utf8_len(l.take(i)) <= utf8_len(l),
    decreases l.len() - i,
{
    if i < l.len() {
        lemma_utf8_len_mono(l, i + 1);
        assert(l.take(i + 1).drop_last() =~= l.take(i));
    } else {
        assert(l.take(i) =~= l);
    }
}

/// The number of bytes UTF-8 takes for `c`.
pub fn char_len(c: char) -> (n: usize)
    ensures
        n == char_utf8_len(c),
{
    let v = c as u32;
    if v < 0x80 {
        1
    } else if v < 0x800 {
        2
    } else if v < 0x10000 {
        3
    } else {
        4
    }
}

/// The byte offset of 1-based line `line` of `source` (see
/// `line_offset`); line 0 and line 1 start at 0, and lines past the end
/// at the end of the last line.
pub fn line_to_byte_offset(source: &str, line: usize) -> (r: usize)
    requires
        line_offset(source@, line) <= usize::MAX,
    ensures
        r == line_offset(source@, line),
{
    let cs = chars_of(source);
    let ls = lines(cs.as_slice());
    let ghost lv = ls@.map_values(|l: Vec<char>| l@);
    assert(lv == lines_of(source@));
    let k = if line == 0 { 0 } else { line - 1 };
    let n = if k <= ls.len() { k } else { ls.len() };
    proof {
        lemma_lines_bytes_mono(lv, 0, n as int);
    }
    let mut total: usize = 0;
    let mut i: usize = 0;
    assert(lv.take(0) =~= Seq::<Seq<char>>::empty());
    while i < n
        invariant
            n <= ls@.len(),
            lv == ls@.map_values(|l: Vec<char>| l@),
            lines_bytes(lv.take(n as int)) <= usize::MAX,
            i <= n,
            total == lines_bytes(lv.take(i as int)),
        decreases n - i,
    {
        proof {
            lemma_lines_bytes_mono(lv, i + 1, n as int);
            assert(lv.take(i + 1).drop_last() =~= lv.take(i as int));
            assert(lv[i as int] == ls@[i as int]@);
        }
        let l = &ls[i];
        let mut j: usize = 0;
        let mut w: usize = 0;
        assert(l@.take(0) =~= Seq::<char>::empty());
        while j < l.len()
            invariant
                j <= l@.len(),
                w == utf8_len(l@.take(j as int)),
                total + utf8_len(l@) + 1 <= usize::MAX,
            decreases l@.len() - j,
        {
            proof {
                lemma_utf8_len_mono(l@, j + 1);
                assert(l@.take(j + 1).drop_last() =~= l@.take(j as int));
            }
            w = w + char_len(l[j]);
            j = j + 1;
        }
        assert(l@.take(j as int) =~= l@);
        total = total + w + 1;
        i = i + 1;
    }
    total
}

} // verus!
