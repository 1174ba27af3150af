//! What loading a Clang AST decides, apart from the reading and the
//! running of clang: which compile_commands.json entry belongs to a
//! source file, the argument vector an entry records, and the arguments
//! replayed to make clang dump the AST.

use vstd::prelude::*;

use crate::ast::clang_ast::Node;
use crate::text::{chars_of, str_eq};
use crate::verify::scan::{has_prefix, slice_of, starts_with, string_of};

verus! {

/// A parsed Clang AST with the source file's name, used to pick the
/// user's declarations.
pub struct LoadedAst {
    pub root: Node,
    pub source_name: String,
}

/// One entry of a compile_commands.json compilation database.
#[derive(Debug)]
pub struct CompileCommand {
    /// The command's working directory.
    pub directory: String,
    /// The source file, absolute or relative to `directory`.
    pub file: String,
    /// The command as one shell string.
    pub command: Option<String>,
    /// The command as an argument vector.
    pub arguments: Option<Vec<String>>,
}

/// Why an entry yields no argument vector.
#[derive(Debug, PartialEq, Eq, Structural)]
pub enum LoadError {
    /// The entry's `arguments` array is empty.
    EmptyArguments,
    /// The entry's `command` string is not valid shell syntax.
    BadCommand,
    /// The entry's `command` string holds no words.
    EmptyCommand,
    /// The entry has neither `arguments` nor `command`.
    NoCommand,
}

impl LoadError {
    /// The error's text.
    pub fn message(&self) -> (r: String)
        ensures
            r@ == load_error_text(*self),
    {
        let s = match self {
            LoadError::EmptyArguments => "empty arguments array in compile_commands.json entry",
            LoadError::BadCommand => "failed to parse command string in compile_commands.json",
            LoadError::EmptyCommand => "empty command in compile_commands.json entry",
            LoadError::NoCommand => "compile_commands.json entry has neither 'arguments' nor 'command'",
        };
        s.to_owned()
    }
}

/// The text of a load error.
pub open spec fn load_error_text(e: LoadError) -> Seq<char> {
    match e {
        LoadError::EmptyArguments => "empty arguments array in compile_commands.json entry"@,
        LoadError::BadCommand => "failed to parse command string in compile_commands.json"@,
        LoadError::EmptyCommand => "empty command in compile_commands.json entry"@,
        LoadError::NoCommand => "compile_commands.json entry has neither 'arguments' nor 'command'"@,
    }
}

/// The words `shlex::split` makes of a shell command, or `None` where the
/// command is erroneous (an unterminated quote or a trailing backslash).
pub uninterp spec fn shlex_split(cmd: Seq<char>) -> Option<Seq<Seq<char>>>;

/// Trusted: calls `shlex::split`, which splits a command into words the
/// way a POSIX shell does and returns `None` where the input is
/// erroneous. Claimed: the result depends on the command's text alone
/// (named `shlex_split`); which words it makes is not stated.
#[verifier::external_body]
fn split_command(cmd: &str) -> (r: Option<Vec<String>>)
    ensures
        match r {
            Some(v) => shlex_split(cmd@) == Some(v@.map_values(|w: String| w@)),
            None => shlex_split(cmd@) is None,
        },
{
    shlex::split(cmd)
}

/// The argument vector of a split command: an error where splitting
/// failed or made no words.
pub fn args_from_split(split: Option<Vec<String>>) -> (r: Result<Vec<String>, LoadError>)
    ensures
        match split {
            None => r == Err::<Vec<String>, LoadError>(LoadError::BadCommand),
            Some(v) => if v@.len() == 0 {
                r == Err::<Vec<String>, LoadError>(LoadError::EmptyCommand)
            } else {
                r matches Ok(a) && a@ == v@
            },
        },
{
    match split {
        None => Err(LoadError::BadCommand),
        Some(v) => if v.len() == 0 {
            Err(LoadError::EmptyCommand)
        } else {
            Ok(v)
        },
    }
}

/// A copy of a list of strings.
fn copy_strings(v: &Vec<String>) -> (r: Vec<String>)
    ensures
        r@ == v@,
{
    let mut r: Vec<String> = Vec::new();
    let mut i: usize = 0;
    while i < v.len()
        invariant
            i <= v@.len(),
            r@ == v@.take(i as int),
        decreases v@.len() - i,
    {
        r.push(v[i].clone());
        assert(r@ =~= v@.take(i + 1));
        i = i + 1;
    }
    assert(v@.take(i as int) =~= v@);
    r
}

/// The argument vector a compile_commands entry records: its `arguments`
/// where it has them (which must not be empty), otherwise its `command`
/// split into words (see `args_from_split`).
pub fn extract_clang_args(entry: &CompileCommand) -> (r: Result<Vec<String>, LoadError>)
    ensures
        match entry.arguments {
            Some(a) => if a@.len() == 0 {
                r == Err::<Vec<String>, LoadError>(LoadError::EmptyArguments)
            } else {
                r matches Ok(x) && x@ == a@
            },
            None => match entry.command {
                Some(c) => match shlex_split(c@) {
                    None => r == Err::<Vec<String>, LoadError>(LoadError::BadCommand),
                    Some(w) => if w.len() == 0 {
                        r == Err::<Vec<String>, LoadError>(LoadError::EmptyCommand)
                    } else {
                        r matches Ok(x) && x@.map_values(|s: String| s@) == w
                    },
                },
                None => r == Err::<Vec<String>, LoadError>(LoadError::NoCommand),
            },
        },
{
    if let Some(args) = &entry.arguments {
        if args.len() == 0 {
            return Err(LoadError::EmptyArguments);
        }
        return Ok(copy_strings(args));
    }
    if let Some(cmd) = &entry.command {
        return args_from_split(split_command(cmd.as_str()));
    }
    Err(LoadError::NoCommand)
}

/// `dir` joined with `file` the way `Path::join` joins a relative path:
/// `file` alone after an empty directory, no second `/` after one that
/// ends in `/`.
pub open spec fn join_path(dir: Seq<char>, file: Seq<char>) -> Seq<char> {
    if dir.len() == 0 {
        file
    } else if dir.last() == '/' {
        dir + file
    } else {
        dir + seq!['/'] + file
    }
}

/// The path an entry names: its file where that is absolute, otherwise
/// the file under the entry's directory.
pub open spec fn entry_path_of(e: CompileCommand) -> Seq<char> {
    if has_prefix(e.file@, seq!['/']) {
        e.file@
    } else {
        join_path(e.directory@, e.file@)
    }
}

/// The path an entry names (see `entry_path_of`).
pub fn entry_path(entry: &CompileCommand) -> (r: String)
    ensures
        r@ == entry_path_of(*entry),
{
    let file = chars_of(entry.file.as_str());
    let slash = vec!['/'];
    assert(slash@ =~= seq!['/']);
    if starts_with(file.as_slice(), slash.as_slice()) {
        return entry.file.clone();
    }
    let mut out = chars_of(entry.directory.as_str());
    if out.len() > 0 && out[out.len() - 1] != '/' {
        out.push('/');
    }
    crate::verify::scan::append(&mut out, file.as_slice());
    string_of(out.as_slice())
}

/// `p` without trailing `/`s and trailing `/.` pieces.
pub open spec fn trim_tail(p: Seq<char>) -> Seq<char>
    decreases p.len(),
{
    if p.len() > 0 && p.last() == '/' {
        trim_tail(p.drop_last())
    } else if p.len() >= 2 && p.last() == '.' && p[p.len() - 2] == '/' {
        trim_tail(p.drop_last())
    } else {
        p
    }
}

/// The position of the last `/` of `p`, -1 where there is none.
pub open spec fn last_slash(p: Seq<char>) -> int
    decreases p.len(),
{
    if p.len() == 0 {
        -1
    } else if p.last() == '/' {
        p.len() - 1
    } else {
        last_slash(p.drop_last())
    }
}

/// The file name of a path, as `Path::file_name` gives it: its last
/// component, none where that is `..`, `.` alone, or there is none.
pub open spec fn file_name_of(p: Seq<char>) -> Option<Seq<char>> {
    let q = trim_tail(p);
    let last = q.skip(last_slash(q) + 1);
    if q.len() == 0 || q == seq!['.'] || last == seq!['.', '.'] {
        None
    } else {
        Some(last)
    }
}

proof fn lemma_last_slash(p: Seq<char>)
    ensures
        -1 <= last_slash(p) < p.len(),
        forall|i: int| last_slash(p) < i < p.len() ==> p[i] != '/',
        last_slash(p) >= 0 ==> p[last_slash(p)] == '/',
    decreases p.len(),
{
    if p.len() > 0 && p.last() != '/' {
        lemma_last_slash(p.drop_last());
        assert forall|i: int| 0 <= i < p.len() - 1 implies p[i] == p.drop_last()[i] by {}
    }
}

/// The file name of a path (see `file_name_of`).
pub fn file_name(path: &str) -> (r: Option<String>)
    ensures
        match r {
            Some(n) => file_name_of(path@) == Some(n@),
            None => file_name_of(path@) is None,
        },
{
    let v = chars_of(path);
    let mut end: usize = v.len();
    assert(v@.take(end as int) =~= v@);
    while end > 0 && (v[end - 1] == '/' || (end >= 2 && v[end - 1] == '.' && v[end - 2] == '/'))
        invariant
            end <= v@.len(),
            trim_tail(v@) == trim_tail(v@.take(end as int)),
        decreases end,
    {
        assert(v@.take(end as int).drop_last() =~= v@.take(end - 1));
        end = end - 1;
    }
    let q = slice_of(v.as_slice(), 0, end);
    assert(q@ =~= v@.take(end as int));
    assert(trim_tail(q@) == q@);
    let mut k: usize = end;
    proof {
        lemma_last_slash(q@);
    }
    while k > 0 && q[k - 1] != '/'
        invariant
            k <= q@.len(),
            forall|i: int| k <= i < q@.len() ==> q@[i] != '/',
            last_slash(q@) < k,
            -1 <= last_slash(q@) < q@.len(),
            forall|i: int| last_slash(q@) < i < q@.len() ==> q@[i] != '/',
            last_slash(q@) >= 0 ==> q@[last_slash(q@)] == '/',
        decreases k,
    {
        k = k - 1;
    }
    assert(last_slash(q@) + 1 == k);
    let last = slice_of(q.as_slice(), k, q.len());
    assert(last@ =~= q@.skip(k as int));
    let dot = vec!['.'];
    let dotdot = vec!['.', '.'];
    assert(dot@ =~= seq!['.']);
    assert(dotdot@ =~= seq!['.', '.']);
    if q.len() == 0 || crate::verify::scan::eq_chars(q.as_slice(), dot.as_slice())
        || crate::verify::scan::eq_chars(last.as_slice(), dotdot.as_slice()) {
        None
    } else {
        Some(string_of(last.as_slice()))
    }
}

/// The entry for a source file: the first whose canonical path (the
/// caller's `canon_entries`, one per entry) is the source's, or failing
/// that the first whose file has the source's file name.
pub open spec fn compile_entry_of(entries: Seq<CompileCommand>, canon_entries: Seq<Seq<char>>, canon_source: Seq<
    char,
>) -> Option<int> {
    if exists|i: int| 0 <= i < canon_entries.len() && canon_entries[i] == canon_source {
        Some(choose|i: int| 0 <= i < canon_entries.len() && canon_entries[i] == canon_source
            && forall|j: int| 0 <= j < i ==> canon_entries[j] != canon_source)
    } else {
        match file_name_of(canon_source) {
            None => None,
            Some(n) => if exists|i: int| 0 <= i < entries.len() && file_name_of(entries[i].file@) == Some(n) {
                Some(choose|i: int| 0 <= i < entries.len() && file_name_of(entries[i].file@) == Some(n)
                    && forall|j: int| 0 <= j < i ==> file_name_of(entries[j].file@) != Some(n))
            } else {
                None
            },
        }
    }
}

/// Find the entry for a source file (see `compile_entry_of`): the caller
/// canonicalises the entries' paths (see `entry_path`) and the source's.
pub fn find_compile_entry(entries: &[CompileCommand], canon_entries: &[String], canon_source: &str) -> (r: Option<
    usize,
>)
    requires
        canon_entries@.len() == entries@.len(),
    ensures
        match r {
            Some(i) => compile_entry_of(entries@, canon_entries@.map_values(|s: String| s@), canon_source@) == Some(
                i as int,
            ),
            None => compile_entry_of(entries@, canon_entries@.map_values(|s: String| s@), canon_source@) is None,
        },
{
    let ghost ce = canon_entries@.map_values(|s: String| s@);
    let mut i: usize = 0;
    while i < canon_entries.len()
        invariant
            i <= canon_entries@.len(),
            ce == canon_entries@.map_values(|s: String| s@),
            forall|j: int| 0 <= j < i ==> ce[j] != canon_source@,
        decreases canon_entries@.len() - i,
    {
        if str_eq(canon_entries[i].as_str(), canon_source) {
            assert(ce[i as int] == canon_source@);
            let ghost w = choose|x: int| 0 <= x < ce.len() && ce[x] == canon_source@ && forall|j: int| 0 <= j < x ==> ce[j] != canon_source@;
            assert(0 <= i < ce.len() && ce[i as int] == canon_source@ && forall|j: int| 0 <= j < i ==> ce[j] != canon_source@);
            assert(w == i) by {
                if w < i {
                    assert(ce[w] != canon_source@);
                } else if w > i {
                    assert(ce[i as int] != canon_source@);
                }
            }
            return Some(i);
        }
        i = i + 1;
    }
    let source_name = match file_name(canon_source) {
        Some(n) => n,
        None => {
            return None;
        },
    };
    let mut k: usize = 0;
    while k < entries.len()
        invariant
            k <= entries@.len(),
            ce == canon_entries@.map_values(|s: String| s@),
            ce.len() == entries@.len(),
            forall|j: int| 0 <= j < ce.len() ==> ce[j] != canon_source@,
            file_name_of(canon_source@) == Some(source_name@),
            forall|j: int| 0 <= j < k ==> file_name_of(entries@[j].file@) != Some(source_name@),
        decreases entries@.len() - k,
    {
        let n = file_name(entries[k].file.as_str());
        let same = match &n {
            Some(x) => str_eq(x.as_str(), source_name.as_str()),
            None => false,
        };
        if same {
            let ghost w = choose|x: int| 0 <= x < entries@.len() && file_name_of(entries@[x].file@) == Some(source_name@)
                && forall|j: int| 0 <= j < x ==> file_name_of(entries@[j].file@) != Some(source_name@);
            assert(0 <= k < entries@.len() && file_name_of(entries@[k as int].file@) == Some(source_name@));
            assert(w == k) by {
                if w < k {
                    assert(file_name_of(entries@[w].file@) != Some(source_name@));
                } else if w > k {
                    assert(file_name_of(entries@[k as int].file@) != Some(source_name@));
                }
            }
            return Some(k);
        }
        k = k + 1;
    }
    None
}

/// The arguments kept when a recorded command is replayed to dump the
/// AST: `-c` and the output options (`-o` or `--output` with the next
/// argument, `-oFILE`) are dropped.
pub open spec fn kept_args(s: Seq<Seq<char>>, skip: bool) -> Seq<Seq<char>>
    decreases s.len(),
{
    if s.len() == 0 {
        Seq::empty()
    } else {
        let a = s[0];
        let rest = s.drop_first();
        if skip {
            kept_args(rest, false)
        } else if a == "-o"@ || a == "--output"@ {
            kept_args(rest, true)
        } else if a == "-c"@ {
            kept_args(rest, false)
        } else if has_prefix(a, "-o"@) && a.len() > 2 {
            kept_args(rest, false)
        } else {
            seq![a] + kept_args(rest, false)
        }
    }
}

/// The arguments that replay a recorded command to dump its AST: the
/// command's arguments after the compiler (see `kept_args`), then
/// `-Xclang -ast-dump=json -fsyntax-only`.
pub fn replay_args(args: &Vec<String>) -> (r: Vec<String>)
    requires
        args@.len() > 0,
    ensures
        r@.map_values(|s: String| s@) == kept_args(args@.map_values(|s: String| s@).drop_first(), false) + seq![
            "-Xclang"@,
            "-ast-dump=json"@,
            "-fsyntax-only"@,
        ],
{
    let ghost sv = args@.map_values(|s: String| s@).drop_first();
    let mut out: Vec<String> = Vec::new();
    let mut skip_next = false;
    let mut i: usize = 1;
    assert(sv.skip(0) =~= sv);
    while i < args.len()
        invariant
            1 <= i <= args@.len(),
            sv == args@.map_values(|s: String| s@).drop_first(),
            kept_args(sv, false) == out@.map_values(|s: String| s@) + kept_args(sv.skip(i - 1), skip_next),
        decreases args@.len() - i,
    {
        let ghost before = out@.map_values(|s: String| s@);
        assert(sv.skip(i - 1)[0] == args@[i as int]@);
        assert(sv.skip(i - 1).drop_first() =~= sv.skip(i as int));
        let a = args[i].as_str();
        if skip_next {
            skip_next = false;
        } else if str_eq(a, "-o") || str_eq(a, "--output") {
            skip_next = true;
        } else if str_eq(a, "-c") {
        } else if starts_with(chars_of(a).as_slice(), chars_of("-o").as_slice()) && chars_of(a).len() > 2 {
        } else {
            out.push(args[i].clone());
            assert(out@.map_values(|s: String| s@) =~= before.push(a@));
            assert(before.push(a@) + kept_args(sv.skip(i as int), false) =~= before + (seq![a@] + kept_args(
                sv.skip(i as int),
                false,
            )));
        }
        i = i + 1;
    }
    assert(sv.skip(i - 1) =~= Seq::<Seq<char>>::empty());
    let ghost kept = out@.map_values(|s: String| s@);
    out.push("-Xclang".to_owned());
    out.push("-ast-dump=json".to_owned());
    out.push("-fsyntax-only".to_owned());
    assert(out@.map_values(|s: String| s@) =~= kept + seq!["-Xclang"@, "-ast-dump=json"@, "-fsyntax-only"@]);
    out
}

} // verus!
