//! What running F* decides: where the binary is taken from, the command
//! line it is given, and what its exit status and output mean. Starting
//! the process is left to the caller.

use vstd::prelude::*;

use crate::text::{chars_of, push_str};
use crate::verify::scan::{string_of, trim, trim_of};

verus! {

/// Why F* could not be run.
#[derive(Debug)]
pub enum VerifyError {
    /// No F* binary at this path, nor on the search path.
    FstarNotFound(String),
    /// Starting F* failed, for this reason.
    FstarInvocation(String),
}

impl VerifyError {
    /// The error's text.
    pub fn message(&self) -> (r: String)
        ensures
            match self {
                VerifyError::FstarNotFound(p) => r@ == "F* binary not found at "@ + p@,
                VerifyError::FstarInvocation(why) => r@ == "failed to invoke F*: "@ + why@,
            },
    {
        match self {
            VerifyError::FstarNotFound(p) => {
                let mut s = "F* binary not found at ".to_string();
                push_str(&mut s, p.as_str());
                s
            },
            VerifyError::FstarInvocation(why) => {
                let mut s = "failed to invoke F*: ".to_string();
                push_str(&mut s, why.as_str());
                s
            },
        }
    }
}

/// What an F* run found.
#[derive(Debug)]
pub enum VerifyResult {
    Pass,
    /// F* rejected the module; its standard output and error output.
    Fail { message: String },
}

/// How to run F*: the binary, the include directories, and where to keep
/// checked modules.
#[derive(Debug)]
pub struct FstarRunner {
    pub fstar_path: String,
    pub include_dirs: Vec<String>,
    pub cache_dir: Option<String>,
}

/// The binary's place under a project root.
pub open spec fn local_fstar_of(root: Seq<char>) -> Seq<char> {
    if root.len() == 0 {
        "third_party/fstar/bin/fstar.exe"@
    } else if root.last() == '/' {
        root + "third_party/fstar/bin/fstar.exe"@
    } else {
        root + seq!['/'] + "third_party/fstar/bin/fstar.exe"@
    }
}

/// The binary's place under a project root (see `local_fstar_of`).
pub fn local_fstar_path(project_root: &str) -> (r: String)
    ensures
        r@ == local_fstar_of(project_root@),
{
    let root = chars_of(project_root);
    let mut s = String::new();
    push_str(&mut s, project_root);
    if root.len() > 0 && root[root.len() - 1] != '/' {
        crate::text::push_char(&mut s, '/');
    }
    push_str(&mut s, "third_party/fstar/bin/fstar.exe");
    assert(s@ =~= local_fstar_of(project_root@));
    s
}

/// The path `which fstar.exe` printed, trimmed; none where it printed
/// only white space.
pub fn which_output(stdout: &str) -> (r: Option<String>)
    ensures
        match r {
            Some(p) => p@ == trim(stdout@) && p@.len() > 0,
            None => trim(stdout@).len() == 0,
        },
{
    let t = trim_of(chars_of(stdout).as_slice());
    if t.len() == 0 {
        None
    } else {
        Some(string_of(t.as_slice()))
    }
}

/// The arguments F* is run with for `fstar_file`: each include directory
/// after `--include`, module caching (in the cache directory where there
/// is one), the fuel and resource limits, and JSON messages.
pub open spec fn fstar_args(dirs: Seq<Seq<char>>, cache: Option<Seq<char>>, file: Seq<char>) -> Seq<Seq<char>> {
    include_args(dirs) + seq!["--cache_checked_modules"@] + match cache {
        Some(c) => seq!["--cache_dir"@, c],
        None => Seq::empty(),
    } + seq![
        "--fuel"@,
        "8"@,
        "--ifuel"@,
        "2"@,
        "--z3rlimit"@,
        "30"@,
        "--message_format"@,
        "json"@,
        file,
    ]
}

/// `--include` before each directory.
pub open spec fn include_args(dirs: Seq<Seq<char>>) -> Seq<Seq<char>>
    decreases dirs.len(),
{
    if dirs.len() == 0 {
        Seq::empty()
    } else {
        include_args(dirs.drop_last()) + seq!["--include"@, dirs.last()]
    }
}

/// What an F* run's exit status and output mean: a pass, or a failure
/// whose message is the standard output, a newline, and the error output.
pub open spec fn outcome_of(success: bool, stdout: Seq<char>, stderr: Seq<char>) -> Option<Seq<char>> {
    if success {
        None
    } else {
        Some(stdout + seq!['\n'] + stderr)
    }
}

impl VerifyResult {
    /// The result of an F* run (see `outcome_of`).
    pub fn from_run(success: bool, stdout: &str, stderr: &str) -> (r: VerifyResult)
        ensures
            match outcome_of(success, stdout@, stderr@) {
                None => r is Pass,
                Some(m) => r matches VerifyResult::Fail { message } && message@ == m,
            },
    {
        if success {
            VerifyResult::Pass
        } else {
            let mut message = String::new();
            push_str(&mut message, stdout);
            push_str(&mut message, "\n");
            push_str(&mut message, stderr);
            proof {
                reveal_strlit("\n");
            }
            assert(message@ =~= stdout@ + seq!['\n'] + stderr@);
            VerifyResult::Fail { message }
        }
    }
}

impl FstarRunner {
    /// A runner for the binary at `fstar_path`.
    pub fn new(fstar_path: String, include_dirs: Vec<String>) -> (r: Self)
        ensures
            r.fstar_path == fstar_path,
            r.include_dirs == include_dirs,
            r.cache_dir is None,
    {
        FstarRunner { fstar_path, include_dirs, cache_dir: None }
    }

    /// The runner keeping checked modules in `cache_dir`.
    pub fn with_cache(self, cache_dir: String) -> (r: Self)
        ensures
            r.fstar_path == self.fstar_path,
            r.include_dirs == self.include_dirs,
            r.cache_dir == Some(cache_dir),
    {
        FstarRunner { cache_dir: Some(cache_dir), ..self }
    }

    /// The runner for the binary under the project root where it exists
    /// there (`local_exists`), else for the one `which` found; an error
    /// naming the local path where there is neither.
    pub fn find_fstar(project_root: &str, local_exists: bool, on_path: Option<String>, include_dirs: Vec<String>) -> (r:
        Result<Self, VerifyError>)
        ensures
            local_exists ==> (r matches Ok(x) && x.fstar_path@ == local_fstar_of(project_root@) && x.include_dirs
                == include_dirs && x.cache_dir is None),
            !local_exists && on_path is Some ==> (r matches Ok(x) && x.fstar_path == on_path->0 && x.include_dirs
                == include_dirs && x.cache_dir is None),
            !local_exists && on_path is None ==> (r matches Err(VerifyError::FstarNotFound(p)) && p@
                == local_fstar_of(project_root@)),
    {
        let local = local_fstar_path(project_root);
        if local_exists {
            return Ok(Self::new(local, include_dirs));
        }
        match on_path {
            Some(p) => Ok(Self::new(p, include_dirs)),
            None => Err(VerifyError::FstarNotFound(local)),
        }
    }

    /// The arguments to run F* with on `fstar_file` (see `fstar_args`).
    pub fn args(&self, fstar_file: &str) -> (r: Vec<String>)
        ensures
            r@.map_values(|s: String| s@) == fstar_args(
                self.include_dirs@.map_values(|s: String| s@),
                match self.cache_dir {
                    Some(c) => Some(c@),
                    None => None,
                },
                fstar_file@,
            ),
    {
        let ghost dirs = self.include_dirs@.map_values(|s: String| s@);
        let mut r: Vec<String> = Vec::new();
        let mut i: usize = 0;
        assert(dirs.take(0) =~= Seq::<Seq<char>>::empty());
        assert(r@.map_values(|s: String| s@) =~= include_args(dirs.take(0)));
        while i < self.include_dirs.len()
            invariant
                i <= self.include_dirs@.len(),
                dirs == self.include_dirs@.map_values(|s: String| s@),
                r@.map_values(|s: String| s@) == include_args(dirs.take(i as int)),
            decreases self.include_dirs@.len() - i,
        {
            let ghost r0 = r@.map_values(|s: String| s@);
            r.push("--include".to_owned());
            r.push(self.include_dirs[i].clone());
            assert(dirs.take(i + 1).drop_last() =~= dirs.take(i as int));
            assert(r@.map_values(|s: String| s@) =~= r0 + seq!["--include"@, dirs[i as int]]);
            i = i + 1;
        }
        assert(dirs.take(i as int) =~= dirs);
        let ghost inc = r@.map_values(|s: String| s@);
        r.push("--cache_checked_modules".to_owned());
        let ghost with_cache = r@.map_values(|s: String| s@);
        assert(with_cache =~= inc + seq!["--cache_checked_modules"@]);
        if let Some(c) = &self.cache_dir {
            r.push("--cache_dir".to_owned());
            r.push(c.clone());
        }
        let ghost before_tail = r@.map_values(|s: String| s@);
        r.push("--fuel".to_owned());
        r.push("8".to_owned());
        r.push("--ifuel".to_owned());
        r.push("2".to_owned());
        r.push("--z3rlimit".to_owned());
        r.push("30".to_owned());
        r.push("--message_format".to_owned());
        r.push("json".to_owned());
        r.push(fstar_file.to_owned());
        assert(r@.map_values(|s: String| s@) =~= before_tail + seq![
            "--fuel"@,
            "8"@,
            "--ifuel"@,
            "2"@,
            "--z3rlimit"@,
            "30"@,
            "--message_format"@,
            "json"@,
            fstar_file@,
        ]);
        r
    }
}

} // verus!
